//! The placement index: for each task that is allocated, the core that hosts it.

use std::collections::HashMap;
use vstd::prelude::*;
use crate::cores::{Core, CoreView, core_views};
use crate::overwrite::{
    is_last_write, last_write, last_writer, lemma_last_write, lemma_pass_none, lemma_pass_some,
    writes,
};

verus! {

/// For each core of `cores`, the task that is allocated to it, if any.
pub open spec fn allocated_tasks(cores: Seq<CoreView>) -> Seq<Option<u16>> {
    cores.map_values(|c: CoreView| c.allocated_task)
}

/// The placement index of `cores`: every task that is allocated to some
/// core, with the place of the last core that it is allocated to.
pub open spec fn placement(cores: Seq<CoreView>) -> Map<u16, usize> {
    last_writer(allocated_tasks(cores)).map_values(|i: int| i as usize)
}

/// The tasks of the placement index are exactly the tasks that some core
/// declares as allocated to it. Each is filed with the place of a core that
/// declares it, and no core behind that one declares it.
pub proof fn lemma_placement(cores: Seq<CoreView>, task: u16)
    requires
        cores.len() <= usize::MAX,
    ensures
        placement(cores).dom().contains(task) <==> exists|i: int|
            0 <= i < cores.len() && (#[trigger] cores[i]).allocated_task == Some(task),
        placement(cores).dom().contains(task) ==> {
            let host = placement(cores)[task] as int;
            &&& 0 <= host < cores.len()
            &&& cores[host].allocated_task == Some(task)
            &&& forall|j: int|
                host < j < cores.len() ==> (#[trigger] cores[j]).allocated_task != Some(task)
        },
{
    let tasks = allocated_tasks(cores);
    if placement(cores).dom().contains(task) {
        let i = choose|i: int| writes(tasks, task, i);
        assert(cores[i].allocated_task == Some(task));
        lemma_last_write(tasks, task);
        let host = last_write(tasks, task);
        assert(is_last_write(tasks, task, host));
        assert(cores[host].allocated_task == Some(task));
        assert forall|j: int| host < j < cores.len() implies (
        #[trigger] cores[j]).allocated_task != Some(task) by {
            assert(tasks[j] != Some(task));
        }
    }
    if exists|i: int| 0 <= i < cores.len() && (#[trigger] cores[i]).allocated_task == Some(task) {
        let i = choose|i: int|
            0 <= i < cores.len() && (#[trigger] cores[i]).allocated_task == Some(task);
        assert(writes(tasks, task, i));
    }
}

/// The placement index is injective: two tasks are never filed with the same
/// core, since a core declares at most one task.
pub proof fn lemma_placement_injective(cores: Seq<CoreView>, first: u16, second: u16)
    requires
        cores.len() <= usize::MAX,
        placement(cores).dom().contains(first),
        placement(cores).dom().contains(second),
        placement(cores)[first] == placement(cores)[second],
    ensures
        first == second,
{
    lemma_placement(cores, first);
    lemma_placement(cores, second);
}

/// Builds the placement index in one pass over the cores: a core that
/// declares a task files its own place under the task, over whatever an
/// earlier core has filed there.
pub fn index_tasks(cores: &Vec<Core>) -> (r: HashMap<u16, usize>)
    ensures
        r@ == placement(core_views(cores@)),
{
    broadcast use vstd::std_specs::hash::group_hash_axioms;

    let ghost views = core_views(cores@);
    let mut index: HashMap<u16, usize> = HashMap::new();
    proof {
        assert(allocated_tasks(views.take(0)) =~= Seq::empty());
        assert(index@ =~= placement(views.take(0)));
    }
    let mut i: usize = 0;
    while i < cores.len()
        invariant
            i <= cores.len(),
            views == core_views(cores@),
            index@ == placement(views.take(i as int)),
        decreases cores.len() - i,
    {
        let ghost seen = allocated_tasks(views.take(i as int));
        let ghost next = allocated_tasks(views.take(i + 1));
        assert(cores[i as int]@ == views[i as int]);
        match cores[i].allocated_task() {
            Some(task) => {
                index.insert(*task, i);
                proof {
                    assert(next =~= seen.push(Some(*task)));
                    lemma_pass_some(seen, *task);
                    assert(index@ =~= placement(views.take(i + 1)));
                }
            },
            None => {
                proof {
                    assert(next =~= seen.push(None));
                    lemma_pass_none(seen);
                }
            },
        }
        i += 1;
    }
    assert(views.take(cores.len() as int) =~= views);
    index
}

} // verus!
