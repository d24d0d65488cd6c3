//! The task graph of the application that runs on the system.

use vstd::prelude::*;

verus! {

/// One task of the application.
#[derive(Debug, Clone, Copy, PartialEq, Eq, Structural)]
pub struct Task {
    /// The task's identifier.
    pub id: u16,
    /// What it costs to compute the task.
    pub computation_cost: u8,
}

/// A dependency between two tasks.
#[derive(Debug, Clone, Copy, PartialEq, Eq, Structural)]
pub struct Edge {
    /// The identifier of the task that sends.
    pub from: u16,
    /// The identifier of the task that receives.
    pub to: u16,
    /// The volume of data that is sent.
    pub communication_cost: u8,
}

/// A task graph as a mathematical value.
pub struct TaskGraphView {
    pub tasks: Seq<Task>,
    pub edges: Seq<Edge>,
}

/// The tasks of the application and the dependencies between them, in the
/// order of the description.
#[derive(Debug, PartialEq, Eq)]
pub struct TaskGraph {
    tasks: Vec<Task>,
    edges: Vec<Edge>,
}

impl View for TaskGraph {
    type V = TaskGraphView;

    closed spec fn view(&self) -> TaskGraphView {
        TaskGraphView { tasks: self.tasks@, edges: self.edges@ }
    }
}

impl Clone for TaskGraph {
    fn clone(&self) -> (r: Self)
        ensures
            r@ == self@,
    {
        let mut tasks: Vec<Task> = Vec::new();
        let mut i: usize = 0;
        while i < self.tasks.len()
            invariant
                i <= self.tasks.len(),
                tasks@ == self.tasks@.take(i as int),
            decreases self.tasks.len() - i,
        {
            tasks.push(self.tasks[i]);
            assert(tasks@ =~= self.tasks@.take(i + 1));
            i += 1;
        }
        let mut edges: Vec<Edge> = Vec::new();
        let mut j: usize = 0;
        while j < self.edges.len()
            invariant
                j <= self.edges.len(),
                edges@ == self.edges@.take(j as int),
            decreases self.edges.len() - j,
        {
            edges.push(self.edges[j]);
            assert(edges@ =~= self.edges@.take(j + 1));
            j += 1;
        }
        assert(tasks@ =~= self.tasks@);
        assert(edges@ =~= self.edges@);
        TaskGraph { tasks, edges }
    }
}

impl TaskGraph {
    /// The graph of the given tasks and edges.
    pub fn new(tasks: Vec<Task>, edges: Vec<Edge>) -> (r: Self)
        ensures
            r@ == (TaskGraphView { tasks: tasks@, edges: edges@ }),
    {
        TaskGraph { tasks, edges }
    }

    /// The tasks.
    pub fn tasks(&self) -> (r: &Vec<Task>)
        ensures
            r@ == self@.tasks,
    {
        &self.tasks
    }

    /// The edges.
    pub fn edges(&self) -> (r: &Vec<Edge>)
        ensures
            r@ == self@.edges,
    {
        &self.edges
    }
}

} // verus!
