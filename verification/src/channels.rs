//! The channels of a core: one record for each side and flow that the
//! description mentions.

use vstd::prelude::*;
use crate::attributes::{bag_view, clone_bag, AttributeBag, Entries};

verus! {

/// The side of a router that a channel is attached to.
#[derive(Debug, Clone, Copy, PartialEq, Eq, Structural, Hash)]
pub enum Directions {
    North,
    South,
    East,
    West,
    Local,
}

/// Whether a channel carries data into the router or out of it.
#[derive(Debug, Clone, Copy, PartialEq, Eq, Structural, Hash)]
pub enum Flow {
    Input,
    Output,
}

/// A channel as a mathematical value.
pub struct ChannelView {
    pub direction: Directions,
    pub flow: Flow,
    pub bandwidth: u16,
    pub load: u16,
    pub source: Option<u8>,
    pub status: Seq<char>,
    pub other_attributes: Option<Entries>,
}

/// One directional link endpoint of a router.
#[derive(Debug, PartialEq, Eq)]
pub struct Channel {
    direction: Directions,
    flow: Flow,
    bandwidth: u16,
    load: u16,
    source: Option<u8>,
    status: String,
    other_attributes: Option<AttributeBag>,
}

impl View for Channel {
    type V = ChannelView;

    closed spec fn view(&self) -> ChannelView {
        ChannelView {
            direction: self.direction,
            flow: self.flow,
            bandwidth: self.bandwidth,
            load: self.load,
            source: self.source,
            status: self.status@,
            other_attributes: bag_view(self.other_attributes),
        }
    }
}

impl Clone for Channel {
    fn clone(&self) -> (r: Self)
        ensures
            r@ == self@,
    {
        Channel {
            direction: self.direction,
            flow: self.flow,
            bandwidth: self.bandwidth,
            load: self.load,
            source: self.source,
            status: self.status.clone(),
            other_attributes: clone_bag(&self.other_attributes),
        }
    }
}

impl Channel {
    /// A channel on the given side and flow: its capacity, its present load,
    /// the core whose traffic it carries, its status and its extra attributes.
    pub fn new(
        direction: Directions,
        flow: Flow,
        bandwidth: u16,
        load: u16,
        source: Option<u8>,
        status: String,
        other_attributes: Option<AttributeBag>,
    ) -> (r: Self)
        ensures
            r@ == (ChannelView {
                direction,
                flow,
                bandwidth,
                load,
                source,
                status: status@,
                other_attributes: bag_view(other_attributes),
            }),
    {
        Channel { direction, flow, bandwidth, load, source, status, other_attributes }
    }

    /// The side of the router that the channel is attached to.
    pub fn direction(&self) -> (r: Directions)
        ensures
            r == self@.direction,
    {
        self.direction
    }

    /// Whether the channel leads into the router or out of it.
    pub fn flow(&self) -> (r: Flow)
        ensures
            r == self@.flow,
    {
        self.flow
    }

    /// The capacity of the channel.
    pub fn bandwidth(&self) -> (r: u16)
        ensures
            r == self@.bandwidth,
    {
        self.bandwidth
    }

    /// The load that the channel carries at present.
    pub fn load(&self) -> (r: u16)
        ensures
            r == self@.load,
    {
        self.load
    }

    /// The core whose traffic the channel carries, if one is recorded.
    pub fn source(&self) -> (r: Option<u8>)
        ensures
            r == self@.source,
    {
        self.source
    }

    /// The status that the description gives for the channel.
    pub fn status(&self) -> (r: &String)
        ensures
            r@ == self@.status,
    {
        &self.status
    }

    /// The channel's extra attributes, if it carries any.
    pub fn other_attributes(&self) -> (r: &Option<AttributeBag>)
        ensures
            bag_view(*r) == self@.other_attributes,
    {
        &self.other_attributes
    }
}

/// Some channel of `channels` sits on the side `direction` with flow `flow`.
pub open spec fn has_port(channels: Seq<ChannelView>, direction: Directions, flow: Flow) -> bool {
    exists|i: int|
        0 <= i < channels.len() && (#[trigger] channels[i]).direction == direction
            && channels[i].flow == flow
}

/// No two channels of `channels` share side and flow.
pub open spec fn distinct_ports(channels: Seq<ChannelView>) -> bool {
    forall|i: int, j: int|
        0 <= i < j < channels.len() ==> !((#[trigger] channels[i]).direction == (
        #[trigger] channels[j]).direction && channels[i].flow == channels[j].flow)
}

/// The place of the channel on the side `direction` with flow `flow`.
pub open spec fn port_index(channels: Seq<ChannelView>, direction: Directions, flow: Flow) -> int {
    choose|i: int|
        0 <= i < channels.len() && (#[trigger] channels[i]).direction == direction
            && channels[i].flow == flow
}

/// `channels` with `channel` in the place of the channel that had its side
/// and flow, or else at the end.
pub open spec fn with_channel(channels: Seq<ChannelView>, channel: ChannelView) -> Seq<
    ChannelView,
> {
    if has_port(channels, channel.direction, channel.flow) {
        channels.update(port_index(channels, channel.direction, channel.flow), channel)
    } else {
        channels.push(channel)
    }
}

/// Among distinct ports, the channel at place `i` is the one found by its
/// side and flow.
pub proof fn lemma_port_at(channels: Seq<ChannelView>, i: int)
    requires
        distinct_ports(channels),
        0 <= i < channels.len(),
    ensures
        has_port(channels, channels[i].direction, channels[i].flow),
        port_index(channels, channels[i].direction, channels[i].flow) == i,
{
    let j = port_index(channels, channels[i].direction, channels[i].flow);
    assert(0 <= j < channels.len() && channels[j].direction == channels[i].direction
        && channels[j].flow == channels[i].flow);
    if j < i {
        assert(!(channels[j].direction == channels[i].direction && channels[j].flow
            == channels[i].flow));
    } else if i < j {
        assert(!(channels[i].direction == channels[j].direction && channels[i].flow
            == channels[j].flow));
    }
}

/// Putting a channel in keeps the ports distinct.
pub proof fn lemma_with_channel_distinct(channels: Seq<ChannelView>, channel: ChannelView)
    requires
        distinct_ports(channels),
    ensures
        distinct_ports(with_channel(channels, channel)),
{
    let after = with_channel(channels, channel);
    let at = if has_port(channels, channel.direction, channel.flow) {
        port_index(channels, channel.direction, channel.flow)
    } else {
        channels.len() as int
    };
    assert forall|i: int, j: int| 0 <= i < j < after.len() implies !((
    #[trigger] after[i]).direction == (#[trigger] after[j]).direction && after[i].flow
        == after[j].flow) by {
        if i != at && j != at {
            assert(after[i] == channels[i] && after[j] == channels[j]);
        } else if has_port(channels, channel.direction, channel.flow) {
            assert(after[i].direction == channels[i].direction && after[i].flow
                == channels[i].flow);
            assert(after[j].direction == channels[j].direction && after[j].flow
                == channels[j].flow);
        } else {
            assert(j == at);
            assert(after[i] == channels[i]);
        }
    }
}

/// The channels of one core, at most one for each side and flow, in the order
/// in which they were added.
#[derive(Debug, PartialEq, Eq)]
pub struct Channels {
    channel: Vec<Channel>,
}

impl View for Channels {
    type V = Seq<ChannelView>;

    closed spec fn view(&self) -> Seq<ChannelView> {
        self.channel@.map_values(|c: Channel| c@)
    }
}

impl Clone for Channels {
    fn clone(&self) -> (r: Self)
        ensures
            r@ == self@,
    {
        proof {
            use_type_invariant(self);
        }
        let mut channel: Vec<Channel> = Vec::new();
        let mut i: usize = 0;
        while i < self.channel.len()
            invariant
                i <= self.channel.len(),
                channel@.len() == i,
                forall|j: int| 0 <= j < i ==> (#[trigger] channel@[j])@ == self.channel@[j]@,
            decreases self.channel.len() - i,
        {
            channel.push(self.channel[i].clone());
            i += 1;
        }
        assert(channel@.map_values(|c: Channel| c@) =~= self@);
        Channels { channel }
    }
}

impl Channels {
    #[verifier::type_invariant]
    closed spec fn inv(&self) -> bool {
        distinct_ports(self@)
    }

    /// A set without channels.
    pub fn new() -> (r: Self)
        ensures
            r@ == Seq::<ChannelView>::empty(),
    {
        let r = Channels { channel: Vec::new() };
        assert(r@ =~= Seq::empty());
        r
    }

    /// The number of channels.
    pub fn len(&self) -> (n: usize)
        ensures
            n == self@.len(),
            distinct_ports(self@),
    {
        proof {
            use_type_invariant(self);
        }
        self.channel.len()
    }

    /// The channel at place `i`.
    pub fn at(&self, i: usize) -> (c: &Channel)
        requires
            i < self@.len(),
        ensures
            c@ == self@[i as int],
    {
        &self.channel[i]
    }

    fn find(&self, direction: Directions, flow: Flow) -> (r: Option<usize>)
        ensures
            match r {
                Some(i) => i < self@.len() && self@[i as int].direction == direction
                    && self@[i as int].flow == flow,
                None => !has_port(self@, direction, flow),
            },
    {
        let mut i: usize = 0;
        while i < self.channel.len()
            invariant
                i <= self.channel.len(),
                self@.len() == self.channel.len(),
                forall|j: int|
                    0 <= j < i ==> !((#[trigger] self@[j]).direction == direction
                        && self@[j].flow == flow),
            decreases self.channel.len() - i,
        {
            if self.channel[i].direction == direction && self.channel[i].flow == flow {
                return Some(i);
            }
            i += 1;
        }
        None
    }

    /// The channel on the side `direction` with flow `flow`, if there is one.
    pub fn get(&self, direction: Directions, flow: Flow) -> (r: Option<&Channel>)
        ensures
            match r {
                Some(c) => has_port(self@, direction, flow) && c@ == self@[port_index(
                    self@,
                    direction,
                    flow,
                )],
                None => !has_port(self@, direction, flow),
            },
    {
        match self.find(direction, flow) {
            Some(i) => {
                proof {
                    use_type_invariant(self);
                    lemma_port_at(self@, i as int);
                }
                Some(&self.channel[i])
            },
            None => None,
        }
    }

    /// Puts `channel` in the place of the channel that had its side and flow,
    /// or else behind the channels that are there.
    pub fn insert(&mut self, channel: Channel)
        ensures
            final(self)@ == with_channel(old(self)@, channel@),
    {
        proof {
            use_type_invariant(&*self);
            lemma_with_channel_distinct(self@, channel@);
        }
        let found = self.find(channel.direction, channel.flow);
        let mut list: Vec<Channel> = Vec::new();
        assert(list@.map_values(|c: Channel| c@) =~= Seq::empty());
        core::mem::swap(&mut list, &mut self.channel);
        match found {
            Some(i) => {
                proof {
                    lemma_port_at(old(self)@, i as int);
                }
                list.set(i, channel);
            },
            None => {
                list.push(channel);
            },
        }
        assert(list@.map_values(|c: Channel| c@) =~= with_channel(old(self)@, channel@));
        self.channel = list;
    }
}

} // verus!
