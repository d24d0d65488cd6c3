//! The router of a core.

use vstd::prelude::*;
use crate::attributes::{bag_view, clone_bag, AttributeBag, Entries};

verus! {

/// A router as a mathematical value.
pub struct RouterView {
    /// The identifier of the core that owns the router.
    pub id: u8,
    /// The router's extra attributes, if it carries any.
    pub other_attributes: Option<Entries>,
}

/// The router of a core. Its identifier is not part of the description: it
/// always mirrors the identifier of the owning core.
#[derive(Debug, PartialEq, Eq)]
pub struct Router {
    id: u8,
    other_attributes: Option<AttributeBag>,
}

impl View for Router {
    type V = RouterView;

    closed spec fn view(&self) -> RouterView {
        RouterView { id: self.id, other_attributes: bag_view(self.other_attributes) }
    }
}

impl Clone for Router {
    fn clone(&self) -> (r: Self)
        ensures
            r@ == self@,
    {
        Router { id: self.id, other_attributes: clone_bag(&self.other_attributes) }
    }
}

impl Router {
    /// A router with the given identifier and extra attributes.
    pub fn new(id: u8, other_attributes: Option<AttributeBag>) -> (r: Self)
        ensures
            r@ == (RouterView { id, other_attributes: bag_view(other_attributes) }),
    {
        Router { id, other_attributes }
    }

    /// The identifier of the core that owns the router.
    pub fn id(&self) -> (r: &u8)
        ensures
            *r == self@.id,
    {
        &self.id
    }

    /// Gives the router the identifier `id` and leaves its attributes alone.
    pub fn set_id(&mut self, id: u8)
        ensures
            final(self)@ == (RouterView { id, ..old(self)@ }),
    {
        self.id = id;
    }

    /// The router's extra attributes, if it carries any.
    pub fn other_attributes(&self) -> (r: &Option<AttributeBag>)
        ensures
            bag_view(*r) == self@.other_attributes,
    {
        &self.other_attributes
    }

    /// The short tag under which a router's attributes are filed.
    pub fn variant(&self) -> (r: &'static str)
        ensures
            r@ == "r"@,
    {
        "r"
    }
}

} // verus!
