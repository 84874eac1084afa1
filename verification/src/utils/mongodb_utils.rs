//! The collections of the persistent store.

use vstd::prelude::*;

verus! {

/// The four kinds of record that the store keeps.
#[derive(Debug, PartialEq, Eq, Clone, Copy, Structural)]
pub enum DBCollection {
    IMAGES,
    ROUTES,
    LOADBALANCERS,
    CONTAINERS,
}

impl DBCollection {
    /// The name of the collection in the store.
    pub open spec fn label(self) -> Seq<char> {
        match self {
            DBCollection::IMAGES => "images"@,
            DBCollection::ROUTES => "routes"@,
            DBCollection::LOADBALANCERS => "load_balancers"@,
            DBCollection::CONTAINERS => "containers"@,
        }
    }

    /// The name of the collection in the store.
    pub fn to_string(&self) -> (name: String)
        ensures
            name@ == self.label(),
    {
        match self {
            DBCollection::IMAGES => String::from_str("images"),
            DBCollection::ROUTES => String::from_str("routes"),
            DBCollection::LOADBALANCERS => String::from_str("load_balancers"),
            DBCollection::CONTAINERS => String::from_str("containers"),
        }
    }
}

} // verus!
