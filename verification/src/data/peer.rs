use vstd::prelude::*;

use crate::name::Name;
use crate::name_map::{Duplicate, NameMap};

verus! {

/// The role of a peer in a session.
#[derive(Clone, Copy, Debug, PartialEq, Eq)]
pub enum PeerRole {
    Controller,
}

/// A peer connected to the engine.
#[derive(Debug, Clone)]
pub struct Peer {
    pub uid: u32,
    pub name: Name,
    pub role: PeerRole,
    pub properties: NameMap<String>,
}

impl Peer {
    /// A peer with no properties.
    pub fn new(uid: u32, name: Name, role: PeerRole) -> (r: Peer)
        ensures
            r.uid == uid,
            r.name@ == name@,
            r.role == role,
            r.properties@ == Map::<Seq<char>, Seq<char>>::empty(),
            r.properties.well_formed(),
    {
        Peer { uid, name, role, properties: NameMap::new() }
    }
}

} // verus!
