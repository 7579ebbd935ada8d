use vstd::prelude::*;

use std::collections::HashMap;

use crate::name::Name;

verus! {

broadcast use vstd::std_specs::hash::group_hash_axioms;

/// Identifier of the connection of the engine to itself.
pub const LOCAL_CONN_ID: usize = 0usize;

/// What the engine knows of a connection.
#[derive(Debug, Clone)]
pub struct Context {
    pub uid: usize,
    /// The name of the controller that speaks over the connection, once it
    /// has introduced itself.
    pub name: Option<Name>,
}

/// Model of a connection context.
pub struct ContextView {
    pub uid: usize,
    pub name: Option<Seq<char>>,
}

impl View for Context {
    type V = ContextView;

    open spec fn view(&self) -> ContextView {
        ContextView {
            uid: self.uid,
            name: match self.name {
                Some(n) => Some(n@),
                None => None,
            },
        }
    }
}

impl Default for Context {
    fn default() -> (r: Self)
        ensures
            r@ == (ContextView { uid: 0, name: None }),
    {
        Context { uid: 0, name: None }
    }
}

/// The contexts of the open connections, by connection id.
#[derive(Debug)]
pub struct ContextMap {
    contexts: HashMap<usize, Context>,
}

impl View for ContextMap {
    type V = Map<usize, ContextView>;

    closed spec fn view(&self) -> Map<usize, ContextView> {
        self.contexts@.map_values(|c: Context| c@)
    }
}

impl ContextMap {
    /// No contexts.
    pub fn new() -> (r: Self)
        ensures
            r@ == Map::<usize, ContextView>::empty(),
    {
        let r = ContextMap { contexts: HashMap::new() };
        assert(r@ =~= Map::<usize, ContextView>::empty());
        r
    }

    /// The context for a connection id.
    pub fn context(&self, conn_id: usize) -> (r: Option<&Context>)
        ensures
            match r {
                Some(c) => self@.contains_key(conn_id) && c@ == self@[conn_id],
                None => !self@.contains_key(conn_id),
            },
    {
        self.contexts.get(&conn_id)
    }

    /// Give the connection a controller name, creating its context (with
    /// uid 0) where it has none.
    pub fn set_name(&mut self, conn_id: usize, name: Name)
        ensures
            final(self)@ == old(self)@.insert(
                conn_id,
                ContextView {
                    uid: if old(self)@.contains_key(conn_id) {
                        old(self)@[conn_id].uid
                    } else {
                        0
                    },
                    name: Some(name@),
                },
            ),
    {
        let ghost pre = self@;
        let ghost nv = name@;
        let uid = match self.contexts.get(&conn_id) {
            Some(c) => c.uid,
            None => 0,
        };
        self.contexts.insert(conn_id, Context { uid, name: Some(name) });
        assert(self@ =~= pre.insert(conn_id, ContextView { uid, name: Some(nv) }));
    }

    /// Forget the context of a connection.
    pub fn remove(&mut self, conn_id: usize)
        ensures
            final(self)@ == old(self)@.remove(conn_id),
    {
        let ghost pre = self@;
        self.contexts.remove(&conn_id);
        assert(self@ =~= pre.remove(conn_id));
    }
}

/// Whether the connection with id `uid` takes an event addressed to
/// `target`: events for every connection (`None`) and those for it.
pub fn delivers_to(target: Option<usize>, uid: usize) -> (r: bool)
    ensures
        r == (target is None || target == Some(uid)),
{
    match target {
        Some(t) => t == uid,
        None => true,
    }
}

/// The id that a new connection gets while `open` connections are held:
/// one more than their number.
pub fn new_connection_id(open: usize) -> (r: usize)
    requires
        open < usize::MAX,
    ensures
        r == open + 1,
{
    open + 1
}

} // verus!
