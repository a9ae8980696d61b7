//! The globals of the machine: values by name.

use crate::value::{Value, ValueView};
use vstd::hash_map::StringHashMap;
use vstd::prelude::*;

verus! {

/// Values by name, kept in a hash map. Its view is the map from each bound name to its
/// value.
pub struct VarStore {
    store: StringHashMap<Value>,
}

impl View for VarStore {
    type V = Map<Seq<char>, ValueView>;

    closed spec fn view(&self) -> Map<Seq<char>, ValueView> {
        self.store@.map_values(|val: Value| val@)
    }
}

impl VarStore {
    pub fn new() -> (store: Self)
        ensures
            store@ == Map::<Seq<char>, ValueView>::empty(),
    {
        let store = VarStore { store: StringHashMap::new() };
        assert(store@ =~= Map::<Seq<char>, ValueView>::empty());
        store
    }

    /// Binds `ident_` to `val`, in place of what it was bound to.
    pub fn put(&mut self, ident_: String, val: Value)
        ensures
            final(self)@ == old(self)@.insert(ident_@, val@),
    {
        self.store.insert(ident_, val);
        assert(self@ =~= old(self)@.insert(ident_@, val@));
    }

    /// What `ident_` is bound to, if it is bound.
    pub fn get(&self, ident_: &str) -> (val: Option<&Value>)
        ensures
            val is Some <==> self@.contains_key(ident_@),
            val is Some ==> val->0@ == self@[ident_@],
    {
        self.store.get(ident_)
    }

    /// Whether `ident_` is bound.
    pub fn contains(&self, ident_: &str) -> (yes: bool)
        ensures
            yes == self@.contains_key(ident_@),
    {
        self.store.contains_key(ident_)
    }
}

} // verus!
