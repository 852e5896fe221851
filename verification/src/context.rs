//! The variable environment of an evaluation: an owned, insertion-ordered
//! mapping of named bindings, itself a dynamic object, with the two
//! distinguished bindings `ROOT` and `CURRENT` always installed.

use vstd::prelude::*;
use crate::dynamic::{
    lemma_ent_remove_unique, lemma_ent_set_preserves_keys, lemma_ent_set_unique, spec_ent_set,
    spec_lookup, unique_keys, Dynamic, Object,
};
use crate::views::{view_dyn, view_ent, DynV};
use crate::DynamicError;

verus! {

broadcast use crate::views::lemma_view_ent_len, crate::views::lemma_view_ent_index;

/// The name of the distinguished root binding.
pub open spec fn spec_root_key() -> Seq<u8> {
    seq![82u8, 79u8, 79u8, 84u8]
}

/// The name of the distinguished current-subject binding.
pub open spec fn spec_current_key() -> Seq<u8> {
    seq![67u8, 85u8, 82u8, 82u8, 69u8, 78u8, 84u8]
}

/// The bytes of `ROOT`.
pub fn root_key() -> (r: Vec<u8>)
    ensures
        r@ == spec_root_key(),
{
    let mut r: Vec<u8> = Vec::new();
    r.push(82);
    r.push(79);
    r.push(79);
    r.push(84);
    proof {
        assert(r@ =~= spec_root_key());
    }
    r
}

/// The bytes of `CURRENT`.
pub fn current_key() -> (r: Vec<u8>)
    ensures
        r@ == spec_current_key(),
{
    let mut r: Vec<u8> = Vec::new();
    r.push(67);
    r.push(85);
    r.push(82);
    r.push(82);
    r.push(69);
    r.push(78);
    r.push(84);
    proof {
        assert(r@ =~= spec_current_key());
    }
    r
}

/// The variable environment: a dynamic object holding the named bindings.
pub struct Context {
    map: Dynamic,
}

impl Context {
    /// The bindings of this context, as an ordered entry list.
    pub closed spec fn entries(&self) -> Seq<(Seq<u8>, DynV)> {
        match self.map {
            Dynamic::Object(Object::Mapping(p)) => view_ent(p@),
            _ => Seq::empty(),
        }
    }

    /// Whether the backing value is an owned mapping.
    pub closed spec fn backed(&self) -> bool {
        self.map matches Dynamic::Object(Object::Mapping(_))
    }

    /// A context is well-formed when its backing value is an owned mapping
    /// that holds the `ROOT` and `CURRENT` bindings.
    pub open spec fn wf(&self) -> bool {
        &&& self.backed()
        &&& spec_lookup(self.entries(), spec_root_key()) is Some
        &&& spec_lookup(self.entries(), spec_current_key()) is Some
        &&& unique_keys(self.entries())
    }

    /// The value bound to `key`, or `Null` where the binding is absent.
    pub open spec fn spec_get_or_null(&self, key: Seq<u8>) -> DynV {
        match spec_lookup(self.entries(), key) {
            Some(v) => v,
            None => DynV::Null,
        }
    }

    /// The value of the `ROOT` binding.
    pub open spec fn spec_root(&self) -> DynV {
        self.spec_get_or_null(spec_root_key())
    }

    /// The value of the `CURRENT` binding.
    pub open spec fn spec_current(&self) -> DynV {
        self.spec_get_or_null(spec_current_key())
    }

    /// A fresh context with `ROOT` and `CURRENT` bound to `Null`.
    pub fn new() -> (r: Context)
        ensures
            r.wf(),
            r.entries() == seq![
                (spec_root_key(), DynV::Null),
                (spec_current_key(), DynV::Null),
            ],
    {
        let mut p: Vec<(Vec<u8>, Dynamic)> = Vec::new();
        p.push((root_key(), Dynamic::Null));
        p.push((current_key(), Dynamic::Null));
        let r = Context { map: Dynamic::Object(Object::Mapping(p)) };
        proof {
            assert(r.entries() =~= seq![
                (spec_root_key(), DynV::Null),
                (spec_current_key(), DynV::Null),
            ]);
            assert(spec_root_key() != spec_current_key());
            let ents = r.entries();
            assert(spec_lookup(ents, spec_root_key()) is Some);
            assert(crate::dynamic::spec_find_entry(ents, spec_current_key(), 1nat) == Some(
                1int,
            ));
            assert(spec_lookup(ents, spec_current_key()) is Some);
            assert(unique_keys(ents));
        }
        r
    }

    /// The whole environment as a dynamic object value.
    pub fn as_dynamic(&self) -> (r: &Dynamic)
        requires
            self.wf(),
        ensures
            view_dyn(*r) == DynV::Mapping(self.entries()),
    {
        &self.map
    }

    /// Binds `name` to `value`, handing back the prior value of the binding.
    pub fn set_variable(&mut self, name: Vec<u8>, value: Dynamic) -> (r: Result<
        Option<Dynamic>,
        DynamicError,
    >)
        requires
            old(self).wf(),
        ensures
            final(self).wf(),
            final(self).entries() == spec_ent_set(old(self).entries(), name@, view_dyn(value)),
            r matches Ok(prev) && crate::views::view_opt(prev) == spec_lookup(
                old(self).entries(),
                name@,
            ),
    {
        proof {
            lemma_ent_set_preserves_keys(
                old(self).entries(),
                spec_root_key(),
                name@,
                view_dyn(value),
            );
            lemma_ent_set_preserves_keys(
                old(self).entries(),
                spec_current_key(),
                name@,
                view_dyn(value),
            );
            lemma_ent_set_unique(old(self).entries(), name@, view_dyn(value));
        }
        self.map.set_object_field(name, value)
    }

    /// The value bound to `key`, copied out.
    pub fn get_variable(&self, key: &[u8]) -> (r: Option<Dynamic>)
        requires
            self.wf(),
        ensures
            crate::views::view_opt(r) == spec_lookup(self.entries(), key@),
    {
        self.map.get_object_field(key)
    }

    /// The value of the `ROOT` binding.
    pub fn get_root(&self) -> (r: Dynamic)
        requires
            self.wf(),
        ensures
            view_dyn(r) == self.spec_root(),
    {
        let k = root_key();
        match self.map.get_object_field(k.as_slice()) {
            Some(d) => d,
            None => Dynamic::Null,
        }
    }

    /// The value of the `CURRENT` binding.
    pub fn get_current(&self) -> (r: Dynamic)
        requires
            self.wf(),
        ensures
            view_dyn(r) == self.spec_current(),
    {
        let k = current_key();
        match self.map.get_object_field(k.as_slice()) {
            Some(d) => d,
            None => Dynamic::Null,
        }
    }

    /// Replaces the `ROOT` binding, handing back the prior value.
    pub fn set_root(&mut self, value: Dynamic) -> (r: Option<Dynamic>)
        requires
            old(self).wf(),
        ensures
            final(self).wf(),
            final(self).entries() == spec_ent_set(
                old(self).entries(),
                spec_root_key(),
                view_dyn(value),
            ),
            crate::views::view_opt(r) == spec_lookup(old(self).entries(), spec_root_key()),
    {
        match self.set_variable(root_key(), value) {
            Ok(prev) => prev,
            Err(_) => None,
        }
    }

    /// Replaces the `CURRENT` binding, handing back the prior value.
    pub fn set_current(&mut self, value: Dynamic) -> (r: Option<Dynamic>)
        requires
            old(self).wf(),
        ensures
            final(self).wf(),
            final(self).entries() == spec_ent_set(
                old(self).entries(),
                spec_current_key(),
                view_dyn(value),
            ),
            crate::views::view_opt(r) == spec_lookup(old(self).entries(), spec_current_key()),
    {
        match self.set_variable(current_key(), value) {
            Ok(prev) => prev,
            Err(_) => None,
        }
    }

    /// Removes the binding of `key`, handing back its value; the binding is
    /// absent afterwards and all other bindings keep their values and order.
    /// Removing `ROOT` or `CURRENT` leaves the context unfit for evaluation.
    pub fn remove_variable(&mut self, key: &[u8]) -> (r: Result<Option<Dynamic>, DynamicError>)
        requires
            old(self).wf(),
        ensures
            final(self).entries() == crate::dynamic::spec_ent_remove(old(self).entries(), key@),
            spec_lookup(final(self).entries(), key@) is None,
            unique_keys(final(self).entries()),
            forall|k2: Seq<u8>|
                k2 != key@ ==> #[trigger] spec_lookup(final(self).entries(), k2) == spec_lookup(
                    old(self).entries(),
                    k2,
                ),
            r matches Ok(prev) && crate::views::view_opt(prev) == spec_lookup(
                old(self).entries(),
                key@,
            ),
    {
        proof {
            lemma_ent_remove_unique(old(self).entries(), key@);
            assert forall|k2: Seq<u8>| k2 != key@ implies spec_lookup(
                crate::dynamic::spec_ent_remove(old(self).entries(), key@),
                k2,
            ) == spec_lookup(old(self).entries(), k2) by {
                crate::dynamic::lemma_ent_remove_other(old(self).entries(), key@, k2);
            }
        }
        self.map.remove_object_field(key)
    }
}

} // verus!
