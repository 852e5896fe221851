//! The mathematical views of the dynamic value model: each runtime value is
//! abstracted to a pure tree over sequences, which the library's contracts
//! speak of.

use vstd::prelude::*;
use crate::dynamic::{Dynamic, Number, Object};

verus! {

/// The mathematical shape of a `Dynamic` value: the same tree with byte
/// vectors abstracted to sequences.
#[verifier::ext_equal]
pub enum DynV {
    Null,
    Bool(bool),
    Number(Number),
    String(Seq<u8>),
    Array(Seq<DynV>),
    Mapping(Seq<(Seq<u8>, DynV)>),
    DynObj(Seq<(Seq<u8>, DynV)>),
}

/// The abstraction of a `Dynamic` value.
pub open spec fn view_dyn(d: Dynamic) -> DynV
    decreases d,
{
    match d {
        Dynamic::Null => DynV::Null,
        Dynamic::Bool(b) => DynV::Bool(b),
        Dynamic::Number(n) => DynV::Number(n),
        Dynamic::String(s) => DynV::String(s@),
        Dynamic::Array(v) => DynV::Array(view_arr(v@)),
        Dynamic::Object(Object::Mapping(p)) => DynV::Mapping(view_ent(p@)),
        Dynamic::Object(Object::DynamicObject(p)) => DynV::DynObj(view_ent(p@)),
    }
}

/// The abstraction of a sequence of `Dynamic` values.
pub open spec fn view_arr(s: Seq<Dynamic>) -> Seq<DynV>
    decreases s,
{
    if s.len() == 0 {
        Seq::empty()
    } else {
        view_arr(s.drop_last()).push(view_dyn(s.last()))
    }
}

/// The abstraction of a sequence of object entries.
pub open spec fn view_ent(s: Seq<(Vec<u8>, Dynamic)>) -> Seq<(Seq<u8>, DynV)>
    decreases s,
{
    if s.len() == 0 {
        Seq::empty()
    } else {
        view_ent(s.drop_last()).push((s.last().0@, view_dyn(s.last().1)))
    }
}

/// The abstraction of an optional `Dynamic` value.
pub open spec fn view_opt(o: Option<Dynamic>) -> Option<DynV> {
    match o {
        Option::None => Option::None,
        Option::Some(d) => Option::Some(view_dyn(d)),
    }
}

pub broadcast proof fn lemma_view_arr_len(s: Seq<Dynamic>)
    ensures
        (#[trigger] view_arr(s)).len() == s.len(),
    decreases s,
{
    if s.len() > 0 {
        lemma_view_arr_len(s.drop_last());
    }
}

pub broadcast proof fn lemma_view_arr_index(s: Seq<Dynamic>, i: int)
    requires
        0 <= i < s.len(),
    ensures
        #[trigger] view_arr(s)[i] == view_dyn(s[i]),
    decreases s,
{
    lemma_view_arr_len(s.drop_last());
    if i < s.len() - 1 {
        lemma_view_arr_index(s.drop_last(), i);
    }
}

pub broadcast proof fn lemma_view_ent_len(s: Seq<(Vec<u8>, Dynamic)>)
    ensures
        (#[trigger] view_ent(s)).len() == s.len(),
    decreases s,
{
    if s.len() > 0 {
        lemma_view_ent_len(s.drop_last());
    }
}

pub broadcast proof fn lemma_view_ent_index(s: Seq<(Vec<u8>, Dynamic)>, i: int)
    requires
        0 <= i < s.len(),
    ensures
        #[trigger] view_ent(s)[i] == (s[i].0@, view_dyn(s[i].1)),
    decreases s,
{
    lemma_view_ent_len(s.drop_last());
    if i < s.len() - 1 {
        lemma_view_ent_index(s.drop_last(), i);
    }
}

} // verus!
