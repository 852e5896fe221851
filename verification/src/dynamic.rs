//! The dynamic value model: a tagged union of null, booleans, numbers,
//! UTF-8 strings, ordered arrays and objects, together with the structural
//! equality and the partial order of the query language.
//!
//! An object is either an insertion-ordered mapping of owned entries or a
//! read-only materialized view of a host object's fields; both enumerate
//! their entries in a fixed order, and equality and ordering walk that order.
//!
//! Numbers are 64-bit integers or double-precision patterns (see
//! `float_bits`); a comparison across the two kinds promotes the integer to
//! the nearest double.

use vstd::prelude::*;
use crate::bytes::{bytes_cmp, bytes_eq, copy_bytes, spec_bytes_cmp};
use crate::views::{
    lemma_view_arr_index, lemma_view_arr_len, lemma_view_ent_index, lemma_view_ent_len, view_arr,
    view_dyn, view_ent, view_opt, DynV,
};
use crate::float_bits::{f64_cmp, f64_eq, i64_to_bits, spec_f64_cmp, spec_f64_eq, spec_i64_to_bits};
use crate::DynamicError;
use vstd::pervasive::VecAdditionalExecFns;

verus! {

broadcast use lemma_view_arr_len, lemma_view_arr_index, lemma_view_ent_len, lemma_view_ent_index;

/// A numeric value: an integer, or a double-precision pattern.
#[derive(Clone, Copy, Debug)]
pub enum Number {
    Int(i64),
    Float(u64),
}

/// An object value: an owned insertion-ordered mapping, or a read-only
/// snapshot of a host object's named fields in the host's declared order.
pub enum Object {
    Mapping(Vec<(Vec<u8>, Dynamic)>),
    DynamicObject(Vec<(Vec<u8>, Dynamic)>),
}

/// A runtime value of the query language.
pub enum Dynamic {
    Null,
    Bool(bool),
    Number(Number),
    String(Vec<u8>),
    Array(Vec<Dynamic>),
    Object(Object),
}

/// Equality of two numbers; an integer equals a double exactly when its
/// promotion to double equals it.
pub open spec fn spec_num_eq(a: Number, b: Number) -> bool {
    match (a, b) {
        (Number::Int(x), Number::Int(y)) => x == y,
        (Number::Float(x), Number::Float(y)) => spec_f64_eq(x, y),
        (Number::Int(x), Number::Float(y)) => spec_f64_eq(spec_i64_to_bits(x), y),
        (Number::Float(x), Number::Int(y)) => spec_f64_eq(x, spec_i64_to_bits(y)),
    }
}

/// Comparison of two numbers, promoting across kinds; `None` only against NaN.
pub open spec fn spec_num_cmp(a: Number, b: Number) -> Option<core::cmp::Ordering> {
    match (a, b) {
        (Number::Int(x), Number::Int(y)) => if x < y {
            Some(core::cmp::Ordering::Less)
        } else if x == y {
            Some(core::cmp::Ordering::Equal)
        } else {
            Some(core::cmp::Ordering::Greater)
        },
        (Number::Float(x), Number::Float(y)) => spec_f64_cmp(x, y),
        (Number::Int(x), Number::Float(y)) => spec_f64_cmp(spec_i64_to_bits(x), y),
        (Number::Float(x), Number::Int(y)) => spec_f64_cmp(x, spec_i64_to_bits(y)),
    }
}

pub fn num_eq(a: &Number, b: &Number) -> (r: bool)
    ensures
        r == spec_num_eq(*a, *b),
{
    match (a, b) {
        (Number::Int(x), Number::Int(y)) => *x == *y,
        (Number::Float(x), Number::Float(y)) => f64_eq(*x, *y),
        (Number::Int(x), Number::Float(y)) => f64_eq(i64_to_bits(*x), *y),
        (Number::Float(x), Number::Int(y)) => f64_eq(*x, i64_to_bits(*y)),
    }
}

pub fn num_cmp(a: &Number, b: &Number) -> (r: Option<core::cmp::Ordering>)
    ensures
        r == spec_num_cmp(*a, *b),
{
    match (a, b) {
        (Number::Int(x), Number::Int(y)) => if *x < *y {
            Some(core::cmp::Ordering::Less)
        } else if *x == *y {
            Some(core::cmp::Ordering::Equal)
        } else {
            Some(core::cmp::Ordering::Greater)
        },
        (Number::Float(x), Number::Float(y)) => f64_cmp(*x, *y),
        (Number::Int(x), Number::Float(y)) => f64_cmp(i64_to_bits(*x), *y),
        (Number::Float(x), Number::Int(y)) => f64_cmp(*x, i64_to_bits(*y)),
    }
}

/// The numeric value as a double-precision pattern: an integer is promoted
/// to the nearest double, a double is handed back as it is.
pub open spec fn spec_num_bits(n: Number) -> u64 {
    match n {
        Number::Int(i) => spec_i64_to_bits(i),
        Number::Float(b) => b,
    }
}

impl Number {
    /// This number as a double-precision bit pattern.
    pub fn as_f64_bits(&self) -> (r: u64)
        ensures
            r == spec_num_bits(*self),
    {
        match self {
            Number::Int(i) => i64_to_bits(*i),
            Number::Float(b) => *b,
        }
    }
}

/// The fixed rank that orders values of different variants:
/// null, numbers, strings, objects, arrays, booleans.
pub open spec fn spec_rank(d: DynV) -> int {
    match d {
        DynV::Null => 1,
        DynV::Number(_) => 2,
        DynV::String(_) => 3,
        DynV::Mapping(_) => 4,
        DynV::DynObj(_) => 4,
        DynV::Array(_) => 5,
        DynV::Bool(_) => 6,
    }
}

/// Structural equality of two dynamic values. Arrays and object entry lists
/// compare element by element in order; an owned mapping and a host view
/// with the same entries in the same order are equal.
pub open spec fn spec_dyn_eq(a: DynV, b: DynV) -> bool
    decreases a, 0int,
{
    match (a, b) {
        (DynV::Null, DynV::Null) => true,
        (DynV::Bool(x), DynV::Bool(y)) => x == y,
        (DynV::Number(x), DynV::Number(y)) => spec_num_eq(x, y),
        (DynV::String(x), DynV::String(y)) => x == y,
        (DynV::Array(x), DynV::Array(y)) => spec_arr_eq(x, y, 0nat),
        (DynV::Mapping(x), DynV::Mapping(y)) => spec_ent_eq(x, y, 0nat),
        (DynV::Mapping(x), DynV::DynObj(y)) => spec_ent_eq(x, y, 0nat),
        (DynV::DynObj(x), DynV::Mapping(y)) => spec_ent_eq(x, y, 0nat),
        (DynV::DynObj(x), DynV::DynObj(y)) => spec_ent_eq(x, y, 0nat),
        _ => false,
    }
}

/// Element-wise equality of two value sequences from position `i` on.
pub open spec fn spec_arr_eq(s1: Seq<DynV>, s2: Seq<DynV>, i: nat) -> bool
    decreases s1, s1.len() - i,
{
    if i >= s1.len() && i >= s2.len() {
        true
    } else if i >= s1.len() || i >= s2.len() {
        false
    } else {
        spec_dyn_eq(s1[i as int], s2[i as int]) && spec_arr_eq(s1, s2, (i + 1) as nat)
    }
}

/// Ordered equality of two entry sequences from position `i` on: keys and
/// values must agree pairwise in order.
pub open spec fn spec_ent_eq(
    s1: Seq<(Seq<u8>, DynV)>,
    s2: Seq<(Seq<u8>, DynV)>,
    i: nat,
) -> bool
    decreases s1, s1.len() - i,
{
    if i >= s1.len() && i >= s2.len() {
        true
    } else if i >= s1.len() || i >= s2.len() {
        false
    } else {
        s1[i as int].0 == s2[i as int].0 && spec_dyn_eq(s1[i as int].1, s2[i as int].1)
            && spec_ent_eq(s1, s2, (i + 1) as nat)
    }
}

/// The partial order of two dynamic values: structural within a variant,
/// by the fixed rank across variants, `None` only where NaN intrudes.
pub open spec fn spec_dyn_cmp(a: DynV, b: DynV) -> Option<core::cmp::Ordering>
    decreases a, 0int,
{
    match (a, b) {
        (DynV::Null, DynV::Null) => Some(core::cmp::Ordering::Equal),
        (DynV::Bool(x), DynV::Bool(y)) => if x == y {
            Some(core::cmp::Ordering::Equal)
        } else if !x {
            Some(core::cmp::Ordering::Less)
        } else {
            Some(core::cmp::Ordering::Greater)
        },
        (DynV::Number(x), DynV::Number(y)) => spec_num_cmp(x, y),
        (DynV::String(x), DynV::String(y)) => Some(spec_bytes_cmp(x, y)),
        (DynV::Array(x), DynV::Array(y)) => spec_arr_cmp(x, y, 0nat),
        (DynV::Mapping(x), DynV::Mapping(y)) => spec_ent_cmp(x, y, 0nat),
        (DynV::Mapping(x), DynV::DynObj(y)) => spec_ent_cmp(x, y, 0nat),
        (DynV::DynObj(x), DynV::Mapping(y)) => spec_ent_cmp(x, y, 0nat),
        (DynV::DynObj(x), DynV::DynObj(y)) => spec_ent_cmp(x, y, 0nat),
        _ => if spec_rank(a) < spec_rank(b) {
            Some(core::cmp::Ordering::Less)
        } else {
            Some(core::cmp::Ordering::Greater)
        },
    }
}

/// Lexicographic comparison of two value sequences from position `i` on.
pub open spec fn spec_arr_cmp(s1: Seq<DynV>, s2: Seq<DynV>, i: nat) -> Option<
    core::cmp::Ordering,
>
    decreases s1, s1.len() - i,
{
    if i >= s1.len() && i >= s2.len() {
        Some(core::cmp::Ordering::Equal)
    } else if i >= s1.len() {
        Some(core::cmp::Ordering::Less)
    } else if i >= s2.len() {
        Some(core::cmp::Ordering::Greater)
    } else {
        match spec_dyn_cmp(s1[i as int], s2[i as int]) {
            Some(core::cmp::Ordering::Equal) => spec_arr_cmp(s1, s2, (i + 1) as nat),
            other => other,
        }
    }
}

/// Lexicographic comparison of two entry sequences from position `i` on:
/// each pair compares by key first, then by value.
pub open spec fn spec_ent_cmp(
    s1: Seq<(Seq<u8>, DynV)>,
    s2: Seq<(Seq<u8>, DynV)>,
    i: nat,
) -> Option<core::cmp::Ordering>
    decreases s1, s1.len() - i,
{
    if i >= s1.len() && i >= s2.len() {
        Some(core::cmp::Ordering::Equal)
    } else if i >= s1.len() {
        Some(core::cmp::Ordering::Less)
    } else if i >= s2.len() {
        Some(core::cmp::Ordering::Greater)
    } else {
        match spec_bytes_cmp(s1[i as int].0, s2[i as int].0) {
            core::cmp::Ordering::Equal => match spec_dyn_cmp(s1[i as int].1, s2[i as int].1) {
                Some(core::cmp::Ordering::Equal) => spec_ent_cmp(s1, s2, (i + 1) as nat),
                other => other,
            },
            core::cmp::Ordering::Less => Some(core::cmp::Ordering::Less),
            core::cmp::Ordering::Greater => Some(core::cmp::Ordering::Greater),
        }
    }
}

/// Structural equality of two dynamic values (see `spec_dyn_eq`).
pub fn dyn_eq(a: &Dynamic, b: &Dynamic) -> (r: bool)
    ensures
        r == spec_dyn_eq(view_dyn(*a), view_dyn(*b)),
    decreases *a, 0int,
{
    match (a, b) {
        (Dynamic::Null, Dynamic::Null) => true,
        (Dynamic::Bool(x), Dynamic::Bool(y)) => *x == *y,
        (Dynamic::Number(x), Dynamic::Number(y)) => num_eq(x, y),
        (Dynamic::String(x), Dynamic::String(y)) => bytes_eq(x.as_slice(), y.as_slice()),
        (Dynamic::Array(x), Dynamic::Array(y)) => arr_eq(x, y, 0),
        (Dynamic::Object(x), Dynamic::Object(y)) => {
            let p1 = object_entries(x);
            let p2 = object_entries(y);
            ent_eq(p1, p2, 0)
        },
        _ => false,
    }
}

/// The entry list of an object, whichever variant carries it.
pub fn object_entries<'a>(o: &'a Object) -> (r: &'a Vec<(Vec<u8>, Dynamic)>)
    ensures
        *o matches Object::Mapping(p) ==> r == &p,
        *o matches Object::DynamicObject(p) ==> r == &p,
{
    match o {
        Object::Mapping(p) => p,
        Object::DynamicObject(p) => p,
    }
}

fn arr_eq(a: &Vec<Dynamic>, b: &Vec<Dynamic>, i: usize) -> (r: bool)
    requires
        i <= a@.len(),
        i <= b@.len(),
    ensures
        r == spec_arr_eq(view_arr(a@), view_arr(b@), i as nat),
    decreases a@, a@.len() - i,
{
    if i == a.len() && i == b.len() {
        true
    } else if i == a.len() || i == b.len() {
        false
    } else {
        dyn_eq(&a[i], &b[i]) && arr_eq(a, b, i + 1)
    }
}

fn ent_eq(a: &Vec<(Vec<u8>, Dynamic)>, b: &Vec<(Vec<u8>, Dynamic)>, i: usize) -> (r: bool)
    requires
        i <= a@.len(),
        i <= b@.len(),
    ensures
        r == spec_ent_eq(view_ent(a@), view_ent(b@), i as nat),
    decreases a@, a@.len() - i,
{
    if i == a.len() && i == b.len() {
        true
    } else if i == a.len() || i == b.len() {
        false
    } else {
        bytes_eq(a[i].0.as_slice(), b[i].0.as_slice()) && dyn_eq(&a[i].1, &b[i].1) && ent_eq(
            a,
            b,
            i + 1,
        )
    }
}

/// The partial order of two dynamic values (see `spec_dyn_cmp`).
pub fn dyn_cmp(a: &Dynamic, b: &Dynamic) -> (r: Option<core::cmp::Ordering>)
    ensures
        r == spec_dyn_cmp(view_dyn(*a), view_dyn(*b)),
    decreases *a, 0int,
{
    match (a, b) {
        (Dynamic::Null, Dynamic::Null) => Some(core::cmp::Ordering::Equal),
        (Dynamic::Bool(x), Dynamic::Bool(y)) => if *x == *y {
            Some(core::cmp::Ordering::Equal)
        } else if !*x {
            Some(core::cmp::Ordering::Less)
        } else {
            Some(core::cmp::Ordering::Greater)
        },
        (Dynamic::Number(x), Dynamic::Number(y)) => num_cmp(x, y),
        (Dynamic::String(x), Dynamic::String(y)) => Some(
            bytes_cmp(x.as_slice(), y.as_slice()),
        ),
        (Dynamic::Array(x), Dynamic::Array(y)) => arr_cmp(x, y, 0),
        (Dynamic::Object(x), Dynamic::Object(y)) => {
            let p1 = object_entries(x);
            let p2 = object_entries(y);
            ent_cmp(p1, p2, 0)
        },
        _ => {
            let ra = a.comparison_order();
            let rb = b.comparison_order();
            if ra < rb {
                Some(core::cmp::Ordering::Less)
            } else {
                Some(core::cmp::Ordering::Greater)
            }
        },
    }
}

fn arr_cmp(a: &Vec<Dynamic>, b: &Vec<Dynamic>, i: usize) -> (r: Option<core::cmp::Ordering>)
    requires
        i <= a@.len(),
        i <= b@.len(),
    ensures
        r == spec_arr_cmp(view_arr(a@), view_arr(b@), i as nat),
    decreases a@, a@.len() - i,
{
    if i == a.len() && i == b.len() {
        Some(core::cmp::Ordering::Equal)
    } else if i == a.len() {
        Some(core::cmp::Ordering::Less)
    } else if i == b.len() {
        Some(core::cmp::Ordering::Greater)
    } else {
        match dyn_cmp(&a[i], &b[i]) {
            Some(core::cmp::Ordering::Equal) => arr_cmp(a, b, i + 1),
            other => other,
        }
    }
}

fn ent_cmp(a: &Vec<(Vec<u8>, Dynamic)>, b: &Vec<(Vec<u8>, Dynamic)>, i: usize) -> (r: Option<
    core::cmp::Ordering,
>)
    requires
        i <= a@.len(),
        i <= b@.len(),
    ensures
        r == spec_ent_cmp(view_ent(a@), view_ent(b@), i as nat),
    decreases a@, a@.len() - i,
{
    if i == a.len() && i == b.len() {
        Some(core::cmp::Ordering::Equal)
    } else if i == a.len() {
        Some(core::cmp::Ordering::Less)
    } else if i == b.len() {
        Some(core::cmp::Ordering::Greater)
    } else {
        match bytes_cmp(a[i].0.as_slice(), b[i].0.as_slice()) {
            core::cmp::Ordering::Equal => match dyn_cmp(&a[i].1, &b[i].1) {
                Some(core::cmp::Ordering::Equal) => ent_cmp(a, b, i + 1),
                other => other,
            },
            core::cmp::Ordering::Less => Some(core::cmp::Ordering::Less),
            core::cmp::Ordering::Greater => Some(core::cmp::Ordering::Greater),
        }
    }
}

/// The first entry whose key equals `key`, searched from position `i` on.
pub open spec fn spec_find_entry(s: Seq<(Seq<u8>, DynV)>, key: Seq<u8>, i: nat) -> Option<int>
    decreases s.len() - i,
{
    if i >= s.len() {
        None
    } else if s[i as int].0 == key {
        Some(i as int)
    } else {
        spec_find_entry(s, key, (i + 1) as nat)
    }
}

/// The value bound to `key` in an entry list, if any.
pub open spec fn spec_lookup(s: Seq<(Seq<u8>, DynV)>, key: Seq<u8>) -> Option<DynV> {
    match spec_find_entry(s, key, 0nat) {
        Some(i) => Some(s[i].1),
        None => None,
    }
}

fn find_entry(s: &Vec<(Vec<u8>, Dynamic)>, key: &[u8], i: usize) -> (r: Option<usize>)
    requires
        i <= s@.len(),
    ensures
        match r {
            Some(j) => Some(j as int) == spec_find_entry(view_ent(s@), key@, i as nat) && j
                < s@.len(),
            None => spec_find_entry(view_ent(s@), key@, i as nat) is None,
        },
    decreases s@.len() - i,
{
    if i >= s.len() {
        None
    } else if bytes_eq(s[i].0.as_slice(), key) {
        Some(i)
    } else {
        find_entry(s, key, i + 1)
    }
}

/// An owned structural copy of a dynamic value.
pub fn copy_dynamic(d: &Dynamic) -> (r: Dynamic)
    ensures
        view_dyn(r) == view_dyn(*d),
    decreases *d, 0int,
{
    match d {
        Dynamic::Null => Dynamic::Null,
        Dynamic::Bool(b) => Dynamic::Bool(*b),
        Dynamic::Number(n) => Dynamic::Number(*n),
        Dynamic::String(s) => Dynamic::String(copy_bytes(s.as_slice())),
        Dynamic::Array(v) => Dynamic::Array(copy_arr(v)),
        Dynamic::Object(Object::Mapping(p)) => Dynamic::Object(Object::Mapping(copy_ent(p))),
        Dynamic::Object(Object::DynamicObject(p)) => Dynamic::Object(
            Object::DynamicObject(copy_ent(p)),
        ),
    }
}

/// An owned copy of a sequence of dynamic values.
pub fn copy_arr(v: &Vec<Dynamic>) -> (r: Vec<Dynamic>)
    ensures
        view_arr(r@) == view_arr(v@),
    decreases v@, 0int,
{
    let mut out: Vec<Dynamic> = Vec::new();
    let mut i: usize = 0;
    while i < v.len()
        invariant
            i <= v@.len(),
            view_arr(out@) =~= view_arr(v@).subrange(0, i as int),
        decreases v@.len() - i,
    {
        let ghost prev = out@;
        out.push(copy_dynamic(&v[i]));
        proof {
            assert(out@.drop_last() =~= prev);
            assert(view_arr(out@) =~= view_arr(v@).subrange(0, i + 1 as int));
        }
        i = i + 1;
    }
    proof {
        assert(view_arr(v@).subrange(0, v@.len() as int) =~= view_arr(v@));
    }
    out
}

/// An owned copy of a sequence of object entries.
pub fn copy_ent(p: &Vec<(Vec<u8>, Dynamic)>) -> (r: Vec<(Vec<u8>, Dynamic)>)
    ensures
        view_ent(r@) == view_ent(p@),
    decreases p@, 0int,
{
    let mut out: Vec<(Vec<u8>, Dynamic)> = Vec::new();
    let mut i: usize = 0;
    while i < p.len()
        invariant
            i <= p@.len(),
            view_ent(out@) =~= view_ent(p@).subrange(0, i as int),
        decreases p@.len() - i,
    {
        let ghost prev = out@;
        let key = copy_bytes(p[i].0.as_slice());
        let value = copy_dynamic(&p[i].1);
        out.push((key, value));
        proof {
            assert(out@.drop_last() =~= prev);
            assert(view_ent(out@) =~= view_ent(p@).subrange(0, i + 1 as int));
        }
        i = i + 1;
    }
    proof {
        assert(view_ent(p@).subrange(0, p@.len() as int) =~= view_ent(p@));
    }
    out
}

impl Object {
    /// The value bound to `key`, copied out, whichever variant holds it.
    pub fn get(&self, key: &[u8]) -> (r: Option<Dynamic>)
        ensures
            view_opt(r) == spec_lookup(self.entries_view(), key@),
    {
        let p = object_entries(self);
        match find_entry(p, key, 0) {
            Some(i) => Some(copy_dynamic(&p[i].1)),
            None => None,
        }
    }

    /// The abstract entry list of this object.
    pub open spec fn entries_view(&self) -> Seq<(Seq<u8>, DynV)> {
        match self {
            Object::Mapping(p) => view_ent(p@),
            Object::DynamicObject(p) => view_ent(p@),
        }
    }

    /// Whether this object is the owned, writable variant.
    pub open spec fn is_writable(&self) -> bool {
        self is Mapping
    }

    /// Binds `key` to `value` in an owned mapping: an existing entry keeps
    /// its position and hands back its prior value, a new entry goes to the
    /// end. A host-backed object refuses with `ImmutableObject`.
    pub fn set(&mut self, key: Vec<u8>, value: Dynamic) -> (r: Result<
        Option<Dynamic>,
        DynamicError,
    >)
        ensures
            old(self).is_writable() ==> {
                &&& r matches Ok(prev) && view_opt(prev) == spec_lookup(
                    old(self).entries_view(),
                    key@,
                )
                &&& final(self).entries_view() == spec_ent_set(
                    old(self).entries_view(),
                    key@,
                    view_dyn(value),
                )
                &&& final(self).is_writable()
            },
            !old(self).is_writable() ==> (r matches Err(e) && e is ImmutableObject && *final(self)
                == *old(self)),
            old(self).is_writable() && unique_keys(old(self).entries_view()) ==> unique_keys(
                final(self).entries_view(),
            ),
    {
        proof {
            if old(self).is_writable() && unique_keys(old(self).entries_view()) {
                lemma_ent_set_unique(old(self).entries_view(), key@, view_dyn(value));
            }
        }
        match self {
            Object::Mapping(p) => {
                match find_entry(p, key.as_slice(), 0) {
                    Some(i) => {
                        let prev = copy_dynamic(&p[i].1);
                        let ghost old_ents = view_ent(p@);
                        p.set(i, (key, value));
                        proof {
                            assert(view_ent(p@) =~= old_ents.update(
                                i as int,
                                (key@, view_dyn(value)),
                            ));
                        }
                        Ok(Some(prev))
                    },
                    None => {
                        let ghost old_ents = view_ent(p@);
                        p.push((key, value));
                        proof {
                            assert(p@.drop_last() =~= old(self)->Mapping_0@);
                            assert(view_ent(p@) =~= old_ents.push((key@, view_dyn(value))));
                        }
                        Ok(None)
                    },
                }
            },
            Object::DynamicObject(_) => Err(DynamicError::ImmutableObject),
        }
    }

    /// Removes the entry of `key` from an owned mapping, handing back its
    /// value. A host-backed object refuses with `ImmutableObject`.
    pub fn remove(&mut self, key: &[u8]) -> (r: Result<Option<Dynamic>, DynamicError>)
        ensures
            old(self).is_writable() ==> {
                &&& r matches Ok(prev) && view_opt(prev) == spec_lookup(
                    old(self).entries_view(),
                    key@,
                )
                &&& final(self).entries_view() == spec_ent_remove(old(self).entries_view(), key@)
                &&& final(self).is_writable()
            },
            !old(self).is_writable() ==> (r matches Err(e) && e is ImmutableObject && *final(self)
                == *old(self)),
            old(self).is_writable() && unique_keys(old(self).entries_view()) ==> unique_keys(
                final(self).entries_view(),
            ) && spec_lookup(final(self).entries_view(), key@) is None,
            old(self).is_writable() && unique_keys(old(self).entries_view()) ==> forall|k2: Seq<u8>|
                k2 != key@ ==> #[trigger] spec_lookup(final(self).entries_view(), k2)
                    == spec_lookup(old(self).entries_view(), k2),
    {
        proof {
            if old(self).is_writable() && unique_keys(old(self).entries_view()) {
                lemma_ent_remove_unique(old(self).entries_view(), key@);
                assert forall|k2: Seq<u8>| k2 != key@ implies spec_lookup(
                    spec_ent_remove(old(self).entries_view(), key@),
                    k2,
                ) == spec_lookup(old(self).entries_view(), k2) by {
                    lemma_ent_remove_other(old(self).entries_view(), key@, k2);
                }
            }
        }
        match self {
            Object::Mapping(p) => {
                match find_entry(p, key, 0) {
                    Some(i) => {
                        let ghost old_ents = view_ent(p@);
                        let (_k, v) = p.remove(i);
                        proof {
                            assert(view_ent(p@) =~= old_ents.remove(i as int));
                        }
                        Ok(Some(v))
                    },
                    None => Ok(None),
                }
            },
            Object::DynamicObject(_) => Err(DynamicError::ImmutableObject),
        }
    }
}

/// The entry list after binding `key` to `value`: an existing entry is
/// replaced in place, otherwise the pair is appended.
pub open spec fn spec_ent_set(s: Seq<(Seq<u8>, DynV)>, key: Seq<u8>, value: DynV) -> Seq<
    (Seq<u8>, DynV),
> {
    match spec_find_entry(s, key, 0nat) {
        Some(i) => s.update(i, (key, value)),
        None => s.push((key, value)),
    }
}

/// The entry list after removing the entry of `key`, if present.
pub open spec fn spec_ent_remove(s: Seq<(Seq<u8>, DynV)>, key: Seq<u8>) -> Seq<(Seq<u8>, DynV)> {
    match spec_find_entry(s, key, 0nat) {
        Some(i) => s.remove(i),
        None => s,
    }
}

/// Whether the keys of an entry list are pairwise distinct. An owned mapping
/// built by this library's own operations always is; the predicate lets the
/// contracts of `set` and `remove` say what then holds.
pub open spec fn unique_keys(s: Seq<(Seq<u8>, DynV)>) -> bool {
    forall|a: int, b: int| 0 <= a < b < s.len() ==> s[a].0 != s[b].0
}

/// The search fails exactly when no entry from `j` on carries the key.
pub proof fn lemma_find_entry_none_char(s: Seq<(Seq<u8>, DynV)>, key: Seq<u8>, j: nat)
    ensures
        spec_find_entry(s, key, j) is None <==> (forall|k: int|
            j <= k < s.len() ==> s[k].0 != key),
    decreases s.len() - j,
{
    if j < s.len() {
        lemma_find_entry_none_char(s, key, (j + 1) as nat);
    }
}

/// Binding a key keeps the keys pairwise distinct.
pub proof fn lemma_ent_set_unique(s: Seq<(Seq<u8>, DynV)>, key: Seq<u8>, v: DynV)
    requires
        unique_keys(s),
    ensures
        unique_keys(spec_ent_set(s, key, v)),
{
    lemma_find_entry_found(s, key, 0nat);
    match spec_find_entry(s, key, 0nat) {
        Some(i) => {
            let r = s.update(i, (key, v));
            assert forall|x: int| 0 <= x < r.len() implies r[x].0 == s[x].0 by {
                if x == i {
                    assert(s[i].0 == key);
                }
            }
            assert(unique_keys(r));
        },
        None => {
            lemma_find_entry_none_char(s, key, 0nat);
            let r = s.push((key, v));
            assert forall|a: int, b: int| 0 <= a < b < r.len() implies r[a].0 != r[b].0 by {
                if b == s.len() as int {
                    assert(r[a].0 == s[a].0);
                    assert(r[b].0 == key);
                } else {
                    assert(r[a].0 == s[a].0);
                    assert(r[b].0 == s[b].0);
                }
            }
        },
    }
}

/// Under distinct keys, a key's binding is read off wherever its pair sits.
pub proof fn lemma_lookup_at_index(s: Seq<(Seq<u8>, DynV)>, key: Seq<u8>)
    requires
        unique_keys(s),
    ensures
        forall|j: int|
            0 <= j < s.len() && s[j].0 == key ==> spec_lookup(s, key) == Some(s[j].1),
{
    assert forall|j: int|
        0 <= j < s.len() && s[j].0 == key implies spec_lookup(s, key) == Some(s[j].1) by {
        lemma_find_entry_none_char(s, key, 0nat);
        lemma_find_entry_found(s, key, 0nat);
        match spec_find_entry(s, key, 0nat) {
            Some(i) => {
                if i != j {
                    if i < j {
                        assert(s[i].0 != s[j].0);
                    } else {
                        assert(s[j].0 != s[i].0);
                    }
                    assert(false);
                }
            },
            None => {
                assert(false);
            },
        }
    }
}

/// Under distinct keys, removing one key leaves every other key bound to
/// the value it had.
pub proof fn lemma_ent_remove_other(s: Seq<(Seq<u8>, DynV)>, key: Seq<u8>, k2: Seq<u8>)
    requires
        unique_keys(s),
        k2 != key,
    ensures
        spec_lookup(spec_ent_remove(s, key), k2) == spec_lookup(s, k2),
{
    lemma_find_entry_found(s, key, 0nat);
    lemma_ent_remove_unique(s, key);
    match spec_find_entry(s, key, 0nat) {
        None => {},
        Some(i) => {
            let r = s.remove(i);
            lemma_find_entry_found(s, k2, 0nat);
            match spec_find_entry(s, k2, 0nat) {
                None => {
                    lemma_find_entry_none_char(s, k2, 0nat);
                    assert forall|j2: int| 0 <= j2 < r.len() implies r[j2].0 != k2 by {
                        if j2 < i {
                            assert(r[j2] == s[j2]);
                        } else {
                            assert(r[j2] == s[j2 + 1]);
                        }
                    }
                    lemma_find_entry_none_char(r, k2, 0nat);
                },
                Some(j) => {
                    assert(s[j].0 == k2);
                    assert(j != i);
                    let j2: int = if j < i {
                        j
                    } else {
                        j - 1
                    };
                    assert(r[j2] == s[j]);
                    lemma_lookup_at_index(s, k2);
                    lemma_lookup_at_index(r, k2);
                },
            }
        },
    }
}

/// Under distinct keys, removal keeps them distinct and leaves the removed
/// key unbound.
pub proof fn lemma_ent_remove_unique(s: Seq<(Seq<u8>, DynV)>, key: Seq<u8>)
    requires
        unique_keys(s),
    ensures
        unique_keys(spec_ent_remove(s, key)),
        spec_lookup(spec_ent_remove(s, key), key) is None,
{
    lemma_find_entry_found(s, key, 0nat);
    match spec_find_entry(s, key, 0nat) {
        None => {
            lemma_find_entry_none_char(s, key, 0nat);
        },
        Some(i) => {
            let r = s.remove(i);
            assert forall|a: int, b: int| 0 <= a < b < r.len() implies r[a].0 != r[b].0 by {
                let a2: int = if a < i {
                    a
                } else {
                    a + 1
                };
                let b2: int = if b < i {
                    b
                } else {
                    b + 1
                };
                assert(r[a] == s[a2]);
                assert(r[b] == s[b2]);
            }
            assert forall|k2: int| 0 <= k2 < r.len() implies r[k2].0 != key by {
                let k3: int = if k2 < i {
                    k2
                } else {
                    k2 + 1
                };
                assert(r[k2] == s[k3]);
                if k3 < i {
                    assert(s[k3].0 != s[i].0);
                } else {
                    assert(s[i].0 != s[k3].0);
                }
            }
            lemma_find_entry_none_char(r, key, 0nat);
        },
    }
}

impl Dynamic {
    /// The rank of this value's variant in the cross-variant order.
    pub fn comparison_order(&self) -> (r: u8)
        ensures
            r as int == spec_rank(view_dyn(*self)),
    {
        match self {
            Dynamic::Null => 1,
            Dynamic::Number(_) => 2,
            Dynamic::String(_) => 3,
            Dynamic::Object(_) => 4,
            Dynamic::Array(_) => 5,
            Dynamic::Bool(_) => 6,
        }
    }

    pub fn is_null(&self) -> (r: bool)
        ensures
            r == (*self is Null),
    {
        matches!(self, Dynamic::Null)
    }

    pub fn is_bool(&self) -> (r: bool)
        ensures
            r == (*self is Bool),
    {
        matches!(self, Dynamic::Bool(_))
    }

    pub fn is_number(&self) -> (r: bool)
        ensures
            r == (*self is Number),
    {
        matches!(self, Dynamic::Number(_))
    }

    pub fn is_string(&self) -> (r: bool)
        ensures
            r == (*self is String),
    {
        matches!(self, Dynamic::String(_))
    }

    pub fn is_array(&self) -> (r: bool)
        ensures
            r == (*self is Array),
    {
        matches!(self, Dynamic::Array(_))
    }

    pub fn is_object(&self) -> (r: bool)
        ensures
            r == (*self is Object),
    {
        matches!(self, Dynamic::Object(_))
    }

    pub fn as_null(&self) -> (r: Option<()>)
        ensures
            r is Some <==> *self is Null,
    {
        if let Dynamic::Null = self {
            return Some(());
        }
        None
    }

    pub fn as_bool(&self) -> (r: Option<&bool>)
        ensures
            r matches Some(b) ==> *self matches Dynamic::Bool(x) && x == *b,
            r is Some <==> *self is Bool,
    {
        if let Dynamic::Bool(b) = self {
            return Some(b);
        }
        None
    }

    pub fn as_number(&self) -> (r: Option<&Number>)
        ensures
            r matches Some(n) ==> *self matches Dynamic::Number(x) && x == *n,
            r is Some <==> *self is Number,
    {
        if let Dynamic::Number(n) = self {
            return Some(n);
        }
        None
    }

    pub fn as_string(&self) -> (r: Option<&Vec<u8>>)
        ensures
            r matches Some(s) ==> view_dyn(*self) == DynV::String(s@),
            r is Some <==> *self is String,
    {
        if let Dynamic::String(s) = self {
            return Some(s);
        }
        None
    }

    pub fn as_array(&self) -> (r: Option<&Vec<Dynamic>>)
        ensures
            r matches Some(v) ==> view_dyn(*self) == DynV::Array(view_arr(v@)),
            r is Some <==> *self is Array,
    {
        if let Dynamic::Array(v) = self {
            return Some(v);
        }
        None
    }

    pub fn as_object(&self) -> (r: Option<&Object>)
        ensures
            r matches Some(o) ==> *self matches Dynamic::Object(x) && o == &x,
            r is Some <==> *self is Object,
    {
        if let Dynamic::Object(o) = self {
            return Some(o);
        }
        None
    }

    /// The entry list of an owned mapping; `None` for any other value,
    /// including a host-backed object.
    pub fn as_map(&self) -> (r: Option<&Vec<(Vec<u8>, Dynamic)>>)
        ensures
            r matches Some(p) ==> view_dyn(*self) == DynV::Mapping(view_ent(p@)),
            r is Some <==> *self matches Dynamic::Object(Object::Mapping(_)),
    {
        if let Dynamic::Object(Object::Mapping(p)) = self {
            return Some(p);
        }
        None
    }

    /// The value of field `key`, copied out, when this value is an object
    /// holding that field.
    pub fn get_object_field(&self, key: &[u8]) -> (r: Option<Dynamic>)
        ensures
            view_opt(r) == spec_get_field(view_dyn(*self), key@),
    {
        if let Dynamic::Object(o) = self {
            return o.get(key);
        }
        None
    }

    /// Binds `key` in an owned-mapping object; fails with `NotAnObject` on
    /// any non-object value and `ImmutableObject` on a host-backed one.
    pub fn set_object_field(&mut self, key: Vec<u8>, value: Dynamic) -> (r: Result<
        Option<Dynamic>,
        DynamicError,
    >)
        ensures
            !(*old(self) is Object) ==> (r matches Err(e) && e is NotAnObject && *final(self)
                == *old(self)),
            *old(self) matches Dynamic::Object(Object::DynamicObject(_)) ==> (r matches Err(e) && e
                is ImmutableObject && *final(self) == *old(self)),
            *old(self) matches Dynamic::Object(Object::Mapping(p)) ==> {
                &&& r matches Ok(prev) && view_opt(prev) == spec_lookup(view_ent(p@), key@)
                &&& view_dyn(*final(self)) == DynV::Mapping(
                    spec_ent_set(view_ent(p@), key@, view_dyn(value)),
                )
                &&& unique_keys(view_ent(p@)) ==> unique_keys(
                    spec_ent_set(view_ent(p@), key@, view_dyn(value)),
                )
            },
    {
        proof {
            match *old(self) {
                Dynamic::Object(Object::Mapping(p)) => {
                    if unique_keys(view_ent(p@)) {
                        lemma_ent_set_unique(view_ent(p@), key@, view_dyn(value));
                    }
                },
                _ => {},
            }
        }
        if let Dynamic::Object(o) = self {
            return o.set(key, value);
        }
        Err(DynamicError::NotAnObject)
    }

    /// Removes `key` from an owned-mapping object; fails with `NotAnObject`
    /// on any non-object value and `ImmutableObject` on a host-backed one.
    pub fn remove_object_field(&mut self, key: &[u8]) -> (r: Result<
        Option<Dynamic>,
        DynamicError,
    >)
        ensures
            !(*old(self) is Object) ==> (r matches Err(e) && e is NotAnObject && *final(self)
                == *old(self)),
            *old(self) matches Dynamic::Object(Object::DynamicObject(_)) ==> (r matches Err(e) && e
                is ImmutableObject && *final(self) == *old(self)),
            *old(self) matches Dynamic::Object(Object::Mapping(p)) ==> {
                &&& r matches Ok(prev) && view_opt(prev) == spec_lookup(view_ent(p@), key@)
                &&& view_dyn(*final(self)) == DynV::Mapping(
                    spec_ent_remove(view_ent(p@), key@),
                )
                &&& unique_keys(view_ent(p@)) ==> unique_keys(
                    spec_ent_remove(view_ent(p@), key@),
                ) && spec_lookup(spec_ent_remove(view_ent(p@), key@), key@) is None
                &&& unique_keys(view_ent(p@)) ==> forall|k2: Seq<u8>|
                    k2 != key@ ==> #[trigger] spec_lookup(spec_ent_remove(view_ent(p@), key@), k2)
                        == spec_lookup(view_ent(p@), k2)
            },
    {
        proof {
            match *old(self) {
                Dynamic::Object(Object::Mapping(p)) => {
                    if unique_keys(view_ent(p@)) {
                        lemma_ent_remove_unique(view_ent(p@), key@);
                        assert forall|k2: Seq<u8>| k2 != key@ implies spec_lookup(
                            spec_ent_remove(view_ent(p@), key@),
                            k2,
                        ) == spec_lookup(view_ent(p@), k2) by {
                            lemma_ent_remove_other(view_ent(p@), key@, k2);
                        }
                    }
                },
                _ => {},
            }
        }
        if let Dynamic::Object(o) = self {
            return o.remove(key);
        }
        Err(DynamicError::NotAnObject)
    }

    /// The element at `index`, copied out, when this value is an array long
    /// enough.
    pub fn get_array_item(&self, index: usize) -> (r: Option<Dynamic>)
        ensures
            view_opt(r) == spec_get_item(view_dyn(*self), index as int),
    {
        if let Dynamic::Array(v) = self {
            proof {
                lemma_view_arr_len(v@);
                if index < v@.len() {
                    lemma_view_arr_index(v@, index as int);
                }
            }
            if index < v.len() {
                return Some(copy_dynamic(&v[index]));
            }
        }
        None
    }

    /// Appends to an array value; fails with `NotAnArray` on anything else.
    pub fn push_array_item(&mut self, item: Dynamic) -> (r: Result<(), DynamicError>)
        ensures
            !(*old(self) is Array) ==> (r matches Err(e) && e is NotAnArray && *final(self)
                == *old(self)),
            *old(self) matches Dynamic::Array(v) ==> (r matches Ok(_) && view_dyn(*final(self))
                == DynV::Array(view_arr(v@).push(view_dyn(item)))),
    {
        if let Dynamic::Array(v) = self {
            let ghost old_view = view_arr(v@);
            v.push(item);
            proof {
                assert(v@.drop_last() =~= old(self)->Array_0@);
                assert(view_arr(v@) =~= old_view.push(view_dyn(item)));
            }
            return Ok(());
        }
        Err(DynamicError::NotAnArray)
    }
}

/// The value of field `key` of an object value, `None` elsewhere.
pub open spec fn spec_get_field(d: DynV, key: Seq<u8>) -> Option<DynV> {
    match d {
        DynV::Mapping(p) => spec_lookup(p, key),
        DynV::DynObj(p) => spec_lookup(p, key),
        _ => None,
    }
}

/// The element at `index` of an array value, `None` elsewhere or out of range.
pub open spec fn spec_get_item(d: DynV, index: int) -> Option<DynV> {
    match d {
        DynV::Array(s) => if 0 <= index < s.len() {
            Some(s[index])
        } else {
            None
        },
        _ => None,
    }
}

impl PartialEq for Number {
    fn eq(&self, other: &Number) -> (r: bool) {
        num_eq(self, other)
    }
}

impl vstd::std_specs::cmp::PartialEqSpecImpl for Number {
    open spec fn obeys_eq_spec() -> bool {
        true
    }

    open spec fn eq_spec(&self, other: &Number) -> bool {
        spec_num_eq(*self, *other)
    }
}

impl PartialOrd for Number {
    fn partial_cmp(&self, other: &Number) -> (r: Option<core::cmp::Ordering>) {
        num_cmp(self, other)
    }
}

impl vstd::std_specs::cmp::PartialOrdSpecImpl for Number {
    open spec fn obeys_partial_cmp_spec() -> bool {
        true
    }

    open spec fn partial_cmp_spec(&self, other: &Number) -> Option<core::cmp::Ordering> {
        spec_num_cmp(*self, *other)
    }
}

impl PartialEq for Object {
    fn eq(&self, other: &Object) -> (r: bool) {
        ent_eq(object_entries(self), object_entries(other), 0)
    }
}

impl vstd::std_specs::cmp::PartialEqSpecImpl for Object {
    open spec fn obeys_eq_spec() -> bool {
        true
    }

    open spec fn eq_spec(&self, other: &Object) -> bool {
        spec_ent_eq(self.entries_view(), other.entries_view(), 0nat)
    }
}

impl PartialOrd for Object {
    fn partial_cmp(&self, other: &Object) -> (r: Option<core::cmp::Ordering>) {
        ent_cmp(object_entries(self), object_entries(other), 0)
    }
}

impl vstd::std_specs::cmp::PartialOrdSpecImpl for Object {
    open spec fn obeys_partial_cmp_spec() -> bool {
        true
    }

    open spec fn partial_cmp_spec(&self, other: &Object) -> Option<core::cmp::Ordering> {
        spec_ent_cmp(self.entries_view(), other.entries_view(), 0nat)
    }
}

impl PartialEq for Dynamic {
    fn eq(&self, other: &Dynamic) -> (r: bool) {
        dyn_eq(self, other)
    }
}

impl vstd::std_specs::cmp::PartialEqSpecImpl for Dynamic {
    open spec fn obeys_eq_spec() -> bool {
        true
    }

    open spec fn eq_spec(&self, other: &Dynamic) -> bool {
        spec_dyn_eq(view_dyn(*self), view_dyn(*other))
    }
}

impl PartialOrd for Dynamic {
    fn partial_cmp(&self, other: &Dynamic) -> (r: Option<core::cmp::Ordering>) {
        dyn_cmp(self, other)
    }
}

impl vstd::std_specs::cmp::PartialOrdSpecImpl for Dynamic {
    open spec fn obeys_partial_cmp_spec() -> bool {
        true
    }

    open spec fn partial_cmp_spec(&self, other: &Dynamic) -> Option<core::cmp::Ordering> {
        spec_dyn_cmp(view_dyn(*self), view_dyn(*other))
    }
}


pub proof fn lemma_find_after_update(
    s: Seq<(Seq<u8>, DynV)>,
    i: int,
    v: DynV,
    key: Seq<u8>,
    j: nat,
)
    requires
        0 <= i < s.len(),
    ensures
        spec_find_entry(s.update(i, (s[i].0, v)), key, j) == spec_find_entry(s, key, j),
    decreases s.len() - j,
{
    if j < s.len() {
        lemma_find_after_update(s, i, v, key, (j + 1) as nat);
    }
}

pub proof fn lemma_find_after_push(
    s: Seq<(Seq<u8>, DynV)>,
    pair: (Seq<u8>, DynV),
    key: Seq<u8>,
    j: nat,
)
    requires
        j <= s.len(),
    ensures
        spec_find_entry(s, key, j) matches Some(i) ==> spec_find_entry(s.push(pair), key, j)
            == Some(i),
        spec_find_entry(s, key, j) is None && pair.0 == key ==> spec_find_entry(
            s.push(pair),
            key,
            j,
        ) == Some(s.len() as int),
        spec_find_entry(s, key, j) is None && pair.0 != key ==> spec_find_entry(
            s.push(pair),
            key,
            j,
        ) is None,
    decreases s.len() - j,
{
    if j < s.len() {
        lemma_find_after_push(s, pair, key, (j + 1) as nat);
    } else {
        assert(spec_find_entry(s.push(pair), key, (j + 1) as nat) is None);
    }
}

/// Binding a key never removes another: whatever was present stays present.
pub proof fn lemma_ent_set_preserves_keys(
    s: Seq<(Seq<u8>, DynV)>,
    key: Seq<u8>,
    k2: Seq<u8>,
    v: DynV,
)
    ensures
        spec_lookup(s, key) is Some ==> spec_lookup(spec_ent_set(s, k2, v), key) is Some,
        spec_lookup(spec_ent_set(s, k2, v), k2) == Some(v),
{
    lemma_find_entry_found(s, k2, 0nat);
    match spec_find_entry(s, k2, 0nat) {
        Some(i) => {
            assert(s[i].0 == k2);
            lemma_find_after_update(s, i, v, key, 0nat);
            lemma_find_after_update(s, i, v, k2, 0nat);
            lemma_find_entry_found(s.update(i, (s[i].0, v)), k2, 0nat);
        },
        None => {
            lemma_find_after_push(s, (k2, v), key, 0nat);
            lemma_find_after_push(s, (k2, v), k2, 0nat);
        },
    }
}

/// A found index lies in range, carries the key, and is the first match.
pub proof fn lemma_find_entry_found(s: Seq<(Seq<u8>, DynV)>, key: Seq<u8>, j: nat)
    ensures
        spec_find_entry(s, key, j) matches Some(i) ==> j <= i < s.len() && s[i].0 == key,
    decreases s.len() - j,
{
    if j < s.len() {
        lemma_find_entry_found(s, key, (j + 1) as nat);
    }
}

/// Rebinding a key to the value it already has leaves the entries unchanged;
/// so binding and then restoring the prior value is a round trip.
pub proof fn lemma_ent_set_restore(s: Seq<(Seq<u8>, DynV)>, key: Seq<u8>, vnew: DynV)
    requires
        spec_lookup(s, key) is Some,
    ensures
        spec_ent_set(spec_ent_set(s, key, vnew), key, spec_lookup(s, key)->Some_0) == s,
{
    let i = spec_find_entry(s, key, 0nat)->Some_0;
    lemma_find_entry_found(s, key, 0nat);
    let v0 = s[i].1;
    let s1 = s.update(i, (key, vnew));
    assert(s1 == spec_ent_set(s, key, vnew)) by {
        assert(s[i].0 == key);
        assert((s[i].0, vnew) == (key, vnew));
    }
    assert(s1[i].0 == key);
    lemma_find_after_update(s, i, vnew, key, 0nat);
    assert(spec_find_entry(s1, key, 0nat) == Some(i));
    assert(s1.update(i, (key, v0)) =~= s) by {
        assert((key, v0) == (s[i].0, s[i].1));
        assert(s[i] == (s[i].0, s[i].1));
    }
}

} // verus!
