//! Identities: module paths, symbol sites, and cache keys.
//!
//! A symbol is addressed by `(module path, file index, item index)`. The
//! compiled-function cache is keyed by a symbol site paired with the ordered
//! concrete argument types, so one source function compiled for different
//! argument types yields distinct cache entries.

use crate::types::Ty;
use vstd::prelude::*;

verus! {

/// An absolute module path, e.g. the segments of `std/string`.
pub type IdPath = Vec<String>;

/// Mathematical mirror of a module path.
pub type IdPathModel = Seq<Seq<char>>;

/// The identity of one declaration: its module, file, and item position.
#[derive(Debug)]
pub struct SymbolId {
    pub module: IdPath,
    pub file: usize,
    pub item: usize,
}

/// Mathematical mirror of `SymbolId`.
#[verifier::ext_equal]
pub struct SymbolIdModel {
    pub module: Seq<Seq<char>>,
    pub file: int,
    pub item: int,
}

pub open spec fn symbol_id_model(s: SymbolId) -> SymbolIdModel {
    SymbolIdModel { module: s.module.deep_view(), file: s.file as int, item: s.item as int }
}

/// A cache key: a definition site plus the concrete argument types.
#[derive(Debug)]
pub struct Ssid {
    pub sym: SymbolId,
    pub args: Vec<Ty>,
}

/// Mathematical mirror of `Ssid`.
#[verifier::ext_equal]
pub struct SsidModel {
    pub sym: SymbolIdModel,
    pub args: Seq<Ty>,
}

pub open spec fn ssid_model(s: Ssid) -> SsidModel {
    SsidModel { sym: symbol_id_model(s.sym), args: s.args@ }
}

/// Copies a module path.
pub fn clone_path(p: &IdPath) -> (r: IdPath)
    ensures
        r.deep_view() == p.deep_view(),
{
    let mut r: IdPath = Vec::new();
    let mut i: usize = 0;
    while i < p.len()
        invariant
            i <= p@.len(),
            r@.len() == i,
            forall|j: int| 0 <= j < i ==> r@[j]@ == p@[j]@,
        decreases p@.len() - i,
    {
        r.push(p[i].clone());
        i = i + 1;
    }
    proof {
        assert(r.deep_view() =~= p.deep_view());
    }
    r
}

/// Copies a list of type identifiers.
pub fn copy_tys(v: &Vec<Ty>) -> (r: Vec<Ty>)
    ensures
        r@ == v@,
{
    let mut r: Vec<Ty> = Vec::new();
    let mut i: usize = 0;
    while i < v.len()
        invariant
            i <= v@.len(),
            r@.len() == i,
            forall|j: int| 0 <= j < i ==> r@[j] == v@[j],
        decreases v@.len() - i,
    {
        r.push(v[i]);
        i = i + 1;
    }
    proof {
        assert(r@ =~= v@);
    }
    r
}

/// Path equality, character for character.
pub fn path_eq(a: &IdPath, b: &IdPath) -> (r: bool)
    ensures
        r == (a.deep_view() == b.deep_view()),
{
    if a.len() != b.len() {
        proof {
            assert(a.deep_view().len() != b.deep_view().len());
        }
        return false;
    }
    let mut i: usize = 0;
    while i < a.len()
        invariant
            a@.len() == b@.len(),
            i <= a@.len(),
            forall|j: int| 0 <= j < i ==> a@[j]@ == b@[j]@,
        decreases a@.len() - i,
    {
        if !(a[i] == b[i]) {
            proof {
                assert(a.deep_view()[i as int] != b.deep_view()[i as int]);
            }
            return false;
        }
        i = i + 1;
    }
    proof {
        assert(a.deep_view() =~= b.deep_view());
    }
    true
}

/// Type-list equality.
pub fn tys_eq(a: &Vec<Ty>, b: &Vec<Ty>) -> (r: bool)
    ensures
        r == (a@ == b@),
{
    if a.len() != b.len() {
        return false;
    }
    let mut i: usize = 0;
    while i < a.len()
        invariant
            a@.len() == b@.len(),
            i <= a@.len(),
            forall|j: int| 0 <= j < i ==> a@[j] == b@[j],
        decreases a@.len() - i,
    {
        if !(a[i] == b[i]) {
            return false;
        }
        i = i + 1;
    }
    proof {
        assert(a@ =~= b@);
    }
    true
}

/// Cache-key equality: both the definition site and the argument types.
pub fn ssid_eq(a: &Ssid, b: &Ssid) -> (r: bool)
    ensures
        r == (ssid_model(*a) == ssid_model(*b)),
{
    let r = path_eq(&a.sym.module, &b.sym.module) && a.sym.file == b.sym.file && a.sym.item
        == b.sym.item && tys_eq(&a.args, &b.args);
    proof {
        if r {
            assert(ssid_model(*a) =~= ssid_model(*b));
        }
    }
    r
}

/// Copies a cache key.
pub fn clone_ssid(s: &Ssid) -> (r: Ssid)
    ensures
        ssid_model(r) == ssid_model(*s),
{
    let r = Ssid {
        sym: SymbolId { module: clone_path(&s.sym.module), file: s.sym.file, item: s.sym.item },
        args: copy_tys(&s.args),
    };
    proof {
        assert(ssid_model(r) =~= ssid_model(*s));
    }
    r
}

} // verus!
