//! The memoizing compiled-function store.
//!
//! Entries are keyed by cache key (definition site plus argument types) and
//! addressed by index. An entry is first `Reserved` — an index exists, the
//! body is still being compiled, and recursive calls may already reference
//! the index — and later `Complete`. An index, once handed out, is never
//! reused for a different key, and the store only grows.

use crate::ids::{ssid_model, Ssid, SsidModel};
use crate::instr::{sexpr_model, SExprModel, StaticExpression};
use crate::types::Ty;
use vstd::prelude::*;

verus! {

/// One store entry: a reservation or a finished compiled function.
#[derive(Debug)]
pub enum FunctionInfo {
    /// Compilation of this key is in progress; `ret` is the declared return
    /// type, which a recursive reference reports.
    Reserved { ret: Ty },
    /// A finished function: argument types and the compiled body. Its result
    /// type is the body's type.
    Complete { args: Vec<Ty>, body: StaticExpression },
}

/// Mathematical mirror of `FunctionInfo`.
#[verifier::ext_equal]
pub enum InfoModel {
    Reserved { ret: Ty },
    Complete { args: Seq<Ty>, body: SExprModel },
}

pub open spec fn info_model(i: FunctionInfo) -> InfoModel {
    match i {
        FunctionInfo::Reserved { ret } => InfoModel::Reserved { ret },
        FunctionInfo::Complete { args, body } => InfoModel::Complete {
            args: args@,
            body: sexpr_model(body),
        },
    }
}

/// The store's abstract state: keyed entries in reservation order.
pub type StoreModel = Seq<(SsidModel, InfoModel)>;

/// Index of the first entry with the given key.
pub open spec fn store_find(m: StoreModel, k: SsidModel) -> Option<int>
    decreases m.len(),
{
    if m.len() == 0 {
        None
    } else if m[0].0 == k {
        Some(0)
    } else {
        match store_find(m.drop_first(), k) {
            Some(i) => Some(i + 1),
            None => None,
        }
    }
}

/// No two entries share a key.
pub open spec fn store_wf(m: StoreModel) -> bool {
    forall|i: int, j: int| 0 <= i < j < m.len() ==> m[i].0 != m[j].0
}

/// What `store_find` returns: the first, in-bounds match, or none at all.
pub proof fn lemma_store_find_props(m: StoreModel, k: SsidModel)
    ensures
        match store_find(m, k) {
            Some(i) => 0 <= i < m.len() && m[i].0 == k && forall|j: int|
                0 <= j < i ==> m[j].0 != k,
            None => forall|j: int| 0 <= j < m.len() ==> m[j].0 != k,
        },
    decreases m.len(),
{
    if m.len() > 0 && m[0].0 != k {
        lemma_store_find_props(m.drop_first(), k);
        assert forall|j: int| 1 <= j < m.len() implies m.drop_first()[j - 1] == m[j] by {}
    }
}

/// Finding a key whose earlier entries all differ.
pub proof fn lemma_store_find_at(m: StoreModel, k: SsidModel, i: int)
    requires
        0 <= i < m.len(),
        m[i].0 == k,
        forall|j: int| 0 <= j < i ==> m[j].0 != k,
    ensures
        store_find(m, k) == Some(i),
    decreases i,
{
    if i > 0 {
        lemma_store_find_at(m.drop_first(), k, i - 1);
    }
}

/// A key that no entry holds is not found.
pub proof fn lemma_store_find_none(m: StoreModel, k: SsidModel)
    requires
        forall|j: int| 0 <= j < m.len() ==> m[j].0 != k,
    ensures
        store_find(m, k) is None,
    decreases m.len(),
{
    if m.len() > 0 {
        lemma_store_find_none(m.drop_first(), k);
    }
}

/// The memoizing table of compiled functions.
#[derive(Debug)]
pub struct FunctionStore {
    entries: Vec<(Ssid, FunctionInfo)>,
}

impl FunctionStore {
    /// The keyed entries, in reservation order.
    pub closed spec fn model(&self) -> StoreModel {
        Seq::new(
            self.entries@.len(),
            |i: int| (ssid_model(self.entries@[i].0), info_model(self.entries@[i].1)),
        )
    }

    /// Creates an empty store.
    pub fn new() -> (s: FunctionStore)
        ensures
            s.model() == Seq::<(SsidModel, InfoModel)>::empty(),
    {
        let s = FunctionStore { entries: Vec::new() };
        proof {
            assert(s.model() =~= Seq::<(SsidModel, InfoModel)>::empty());
        }
        s
    }

    /// The number of entries.
    pub fn len(&self) -> (n: usize)
        ensures
            n == self.model().len(),
    {
        self.entries.len()
    }

    /// Read-only lookup by cache key: the index and entry of the key, if it
    /// has one.
    pub fn get_by_key(&self, k: &Ssid) -> (r: Option<(usize, &FunctionInfo)>)
        ensures
            match r {
                Some((i, info)) => store_find(self.model(), ssid_model(*k)) == Some(i as int)
                    && info_model(*info) == self.model()[i as int].1,
                None => store_find(self.model(), ssid_model(*k)) is None,
            },
    {
        let mut i: usize = 0;
        while i < self.entries.len()
            invariant
                i <= self.model().len(),
                forall|j: int| 0 <= j < i ==> self.model()[j].0 != ssid_model(*k),
            decreases self.model().len() - i,
        {
            if crate::ids::ssid_eq(&self.entries[i].0, k) {
                proof {
                    lemma_store_find_at(self.model(), ssid_model(*k), i as int);
                }
                return Some((i, &self.entries[i].1));
            }
            i = i + 1;
        }
        proof {
            lemma_store_find_none(self.model(), ssid_model(*k));
        }
        None
    }

    /// Allocates a fresh index for a key not yet present and marks it
    /// reserved, recording the declared return type.
    pub fn reserve(&mut self, k: Ssid, ret: Ty) -> (i: usize)
        requires
            store_find(old(self).model(), ssid_model(k)) is None,
        ensures
            final(self).model() == old(self).model().push((ssid_model(k), InfoModel::Reserved { ret })),
            i == old(self).model().len(),
    {
        let i = self.entries.len();
        self.entries.push((k, FunctionInfo::Reserved { ret }));
        proof {
            assert(self.model() =~= old(self).model().push(
                (ssid_model(k), InfoModel::Reserved { ret }),
            ));
        }
        i
    }

    /// Transitions a reserved entry to complete. Completing an entry that is
    /// not reserved is a caller bug and is ruled out here.
    pub fn update_complete(&mut self, i: usize, args: Vec<Ty>, body: StaticExpression)
        requires
            i < old(self).model().len(),
            old(self).model()[i as int].1 is Reserved,
        ensures
            final(self).model() == old(self).model().update(
                i as int,
                (old(self).model()[i as int].0, InfoModel::Complete {
                    args: args@,
                    body: sexpr_model(body),
                }),
            ),
    {
        let ghost key = self.entries@[i as int].0;
        let k = crate::ids::clone_ssid(&self.entries[i].0);
        self.entries.set(i, (k, FunctionInfo::Complete { args, body }));
        proof {
            assert(self.model() =~= old(self).model().update(
                i as int,
                (old(self).model()[i as int].0, InfoModel::Complete {
                    args: args@,
                    body: sexpr_model(body),
                }),
            ));
        }
    }

    /// The compiled body stored at an index, when that entry is complete.
    pub fn body_at(&self, i: usize) -> (r: Option<&StaticExpression>)
        ensures
            match r {
                Some(b) => i < self.model().len() && self.model()[i as int].1 is Complete
                    && sexpr_model(*b) == self.model()[i as int].1->Complete_body,
                None => !(i < self.model().len() && self.model()[i as int].1 is Complete),
            },
    {
        if i < self.entries.len() {
            match &self.entries[i].1 {
                FunctionInfo::Complete { args: _, body } => Some(body),
                FunctionInfo::Reserved { .. } => None,
            }
        } else {
            None
        }
    }
}

} // verus!
