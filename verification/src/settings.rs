//! The ordered settings map a resolution builds up.
//!
//! Entries keep their insertion order; inserting under an existing key
//! replaces the value in place, so a later rule for the same setting
//! overwrites an earlier result without moving it.

use vstd::prelude::*;
use crate::values::SettingValue;
use crate::values::ValueModel;

verus! {

/// An ordered list of settings entries.
pub type EntryModel = Seq<(Seq<char>, ValueModel)>;

/// The value under `k` in `m`: the first matching entry's value.
pub open spec fn spec_lookup(m: EntryModel, k: Seq<char>) -> Option<ValueModel>
    decreases m.len(),
{
    if m.len() == 0 {
        None
    } else if m[0].0 == k {
        Some(m[0].1)
    } else {
        spec_lookup(m.drop_first(), k)
    }
}

/// Whether `m` holds an entry under `k`.
pub open spec fn spec_has_key(m: EntryModel, k: Seq<char>) -> bool {
    spec_lookup(m, k) is Some
}

/// `m` with `v` stored under `k`: the first entry under `k` is replaced in
/// place, and a fresh key goes to the end.
pub open spec fn spec_insert(m: EntryModel, k: Seq<char>, v: ValueModel) -> EntryModel
    decreases m.len(),
{
    if m.len() == 0 {
        seq![(k, v)]
    } else if m[0].0 == k {
        seq![(k, v)] + m.drop_first()
    } else {
        seq![m[0]] + spec_insert(m.drop_first(), k, v)
    }
}

/// Inserting under a fresh key appends the entry at the end.
pub proof fn lemma_insert_fresh(m: EntryModel, k: Seq<char>, v: ValueModel)
    requires
        forall|i: int| 0 <= i < m.len() ==> (#[trigger] m[i]).0 != k,
    ensures
        spec_insert(m, k, v) == m.push((k, v)),
    decreases m.len(),
{
    if m.len() == 0 {
        assert(spec_insert(m, k, v) =~= m.push((k, v)));
    } else {
        assert(forall|i: int|
            0 <= i < m.drop_first().len() ==> (#[trigger] m.drop_first()[i]).0 != k);
        lemma_insert_fresh(m.drop_first(), k, v);
        assert(seq![m[0]] + m.drop_first().push((k, v)) =~= m.push((k, v)));
    }
}

/// A settings map: setting name to resolved value, in insertion order.
#[derive(Debug, Clone)]
pub struct SettingsMap {
    entries: Vec<(String, SettingValue)>,
}

impl DeepView for SettingsMap {
    type V = EntryModel;

    closed spec fn deep_view(&self) -> EntryModel {
        self.entries.deep_view()
    }
}

impl SettingsMap {
    /// An empty settings map.
    pub fn new() -> (r: SettingsMap)
        ensures
            r.deep_view() == Seq::<(Seq<char>, ValueModel)>::empty(),
    {
        let r = SettingsMap { entries: Vec::new() };
        proof {
            assert(r.deep_view() =~= Seq::<(Seq<char>, ValueModel)>::empty());
        }
        r
    }

    /// How many entries the map holds.
    pub fn len(&self) -> (r: usize)
        ensures
            r == self.deep_view().len(),
    {
        self.entries.len()
    }

    /// The name of the entry at position `i`.
    pub fn key_at(&self, i: usize) -> (r: &String)
        requires
            i < self.deep_view().len(),
        ensures
            r@ == self.deep_view()[i as int].0,
    {
        &self.entries[i].0
    }

    /// The value of the entry at position `i`.
    pub fn value_at(&self, i: usize) -> (r: &SettingValue)
        requires
            i < self.deep_view().len(),
        ensures
            r.deep_view() == self.deep_view()[i as int].1,
    {
        &self.entries[i].1
    }

    /// Looks `k` up, exactly as [`spec_lookup`] states.
    pub fn get(&self, k: &String) -> (r: Option<&SettingValue>)
        ensures
            match r {
                Some(v) => spec_lookup(self.deep_view(), k@) == Some(v.deep_view()),
                None => spec_lookup(self.deep_view(), k@) is None,
            },
    {
        let ghost m = self.deep_view();
        proof {
            assert(m.skip(0) =~= m);
        }
        let mut i: usize = 0;
        while i < self.entries.len()
            invariant
                0 <= i <= self.entries@.len(),
                m == self.deep_view(),
                m.len() == self.entries@.len(),
                spec_lookup(m, k@) == spec_lookup(m.skip(i as int), k@),
            decreases self.entries@.len() - i,
        {
            proof {
                assert(m.skip(i as int).drop_first() =~= m.skip(i + 1));
                assert(m.skip(i as int)[0] == m[i as int]);
            }
            if self.entries[i].0 == *k {
                return Some(&self.entries[i].1);
            }
            i = i + 1;
        }
        proof {
            assert(m.skip(m.len() as int) =~= Seq::<(Seq<char>, ValueModel)>::empty());
        }
        None
    }

    /// Stores `v` under `k`, exactly as [`spec_insert`] states.
    pub fn insert(&mut self, k: String, v: SettingValue)
        ensures
            final(self).deep_view() == spec_insert(old(self).deep_view(), k@, v.deep_view()),
    {
        let ghost m = old(self).deep_view();
        proof {
            assert(m.skip(0) =~= m);
            assert(m.subrange(0, 0) + spec_insert(m.skip(0), k@, v.deep_view()) =~= spec_insert(
                m,
                k@,
                v.deep_view(),
            ));
        }
        let mut i: usize = 0;
        while i < self.entries.len()
            invariant
                0 <= i <= self.entries@.len(),
                self == old(self),
                m == self.deep_view(),
                m.len() == self.entries@.len(),
                forall|j: int| 0 <= j < i ==> #[trigger] m[j].0 != k@,
                spec_insert(m, k@, v.deep_view()) == m.subrange(0, i as int) + spec_insert(
                    m.skip(i as int),
                    k@,
                    v.deep_view(),
                ),
            decreases self.entries@.len() - i,
        {
            proof {
                assert(m.skip(i as int).drop_first() =~= m.skip(i + 1));
                assert(m.skip(i as int)[0] == m[i as int]);
            }
            if self.entries[i].0 == k {
                self.entries.set(i, (k, v));
                proof {
                    assert(self.deep_view() =~= m.subrange(0, i as int) + (seq![
                        (k@, v.deep_view()),
                    ] + m.skip(i + 1)));
                }
                return;
            }
            proof {
                assert(m.subrange(0, i as int).push(m[i as int]) =~= m.subrange(0, i + 1));
                assert(m.subrange(0, i as int) + (seq![m[i as int]] + spec_insert(
                    m.skip(i + 1),
                    k@,
                    v.deep_view(),
                )) =~= m.subrange(0, i + 1) + spec_insert(m.skip(i + 1), k@, v.deep_view()));
            }
            i = i + 1;
        }
        proof {
            assert(m.skip(m.len() as int) =~= Seq::<(Seq<char>, ValueModel)>::empty());
            assert(m.subrange(0, m.len() as int) =~= m);
        }
        self.entries.push((k, v));
        proof {
            assert(self.deep_view() =~= m + seq![(k@, v.deep_view())]);
        }
    }
}

} // verus!
