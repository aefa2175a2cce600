//! Association lists over `Vec<(u64, V)>`, keyed by the first component,
//! and membership helpers for plain `Vec<u64>` lists.
//!
//! The room keeps its small per-room directories in these lists: they keep
//! insertion order, which makes event fan-out deterministic, and removal
//! restores the exact previous state, which the join/leave round-trip law
//! depends on.

use vstd::prelude::*;

verus! {

/// Index of the first entry with key `k`, or -1.
pub open spec fn afind<V>(s: Seq<(u64, V)>, k: u64) -> int
    decreases s.len(),
{
    if s.len() == 0 {
        -1
    } else if s[0].0 == k {
        0
    } else {
        let r = afind(s.subrange(1, s.len() as int), k);
        if r == -1 {
            -1
        } else {
            r + 1
        }
    }
}

/// Whether some entry has key `k`.
pub open spec fn acontains<V>(s: Seq<(u64, V)>, k: u64) -> bool {
    exists|i: int| 0 <= i < s.len() && s[i].0 == k
}

/// The list with the first entry keyed `k` removed (unchanged when there is
/// none).
pub open spec fn aremove<V>(s: Seq<(u64, V)>, k: u64) -> Seq<(u64, V)> {
    if acontains(s, k) {
        s.remove(afind(s, k))
    } else {
        s
    }
}

/// `afind` finds the first entry with the key, and only fails when no entry
/// has it.
pub proof fn lemma_afind<V>(s: Seq<(u64, V)>, k: u64)
    ensures
        acontains(s, k) ==> {
            &&& 0 <= afind(s, k) < s.len()
            &&& s[afind(s, k)].0 == k
            &&& forall|j: int| 0 <= j < afind(s, k) ==> s[j].0 != k
        },
        !acontains(s, k) ==> afind(s, k) == -1,
    decreases s.len(),
{
    if s.len() == 0 {
    } else if s[0].0 == k {
    } else {
        let tail = s.subrange(1, s.len() as int);
        lemma_afind(tail, k);
        if acontains(s, k) {
            let w = choose|w: int| 0 <= w < s.len() && s[w].0 == k;
            assert(w != 0);
            assert(tail[w - 1].0 == k);
            assert(acontains(tail, k));
        }
        if acontains(tail, k) {
            let f = afind(tail, k);
            assert(s[f + 1] == tail[f]);
            assert(acontains(s, k)) by {
                assert(s[f + 1].0 == k);
            }
            assert(afind(s, k) == f + 1);
            assert forall|j: int| 0 <= j < f + 1 implies s[j].0 != k by {
                if j > 0 {
                    assert(tail[j - 1].0 != k);
                    assert(s[j] == tail[j - 1]);
                }
            }
        }
    }
}

/// Removing a key that was just pushed onto a list without it restores the
/// list.
pub proof fn lemma_push_remove_restores<V>(s: Seq<(u64, V)>, k: u64, v: V)
    requires
        !acontains(s, k),
    ensures
        aremove(s.push((k, v)), k) == s,
{
    let s2 = s.push((k, v));
    assert(s2[s.len() as int].0 == k);
    assert(acontains(s2, k));
    lemma_afind(s2, k);
    let f = afind(s2, k);
    assert(f == s.len()) by {
        if f < s.len() {
            assert(s2[f] == s[f]);
            assert(s[f].0 == k);
            assert(acontains(s, k));
        }
    }
    assert(s2.remove(f) =~= s);
}

/// Looks up the first entry with key `k`.
pub fn afind_idx<V>(v: &Vec<(u64, V)>, k: u64) -> (r: Option<usize>)
    ensures
        match r {
            Some(i) => acontains(v@, k) && i as int == afind(v@, k) && i < v@.len()
                && v@[i as int].0 == k,
            None => !acontains(v@, k),
        },
{
    proof {
        lemma_afind(v@, k);
    }
    let mut i: usize = 0;
    while i < v.len()
        invariant
            i <= v@.len(),
            forall|j: int| 0 <= j < i ==> v@[j].0 != k,
            acontains(v@, k) ==> {
                &&& 0 <= afind(v@, k) < v@.len()
                &&& v@[afind(v@, k)].0 == k
                &&& forall|j: int| 0 <= j < afind(v@, k) ==> v@[j].0 != k
            },
        decreases v@.len() - i,
    {
        if v[i].0 == k {
            proof {
                assert(acontains(v@, k)) by {
                    assert(v@[i as int].0 == k);
                }
                assert(i as int == afind(v@, k)) by {
                    if (i as int) < afind(v@, k) {
                        assert(v@[i as int].0 != k);
                    }
                    if afind(v@, k) < i as int {
                        assert(v@[afind(v@, k)].0 != k);
                    }
                }
            }
            return Some(i);
        }
        i = i + 1;
    }
    proof {
        if acontains(v@, k) {
            assert(v@[afind(v@, k)].0 != k);
        }
    }
    None
}

/// Removes the first entry with key `k`, returning its value.
pub fn aremove_key<V>(v: &mut Vec<(u64, V)>, k: u64) -> (r: Option<V>)
    ensures
        final(v)@ == aremove(old(v)@, k),
        match r {
            Some(e) => acontains(old(v)@, k) && e == old(v)@[afind(old(v)@, k)].1,
            None => !acontains(old(v)@, k),
        },
{
    match afind_idx(v, k) {
        Some(i) => {
            let e = v.remove(i);
            Some(e.1)
        },
        None => None,
    }
}


/// Index of the first entry keyed by the pair `k`, or -1.
pub open spec fn pfind<V>(s: Seq<((u64, u64), V)>, k: (u64, u64)) -> int
    decreases s.len(),
{
    if s.len() == 0 {
        -1
    } else if s[0].0 == k {
        0
    } else {
        let r = pfind(s.subrange(1, s.len() as int), k);
        if r == -1 {
            -1
        } else {
            r + 1
        }
    }
}

/// Whether some entry has the pair key `k`.
pub open spec fn pcontains<V>(s: Seq<((u64, u64), V)>, k: (u64, u64)) -> bool {
    exists|i: int| 0 <= i < s.len() && s[i].0 == k
}

/// The list with the first entry keyed `k` removed (unchanged when there is
/// none).
pub open spec fn premove<V>(s: Seq<((u64, u64), V)>, k: (u64, u64)) -> Seq<((u64, u64), V)> {
    if pcontains(s, k) {
        s.remove(pfind(s, k))
    } else {
        s
    }
}

/// `pfind` finds the first entry with the key, and only fails when no
/// entry has it.
pub proof fn lemma_pfind<V>(s: Seq<((u64, u64), V)>, k: (u64, u64))
    ensures
        pcontains(s, k) ==> {
            &&& 0 <= pfind(s, k) < s.len()
            &&& s[pfind(s, k)].0 == k
            &&& forall|j: int| 0 <= j < pfind(s, k) ==> s[j].0 != k
        },
        !pcontains(s, k) ==> pfind(s, k) == -1,
    decreases s.len(),
{
    if s.len() == 0 {
    } else if s[0].0 == k {
    } else {
        let tail = s.subrange(1, s.len() as int);
        lemma_pfind(tail, k);
        if pcontains(s, k) {
            let w = choose|w: int| 0 <= w < s.len() && s[w].0 == k;
            assert(w != 0);
            assert(tail[w - 1].0 == k);
            assert(pcontains(tail, k));
        }
        if pcontains(tail, k) {
            let f = pfind(tail, k);
            assert(s[f + 1] == tail[f]);
            assert(pcontains(s, k)) by {
                assert(s[f + 1].0 == k);
            }
            assert(pfind(s, k) == f + 1);
            assert forall|j: int| 0 <= j < f + 1 implies s[j].0 != k by {
                if j > 0 {
                    assert(tail[j - 1].0 != k);
                    assert(s[j] == tail[j - 1]);
                }
            }
        }
    }
}

/// Looks up the first entry with pair key `k`.
pub fn pfind_idx<V>(v: &Vec<((u64, u64), V)>, k: (u64, u64)) -> (r: Option<usize>)
    ensures
        match r {
            Some(i) => pcontains(v@, k) && i as int == pfind(v@, k) && i < v@.len()
                && v@[i as int].0 == k,
            None => !pcontains(v@, k),
        },
{
    proof {
        lemma_pfind(v@, k);
    }
    let mut i: usize = 0;
    while i < v.len()
        invariant
            i <= v@.len(),
            forall|j: int| 0 <= j < i ==> v@[j].0 != k,
            pcontains(v@, k) ==> {
                &&& 0 <= pfind(v@, k) < v@.len()
                &&& v@[pfind(v@, k)].0 == k
                &&& forall|j: int| 0 <= j < pfind(v@, k) ==> v@[j].0 != k
            },
        decreases v@.len() - i,
    {
        let e = v[i].0;
        if e.0 == k.0 && e.1 == k.1 {
            proof {
                assert(v@[i as int].0 == k);
                assert(pcontains(v@, k));
                assert(i as int == pfind(v@, k)) by {
                    if (i as int) < pfind(v@, k) {
                        assert(v@[i as int].0 != k);
                    }
                    if pfind(v@, k) < i as int {
                        assert(v@[pfind(v@, k)].0 != k);
                    }
                }
            }
            return Some(i);
        }
        i = i + 1;
    }
    proof {
        if pcontains(v@, k) {
            assert(v@[pfind(v@, k)].0 != k);
        }
    }
    None
}

/// Index of `k` in a plain list, or -1.
pub open spec fn lfind(s: Seq<u64>, k: u64) -> int
    decreases s.len(),
{
    if s.len() == 0 {
        -1
    } else if s[0] == k {
        0
    } else {
        let r = lfind(s.subrange(1, s.len() as int), k);
        if r == -1 {
            -1
        } else {
            r + 1
        }
    }
}

/// The list with the first occurrence of `k` removed.
pub open spec fn lremove(s: Seq<u64>, k: u64) -> Seq<u64> {
    if s.contains(k) {
        s.remove(lfind(s, k))
    } else {
        s
    }
}

/// `lfind` finds the first occurrence, and only fails when the value is
/// absent.
pub proof fn lemma_lfind(s: Seq<u64>, k: u64)
    ensures
        s.contains(k) ==> {
            &&& 0 <= lfind(s, k) < s.len()
            &&& s[lfind(s, k)] == k
            &&& forall|j: int| 0 <= j < lfind(s, k) ==> s[j] != k
        },
        !s.contains(k) ==> lfind(s, k) == -1,
    decreases s.len(),
{
    if s.len() == 0 {
    } else if s[0] == k {
    } else {
        let tail = s.subrange(1, s.len() as int);
        lemma_lfind(tail, k);
        if s.contains(k) {
            let w = choose|w: int| 0 <= w < s.len() && s[w] == k;
            assert(w != 0);
            assert(tail[w - 1] == k);
            assert(tail.contains(k));
        }
        if tail.contains(k) {
            let f = lfind(tail, k);
            assert(s[f + 1] == tail[f]);
            assert(s.contains(k)) by {
                assert(s[f + 1] == k);
            }
            assert(lfind(s, k) == f + 1);
            assert forall|j: int| 0 <= j < f + 1 implies s[j] != k by {
                if j > 0 {
                    assert(tail[j - 1] != k);
                    assert(s[j] == tail[j - 1]);
                }
            }
        }
    }
}

/// Removing a value that was just pushed onto a list without it restores
/// the list.
pub proof fn lemma_lpush_remove_restores(s: Seq<u64>, k: u64)
    requires
        !s.contains(k),
    ensures
        lremove(s.push(k), k) == s,
{
    let s2 = s.push(k);
    assert(s2[s.len() as int] == k);
    assert(s2.contains(k));
    lemma_lfind(s2, k);
    let f = lfind(s2, k);
    assert(f == s.len()) by {
        if f < s.len() {
            assert(s2[f] == s[f]);
            assert(s.contains(k)) by {
                assert(s[f] == k);
            }
        }
    }
    assert(s2.remove(f) =~= s);
}

/// Whether `k` occurs in the list.
pub fn lcontains(v: &Vec<u64>, k: u64) -> (r: bool)
    ensures
        r == v@.contains(k),
{
    proof {
        lemma_lfind(v@, k);
    }
    let mut i: usize = 0;
    while i < v.len()
        invariant
            i <= v@.len(),
            forall|j: int| 0 <= j < i ==> v@[j] != k,
        decreases v@.len() - i,
    {
        if v[i] == k {
            proof {
                assert(v@[i as int] == k);
            }
            return true;
        }
        i = i + 1;
    }
    proof {
        if v@.contains(k) {
            let w = choose|w: int| 0 <= w < v@.len() && v@[w] == k;
            assert(v@[w] != k);
        }
    }
    false
}

/// Removes the first occurrence of `k`, reporting whether one was there.
pub fn lremove_val(v: &mut Vec<u64>, k: u64) -> (r: bool)
    ensures
        final(v)@ == lremove(old(v)@, k),
        r == old(v)@.contains(k),
{
    proof {
        lemma_lfind(v@, k);
    }
    let mut i: usize = 0;
    while i < v.len()
        invariant
            i <= v@.len(),
            v@ == old(v)@,
            forall|j: int| 0 <= j < i ==> v@[j] != k,
            old(v)@.contains(k) ==> {
                &&& 0 <= lfind(old(v)@, k) < old(v)@.len()
                &&& old(v)@[lfind(old(v)@, k)] == k
                &&& forall|j: int| 0 <= j < lfind(old(v)@, k) ==> old(v)@[j] != k
            },
        decreases v@.len() - i,
    {
        if v[i] == k {
            proof {
                assert(old(v)@.contains(k)) by {
                    assert(old(v)@[i as int] == k);
                }
                assert(i as int == lfind(old(v)@, k)) by {
                    if (i as int) < lfind(old(v)@, k) {
                        assert(old(v)@[i as int] != k);
                    }
                    if lfind(old(v)@, k) < i as int {
                        assert(old(v)@[lfind(old(v)@, k)] != k);
                    }
                }
            }
            v.remove(i);
            return true;
        }
        i = i + 1;
    }
    proof {
        if old(v)@.contains(k) {
            assert(old(v)@[lfind(old(v)@, k)] != k);
        }
    }
    false
}

} // verus!
