//! The rules for a timer's display targets as they arrive from a payload:
//! either a single legacy value or a list, with "none" meaning "no overlay"
//! and duplicates dropped.
use vstd::prelude::*;

use crate::types::TimerDisplayTarget;

verus! {

/// The targets kept from a list, in order: every target but `NoOverlay`, at
/// its first occurrence only.
pub open spec fn normalized_targets(s: Seq<TimerDisplayTarget>) -> Seq<TimerDisplayTarget>
    decreases s.len(),
{
    if s.len() == 0 {
        Seq::empty()
    } else {
        let prefix = normalized_targets(s.drop_last());
        let x = s.last();
        if x == TimerDisplayTarget::NoOverlay || prefix.contains(x) {
            prefix
        } else {
            prefix.push(x)
        }
    }
}

/// The targets a single legacy value stands for: none for `NoOverlay`,
/// otherwise that one target.
pub open spec fn single_targets(t: TimerDisplayTarget) -> Seq<TimerDisplayTarget> {
    if t == TimerDisplayTarget::NoOverlay {
        Seq::empty()
    } else {
        seq![t]
    }
}

/// Targets for a payload that gives a single value: an empty list for
/// "none", otherwise the one target.
pub fn display_targets_from_single(t: TimerDisplayTarget) -> (r: Vec<TimerDisplayTarget>)
    ensures
        r@ == single_targets(t),
{
    let mut v = Vec::new();
    match t {
        TimerDisplayTarget::NoOverlay => {},
        _ => v.push(t),
    }
    v
}

/// Targets for a payload that gives a list: `NoOverlay` entries are dropped
/// and each target is kept at its first occurrence.
pub fn display_targets_from_list(items: &Vec<TimerDisplayTarget>) -> (r: Vec<TimerDisplayTarget>)
    ensures
        r@ == normalized_targets(items@),
{
    let mut out: Vec<TimerDisplayTarget> = Vec::new();
    let n = items.len();
    let mut i: usize = 0;
    while i < n
        invariant
            n == items@.len(),
            i <= n,
            out@ == normalized_targets(items@.subrange(0, i as int)),
        decreases n - i,
    {
        let item = items[i];
        let ghost pre = items@.subrange(0, i as int);
        assert(items@.subrange(0, i + 1).drop_last() =~= pre);
        assert(items@.subrange(0, i + 1).last() == item);
        let keep = match item {
            TimerDisplayTarget::NoOverlay => false,
            _ => !contains_target(&out, item),
        };
        if keep {
            out.push(item);
        }
        i = i + 1;
    }
    assert(items@.subrange(0, n as int) =~= items@);
    out
}

/// Whether `t` occurs in `v`.
fn contains_target(v: &Vec<TimerDisplayTarget>, t: TimerDisplayTarget) -> (r: bool)
    ensures
        r == v@.contains(t),
{
    let n = v.len();
    let mut i: usize = 0;
    while i < n
        invariant
            n == v@.len(),
            i <= n,
            forall|j: int| 0 <= j < i ==> v@[j] != t,
        decreases n - i,
    {
        if v[i] == t {
            assert(v@[i as int] == t);
            return true;
        }
        i = i + 1;
    }
    false
}

/// The kept targets never include `NoOverlay`, never repeat, and are exactly
/// the targets other than `NoOverlay` that the list mentions.
pub proof fn lemma_normalized_targets(s: Seq<TimerDisplayTarget>)
    ensures
        !normalized_targets(s).contains(TimerDisplayTarget::NoOverlay),
        normalized_targets(s).no_duplicates(),
        forall|t: TimerDisplayTarget|
            normalized_targets(s).contains(t) <==> (s.contains(t) && t != TimerDisplayTarget::NoOverlay),
    decreases s.len(),
{
    if s.len() > 0 {
        let p = s.drop_last();
        lemma_normalized_targets(p);
        let x = s.last();
        assert(s =~= p.push(x));
        assert forall|t: TimerDisplayTarget| s.contains(t) <==> (p.contains(t) || t == x) by {
            if s.contains(t) {
                let k = choose|k: int| 0 <= k < s.len() && s[k] == t;
                if k < p.len() {
                    assert(p[k] == t);
                }
            }
            if p.contains(t) {
                let k = choose|k: int| 0 <= k < p.len() && p[k] == t;
                assert(s[k] == t);
            }
            if t == x {
                assert(s[s.len() - 1] == t);
            }
        }
        let prefix = normalized_targets(p);
        if !(x == TimerDisplayTarget::NoOverlay || prefix.contains(x)) {
            let r = prefix.push(x);
            assert forall|t: TimerDisplayTarget| r.contains(t) <==> (prefix.contains(t) || t == x) by {
                if r.contains(t) {
                    let k = choose|k: int| 0 <= k < r.len() && r[k] == t;
                    if k < prefix.len() {
                        assert(prefix[k] == t);
                    }
                }
                if prefix.contains(t) {
                    let k = choose|k: int| 0 <= k < prefix.len() && prefix[k] == t;
                    assert(r[k] == t);
                }
                if t == x {
                    assert(r[r.len() - 1] == t);
                }
            }
            assert forall|a: int, b: int| 0 <= a < b < r.len() implies r[a] != r[b] by {
                if b == r.len() - 1 {
                    assert(prefix.contains(r[a]));
                }
            }
        }
    }
}

/// Normalizing an already normalized list changes nothing.
pub proof fn lemma_normalized_targets_idempotent(s: Seq<TimerDisplayTarget>)
    ensures
        normalized_targets(normalized_targets(s)) == normalized_targets(s),
{
    lemma_normalized_targets(s);
    lemma_normalized_fixed_point(normalized_targets(s));
}

/// A list without `NoOverlay` and without repeats is kept as it is.
proof fn lemma_normalized_fixed_point(s: Seq<TimerDisplayTarget>)
    requires
        !s.contains(TimerDisplayTarget::NoOverlay),
        s.no_duplicates(),
    ensures
        normalized_targets(s) == s,
    decreases s.len(),
{
    if s.len() > 0 {
        let p = s.drop_last();
        assert(!p.contains(TimerDisplayTarget::NoOverlay)) by {
            if p.contains(TimerDisplayTarget::NoOverlay) {
                let k = choose|k: int| 0 <= k < p.len() && p[k] == TimerDisplayTarget::NoOverlay;
                assert(s[k] == TimerDisplayTarget::NoOverlay);
            }
        }
        assert(p.no_duplicates()) by {
            assert forall|a: int, b: int| 0 <= a < p.len() && 0 <= b < p.len() && a != b implies p[a] != p[b] by {
                assert(s[a] == p[a] && s[b] == p[b]);
            }
        }
        lemma_normalized_fixed_point(p);
        let x = s.last();
        assert(x != TimerDisplayTarget::NoOverlay) by {
            assert(s[s.len() - 1] == x);
        }
        assert(!p.contains(x)) by {
            if p.contains(x) {
                let k = choose|k: int| 0 <= k < p.len() && p[k] == x;
                assert(s[k] == s[s.len() - 1]);
            }
        }
        assert(s =~= p.push(x));
    }
}

} // verus!
