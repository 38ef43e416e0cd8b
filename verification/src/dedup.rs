//! Deduplication of recorded highlights and their ordering by tick.

use std::collections::HashSet;

use vstd::prelude::*;

use crate::highlight::{Highlight, HighlightKind};

verus! {

broadcast use vstd::std_specs::hash::group_hash_axioms;

/// A lethal airshot: the killing blow of an airshot.
pub open spec fn is_lethal_airshot(h: Highlight) -> bool {
    h.lethal && h.kind == HighlightKind::Airshot
}

/// A non-lethal airshot: a hit that did not kill.
pub open spec fn is_non_lethal_airshot(h: Highlight) -> bool {
    !h.lethal && h.kind == HighlightKind::Airshot
}

/// `s` holds a lethal airshot at `tick` on the victim with id `victim`.
pub open spec fn has_lethal_airshot_at(s: Seq<Highlight>, tick: u32, victim: u16) -> bool {
    exists|j: int|
        0 <= j < s.len() && #[trigger] is_lethal_airshot(s[j]) && s[j].tick == tick
            && s[j].victim_user_id == victim
}

/// `h` is a non-lethal airshot for which `s` holds the lethal airshot of the
/// same victim at the same tick.
pub open spec fn is_shadowed(s: Seq<Highlight>, h: Highlight) -> bool {
    is_non_lethal_airshot(h) && has_lethal_airshot_at(s, h.tick, h.victim_user_id)
}

/// Whether a highlight of `s` is kept by deduplication.
pub open spec fn survives(s: Seq<Highlight>) -> spec_fn(Highlight) -> bool {
    |h: Highlight| !is_shadowed(s, h)
}

/// Whether a highlight lies at tick `t`.
pub open spec fn at_tick(t: u32) -> spec_fn(Highlight) -> bool {
    |h: Highlight| h.tick == t
}

pub open spec fn sorted_by_tick(s: Seq<Highlight>) -> bool {
    forall|i: int, j: int| 0 <= i <= j < s.len() ==> #[trigger] s[i].tick <= #[trigger] s[j].tick
}

/// `out` is `inp` sorted by tick, where highlights of equal tick keep their
/// order: sorted, and holding at each tick the highlights of `inp` at that
/// tick, in the order of `inp`.
pub open spec fn is_stable_tick_sort_of(out: Seq<Highlight>, inp: Seq<Highlight>) -> bool {
    &&& sorted_by_tick(out)
    &&& forall|t: u32| #[trigger] out.filter(at_tick(t)) == inp.filter(at_tick(t))
}

/// `out` is what deduplication makes of `inp`: the highlights of `inp` that
/// are not shadowed by a lethal airshot, stably sorted by tick.
pub open spec fn is_deduplication_of(out: Seq<Highlight>, inp: Seq<Highlight>) -> bool {
    is_stable_tick_sort_of(out, inp.filter(survives(inp)))
}

proof fn lemma_filter_none(s: Seq<Highlight>, p: spec_fn(Highlight) -> bool)
    requires
        forall|i: int| 0 <= i < s.len() ==> !p(#[trigger] s[i]),
    ensures
        s.filter(p) == Seq::<Highlight>::empty(),
    decreases s.len(),
{
    reveal(Seq::filter);
    if s.len() > 0 {
        lemma_filter_none(s.drop_last(), p);
    }
    assert(s.filter(p) =~= Seq::<Highlight>::empty());
}

/// The key under which a lethal airshot at `tick` on `victim` is remembered.
pub open spec fn lethal_key(tick: u32, victim: u16) -> int {
    tick as int * 65536 + victim as int
}

proof fn lemma_lethal_key_injective(t1: u32, u1: u16, t2: u32, u2: u16)
    requires
        lethal_key(t1, u1) == lethal_key(t2, u2),
    ensures
        t1 == t2 && u1 == u2,
{
    if t1 < t2 {
        assert(lethal_key(t1, u1) < lethal_key(t2, u2));
    } else if t1 > t2 {
        assert(lethal_key(t1, u1) > lethal_key(t2, u2));
    }
}

fn key_of(tick: u32, victim: u16) -> (k: u64)
    ensures
        k as int == lethal_key(tick, victim),
{
    tick as u64 * 65536 + victim as u64
}

/// The keys of the lethal airshots in `hs`.
fn lethal_airshot_keys(hs: &Vec<Highlight>) -> (keys: HashSet<u64>)
    ensures
        forall|t: u32, u: u16| #[trigger]
            keys@.contains(lethal_key(t, u) as u64) <==> has_lethal_airshot_at(hs@, t, u),
{
    let mut keys: HashSet<u64> = HashSet::new();
    let mut i: usize = 0;
    while i < hs.len()
        invariant
            i <= hs.len(),
            forall|t: u32, u: u16| #[trigger]
                keys@.contains(lethal_key(t, u) as u64) <==> has_lethal_airshot_at(
                    hs@.take(i as int),
                    t,
                    u,
                ),
        decreases hs.len() - i,
    {
        let h = &hs[i];
        let lethal_airshot = h.lethal && match h.kind {
            HighlightKind::Airshot => true,
            HighlightKind::Headshot => false,
        };
        let ghost old_keys = keys@;
        if lethal_airshot {
            let k = key_of(h.tick, h.victim_user_id);
            keys.insert(k);
        }
        proof {
            let pre = hs@.take(i as int);
            let post = hs@.take(i + 1);
            assert forall|t: u32, u: u16| #[trigger]
                keys@.contains(lethal_key(t, u) as u64) <==> has_lethal_airshot_at(post, t, u) by {
                let hit = lethal_airshot && t == h.tick && u == h.victim_user_id;
                if lethal_airshot && lethal_key(t, u) as u64 == lethal_key(h.tick, h.victim_user_id) as u64 {
                    lemma_lethal_key_injective(t, u, h.tick, h.victim_user_id);
                }
                if has_lethal_airshot_at(pre, t, u) {
                    let j = choose|j: int|
                        0 <= j < pre.len() && #[trigger] is_lethal_airshot(pre[j]) && pre[j].tick
                            == t && pre[j].victim_user_id == u;
                    assert(post[j] == pre[j]);
                }
                if has_lethal_airshot_at(post, t, u) && !hit {
                    let j = choose|j: int|
                        0 <= j < post.len() && #[trigger] is_lethal_airshot(post[j])
                            && post[j].tick == t && post[j].victim_user_id == u;
                    if j == i {
                        assert(post[j] == hs@[i as int]);
                    }
                    assert(pre[j] == post[j]);
                }
                if hit {
                    assert(post[i as int] == hs@[i as int]);
                    assert(is_lethal_airshot(post[i as int]));
                }
            }
        }
        i = i + 1;
    }
    assert(hs@.take(hs.len() as int) =~= hs@);
    keys
}

/// The elements of `v` in reverse order.
fn reversed(v: Vec<Highlight>) -> (r: Vec<Highlight>)
    ensures
        r@.len() == v@.len(),
        forall|k: int| 0 <= k < r@.len() ==> #[trigger] r@[k] == v@[v@.len() - 1 - k],
{
    let ghost orig = v@;
    let mut v = v;
    let mut r: Vec<Highlight> = Vec::new();
    while v.len() > 0
        invariant
            v.len() <= orig.len(),
            v@ == orig.take(v.len() as int),
            r@.len() == orig.len() - v.len(),
            forall|k: int| 0 <= k < r@.len() ==> #[trigger] r@[k] == orig[orig.len() - 1 - k],
        decreases v.len(),
    {
        let x = v.pop().unwrap();
        r.push(x);
        assert(v@ =~= orig.take(v.len() as int));
    }
    r
}

/// Merges two tick-sorted sequences into one; at equal ticks the highlights
/// of `a` come before those of `b`.
fn merge(a: Vec<Highlight>, b: Vec<Highlight>) -> (out: Vec<Highlight>)
    requires
        sorted_by_tick(a@),
        sorted_by_tick(b@),
    ensures
        sorted_by_tick(out@),
        out@.len() == a@.len() + b@.len(),
        forall|t: u32| #[trigger]
            out@.filter(at_tick(t)) == a@.filter(at_tick(t)) + b@.filter(at_tick(t)),
{
    let ghost sa = a@;
    let ghost sb = b@;
    let mut ar = reversed(a);
    let mut br = reversed(b);
    let mut out: Vec<Highlight> = Vec::new();
    let ghost mut i: int = 0;
    let ghost mut j: int = 0;
    proof {
        assert forall|t: u32| #[trigger]
            out@.filter(at_tick(t)) == sa.take(i).filter(at_tick(t)) + sb.take(j).filter(
                at_tick(t),
            ) by {
            lemma_filter_none(out@, at_tick(t));
            lemma_filter_none(sa.take(i), at_tick(t));
            lemma_filter_none(sb.take(j), at_tick(t));
            assert(Seq::<Highlight>::empty() + Seq::<Highlight>::empty() =~= Seq::<
                Highlight,
            >::empty());
        }
    }
    while ar.len() > 0 || br.len() > 0
        invariant
            sorted_by_tick(sa),
            sorted_by_tick(sb),
            0 <= i <= sa.len(),
            0 <= j <= sb.len(),
            ar@.len() == sa.len() - i,
            br@.len() == sb.len() - j,
            forall|k: int| 0 <= k < ar@.len() ==> #[trigger] ar@[k] == sa[sa.len() - 1 - k],
            forall|k: int| 0 <= k < br@.len() ==> #[trigger] br@[k] == sb[sb.len() - 1 - k],
            sorted_by_tick(out@),
            out@.len() == i + j,
            forall|t: u32| #[trigger]
                out@.filter(at_tick(t)) == sa.take(i).filter(at_tick(t)) + sb.take(j).filter(
                    at_tick(t),
                ),
            forall|k: int|
                0 <= k < out@.len() ==> (i < sa.len() ==> #[trigger] out@[k].tick <= sa[i].tick)
                    && (j < sb.len() ==> out@[k].tick <= sb[j].tick),
            i < sa.len() ==> forall|k: int| 0 <= k < j ==> #[trigger] sb[k].tick < sa[i].tick,
        decreases ar@.len() + br@.len(),
    {
        let take_a = if ar.len() == 0 {
            false
        } else if br.len() == 0 {
            true
        } else {
            ar[ar.len() - 1].tick <= br[br.len() - 1].tick
        };
        let ghost old_out = out@;
        if take_a {
            let x = ar.pop().unwrap();
            let ghost xg = x;
            assert(xg == sa[i]);
            out.push(x);
            proof {
                assert forall|t: u32| #[trigger]
                    out@.filter(at_tick(t)) == sa.take(i + 1).filter(at_tick(t)) + sb.take(
                        j,
                    ).filter(at_tick(t)) by {
                    let q = at_tick(t);
                    old_out.lemma_filter_push(xg, q);
                    assert(sa.take(i + 1) =~= sa.take(i).push(xg));
                    sa.take(i).lemma_filter_push(xg, q);
                    if xg.tick == t {
                        assert forall|k: int| 0 <= k < sb.take(j).len() implies !q(
                            #[trigger] sb.take(j)[k],
                        ) by {
                            assert(sb.take(j)[k] == sb[k]);
                        }
                        lemma_filter_none(sb.take(j), q);
                        assert(sa.take(i).filter(q).push(xg) + sb.take(j).filter(q)
                            =~= (sa.take(i).filter(q) + sb.take(j).filter(q)).push(xg));
                    }
                }
                assert forall|k: int|
                    0 <= k < out@.len() implies (i + 1 < sa.len() ==> #[trigger] out@[k].tick
                        <= sa[i + 1].tick) && (j < sb.len() ==> out@[k].tick <= sb[j].tick) by {
                    {
                        if k < old_out.len() {
                            assert(out@[k] == old_out[k]);
                        }
                        if i + 1 < sa.len() {
                            assert(sa[i].tick <= sa[i + 1].tick);
                        }
                    }
                }
                assert(i + 1 < sa.len() ==> forall|k: int|
                    0 <= k < j ==> #[trigger] sb[k].tick < sa[i + 1].tick) by {
                    if i + 1 < sa.len() {
                        assert(sa[i].tick <= sa[i + 1].tick);
                    }
                }
                assert forall|p: int, q: int| 0 <= p <= q < out@.len() implies #[trigger] out@[p].tick
                    <= #[trigger] out@[q].tick by {
                    if q == old_out.len() {
                        assert(out@[p] == old_out[p] || p == q);
                    } else {
                        assert(out@[p] == old_out[p] && out@[q] == old_out[q]);
                    }
                }
                i = i + 1;
            }
        } else {
            let x = br.pop().unwrap();
            let ghost xg = x;
            assert(xg == sb[j]);
            out.push(x);
            proof {
                assert forall|t: u32| #[trigger]
                    out@.filter(at_tick(t)) == sa.take(i).filter(at_tick(t)) + sb.take(
                        j + 1,
                    ).filter(at_tick(t)) by {
                    let q = at_tick(t);
                    old_out.lemma_filter_push(xg, q);
                    assert(sb.take(j + 1) =~= sb.take(j).push(xg));
                    sb.take(j).lemma_filter_push(xg, q);
                    if xg.tick == t {
                        assert(sa.take(i).filter(q) + sb.take(j).filter(q).push(xg)
                            =~= (sa.take(i).filter(q) + sb.take(j).filter(q)).push(xg));
                    }
                }
                assert forall|k: int|
                    0 <= k < out@.len() implies (i < sa.len() ==> #[trigger] out@[k].tick
                        <= sa[i].tick) && (j + 1 < sb.len() ==> out@[k].tick <= sb[j + 1].tick) by {
                    {
                        if k < old_out.len() {
                            assert(out@[k] == old_out[k]);
                        }
                        if j + 1 < sb.len() {
                            assert(sb[j].tick <= sb[j + 1].tick);
                        }
                    }
                }
                assert forall|p: int, q: int| 0 <= p <= q < out@.len() implies #[trigger] out@[p].tick
                    <= #[trigger] out@[q].tick by {
                    if q == old_out.len() {
                        assert(out@[p] == old_out[p] || p == q);
                    } else {
                        assert(out@[p] == old_out[p] && out@[q] == old_out[q]);
                    }
                }
                j = j + 1;
            }
        }
    }
    proof {
        assert(sa.take(i) =~= sa);
        assert(sb.take(j) =~= sb);
    }
    out
}

/// Sorts by tick, keeping the order of highlights of equal tick (merge sort).
pub fn sort_by_tick(v: Vec<Highlight>) -> (out: Vec<Highlight>)
    ensures
        is_stable_tick_sort_of(out@, v@),
        out@.len() == v@.len(),
    decreases v@.len(),
{
    let ghost vs = v@;
    if v.len() <= 1 {
        return v;
    }
    let mut left = v;
    let mid = left.len() / 2;
    let right = left.split_off(mid);
    let ghost ls = left@;
    let ghost rs = right@;
    let l = sort_by_tick(left);
    let r = sort_by_tick(right);
    let out = merge(l, r);
    proof {
        assert(vs =~= ls + rs);
        assert forall|t: u32| #[trigger] out@.filter(at_tick(t)) == vs.filter(at_tick(t)) by {
            Seq::filter_distributes_over_add(ls, rs, at_tick(t));
        }
    }
    out
}

/// Removes each non-lethal airshot for which a lethal airshot of the same
/// victim at the same tick exists, and orders what is left by tick; highlights
/// of equal tick keep their order.
pub fn deduplicate(highlights: Vec<Highlight>) -> (out: Vec<Highlight>)
    ensures
        is_deduplication_of(out@, highlights@),
        out@.len() == highlights@.filter(survives(highlights@)).len(),
{
    let ghost orig = highlights@;
    let keys = lethal_airshot_keys(&highlights);
    let mut rest = reversed(highlights);
    let mut kept: Vec<Highlight> = Vec::new();
    let ghost mut i: int = 0;
    proof {
        assert(orig.take(0) =~= Seq::<Highlight>::empty());
        lemma_filter_none(Seq::<Highlight>::empty(), survives(orig));
    }
    while rest.len() > 0
        invariant
            0 <= i <= orig.len(),
            rest@.len() == orig.len() - i,
            forall|k: int| 0 <= k < rest@.len() ==> #[trigger] rest@[k] == orig[orig.len() - 1 - k],
            kept@ == orig.take(i).filter(survives(orig)),
            forall|t: u32, u: u16| #[trigger]
                keys@.contains(lethal_key(t, u) as u64) <==> has_lethal_airshot_at(orig, t, u),
        decreases rest@.len(),
    {
        let h = rest.pop().unwrap();
        let ghost hg = h;
        assert(hg == orig[i]);
        let non_lethal_airshot = !h.lethal && match h.kind {
            HighlightKind::Airshot => true,
            HighlightKind::Headshot => false,
        };
        let key = key_of(h.tick, h.victim_user_id);
        assert(key == lethal_key(h.tick, h.victim_user_id) as u64);
        let shadowed = non_lethal_airshot && keys.contains(&key);
        assert(shadowed == is_shadowed(orig, hg));
        if !shadowed {
            kept.push(h);
        }
        proof {
            assert(orig.take(i + 1) =~= orig.take(i).push(hg));
            orig.take(i).lemma_filter_push(hg, survives(orig));
            i = i + 1;
        }
    }
    proof {
        assert(orig.take(i) =~= orig);
    }
    sort_by_tick(kept)
}

} // verus!
