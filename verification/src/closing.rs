//! Why every traced loop closes when the crossings come in an even number:
//! along each ring the crossings alternate between entries and exits, so the
//! walk's move from one crossing to the next is an involution on each ring,
//! their composition is a permutation of the crossings, and every orbit of a
//! permutation of finitely many crossings comes back to its start.
use vstd::prelude::*;
use vstd::arithmetic::div_mod::{
    lemma_add_mod_noop_right, lemma_mod_add_multiples_vanish, lemma_mod_bound, lemma_small_mod,
};
use crate::clip::{
    cross_pos, crossings_before, entry_at, entry_on, hit_of, is_ring_item, item_key, key_lt,
    ring_of, ring_ok, run, step, traces, walk, BoolOp, Crossing, Rings, Vertex, flips,
};

verus! {

/// The position `i` steps from `p` along a ring of length `n`.
pub open spec fn mv(n: int, p: int, i: int, forward: bool) -> int {
    if forward {
        (p + i) % n
    } else {
        (p - i) % n
    }
}

pub open spec fn is_cross(x: Vertex) -> bool {
    x is Crossing
}

proof fn lemma_mv_range(n: int, p: int, i: int, forward: bool)
    requires
        n > 0,
    ensures
        0 <= mv(n, p, i, forward) < n,
{
    if forward {
        lemma_mod_bound(p + i, n);
    } else {
        lemma_mod_bound(p - i, n);
    }
}

proof fn lemma_mv_zero(n: int, p: int, forward: bool)
    requires
        0 <= p < n,
    ensures
        mv(n, p, 0, forward) == p,
        mv(n, p, n, forward) == p,
{
    lemma_small_mod(p as nat, n as nat);
    lemma_mod_add_multiples_vanish(p, n);
    vstd::arithmetic::div_mod::lemma_mod_sub_multiples_vanish(p, n);
}

proof fn lemma_mv_step(n: int, p: int, i: int, forward: bool)
    requires
        n > 0,
    ensures
        step(n, mv(n, p, i, forward), forward) == mv(n, p, i + 1, forward),
{
    if forward {
        lemma_add_mod_noop_right(1, p + i, n);
    } else {
        lemma_add_mod_noop_right(n - 1, p - i, n);
        lemma_mod_add_multiples_vanish(p - i - 1, n);
    }
}

/// Going `d` steps one way and then `j` steps back is `d - j` steps.
proof fn lemma_mv_back(n: int, p: int, d: int, j: int, forward: bool)
    requires
        n > 0,
    ensures
        mv(n, mv(n, p, d, forward), j, !forward) == mv(n, p, d - j, forward),
{
    if forward {
        lemma_add_mod_noop_right(-j, p + d, n);
    } else {
        lemma_add_mod_noop_right(j, p - d, n);
    }
}

/// The crossing that `run` stops on is the first crossing met in its
/// direction: `d` steps away, with none before it.
pub open spec fn lands(r: Seq<Vertex>, p: int, forward: bool, d: int) -> bool {
    &&& 1 <= d <= r.len()
    &&& is_cross(r[mv(r.len() as int, p, d, forward)])
    &&& forall|j: int|
        1 <= j < d ==> !is_cross(#[trigger] r[mv(r.len() as int, p, j, forward)])
}

proof fn lemma_run_lands_from(r: Seq<Vertex>, p: int, forward: bool, i: int, fuel: nat, acc: Seq<Vertex>) -> (d: int)
    requires
        r.len() > 0,
        0 <= p < r.len(),
        is_cross(r[p]),
        0 <= i,
        i + fuel >= r.len(),
        forall|j: int| 1 <= j <= i ==> !is_cross(#[trigger] r[mv(r.len() as int, p, j, forward)]),
    ensures
        i < d,
        lands(r, p, forward, d),
        run(r, mv(r.len() as int, p, i, forward), forward, fuel, acc).1 == mv(r.len() as int, p, d, forward),
    decreases fuel,
{
    let n = r.len() as int;
    lemma_mv_zero(n, p, forward);
    if i >= n {
        assert(!is_cross(r[mv(n, p, n, forward)]));
    }
    assert(i < n);
    assert(fuel > 0);
    lemma_mv_step(n, p, i, forward);
    lemma_mv_range(n, p, i + 1, forward);
    let q = mv(n, p, i + 1, forward);
    if is_cross(r[q]) {
        i + 1
    } else {
        lemma_run_lands_from(r, p, forward, i + 1, (fuel - 1) as nat, acc.push(r[q]))
    }
}

/// `run` from a crossing stops on the first crossing in its direction.
pub proof fn lemma_run_lands(r: Seq<Vertex>, p: int, forward: bool, acc: Seq<Vertex>) -> (d: int)
    requires
        r.len() > 0,
        0 <= p < r.len(),
        is_cross(r[p]),
    ensures
        lands(r, p, forward, d),
        run(r, p, forward, r.len(), acc).1 == mv(r.len() as int, p, d, forward),
{
    lemma_mv_zero(r.len() as int, p, forward);
    lemma_run_lands_from(r, p, forward, 0, r.len(), acc)
}

proof fn lemma_lands_unique(r: Seq<Vertex>, p: int, forward: bool, d1: int, d2: int)
    requires
        lands(r, p, forward, d1),
        lands(r, p, forward, d2),
    ensures
        d1 == d2,
{
    if d1 < d2 {
        assert(!is_cross(r[mv(r.len() as int, p, d1, forward)]));
    } else if d2 < d1 {
        assert(!is_cross(r[mv(r.len() as int, p, d2, forward)]));
    }
}

/// Walking back from where a run stopped stops where it started.
proof fn lemma_lands_back(r: Seq<Vertex>, p: int, forward: bool, d: int)
    requires
        0 <= p < r.len(),
        is_cross(r[p]),
        lands(r, p, forward, d),
    ensures
        lands(r, mv(r.len() as int, p, d, forward), !forward, d),
        mv(r.len() as int, mv(r.len() as int, p, d, forward), d, !forward) == p,
{
    let n = r.len() as int;
    let q = mv(n, p, d, forward);
    lemma_mv_back(n, p, d, d, forward);
    lemma_mv_zero(n, p, forward);
    let back = !forward;
    assert forall|j: int| 1 <= j < d implies !is_cross(#[trigger] r[mv(n, q, j, back)]) by {
        lemma_mv_back(n, p, d, j, forward);
        assert(!is_cross(r[mv(n, p, d - j, forward)]));
    }
}

proof fn lemma_cb_flat(r: Seq<Vertex>, a: int, b: int)
    requires
        0 <= a <= b <= r.len(),
        forall|k: int| a <= k < b ==> !is_cross(#[trigger] r[k]),
    ensures
        crossings_before(r, b) == crossings_before(r, a),
    decreases b - a,
{
    if a < b {
        lemma_cb_flat(r, a, b - 1);
    }
}

/// Passing one crossing changes the parity of the crossings counted before,
/// the wrap-around included when the ring holds an even number of them.
proof fn lemma_parity_flips(r: Seq<Vertex>, p: int, forward: bool, d: int)
    requires
        0 <= p < r.len(),
        is_cross(r[p]),
        lands(r, p, forward, d),
        crossings_before(r, r.len() as int) % 2 == 0,
    ensures
        crossings_before(r, mv(r.len() as int, p, d, forward)) % 2 != crossings_before(r, p) % 2,
{
    let n = r.len() as int;
    let q = mv(n, p, d, forward);
    if forward {
        if p + d < n {
            lemma_small_mod((p + d) as nat, n as nat);
            assert forall|k: int| p + 1 <= k < q implies !is_cross(#[trigger] r[k]) by {
                lemma_small_mod(k as nat, n as nat);
                assert(r[mv(n, p, k - p, forward)] == r[k]);
            }
            lemma_cb_flat(r, p + 1, q);
        } else {
            lemma_mod_add_multiples_vanish(p + d - n, n);
            lemma_small_mod((p + d - n) as nat, n as nat);
            assert(q == p + d - n);
            assert forall|k: int| p + 1 <= k < n implies !is_cross(#[trigger] r[k]) by {
                lemma_small_mod(k as nat, n as nat);
                assert(r[mv(n, p, k - p, forward)] == r[k]);
            }
            lemma_cb_flat(r, p + 1, n);
            assert forall|k: int| 0 <= k < q implies !is_cross(#[trigger] r[k]) by {
                lemma_small_mod(k as nat, n as nat);
                lemma_mod_add_multiples_vanish(k, n);
                assert(r[mv(n, p, k + n - p, forward)] == r[k]);
            }
            lemma_cb_flat(r, 0, q);
        }
    } else {
        if p - d >= 0 {
            lemma_small_mod((p - d) as nat, n as nat);
            assert forall|k: int| q + 1 <= k < p implies !is_cross(#[trigger] r[k]) by {
                lemma_small_mod(k as nat, n as nat);
                assert(r[mv(n, p, p - k, forward)] == r[k]);
            }
            lemma_cb_flat(r, q + 1, p);
        } else {
            lemma_mod_add_multiples_vanish(p - d, n);
            lemma_small_mod((p - d + n) as nat, n as nat);
            assert(q == p - d + n);
            assert forall|k: int| 0 <= k < p implies !is_cross(#[trigger] r[k]) by {
                lemma_small_mod(k as nat, n as nat);
                assert(r[mv(n, p, p - k, forward)] == r[k]);
            }
            lemma_cb_flat(r, 0, p);
            assert forall|k: int| q + 1 <= k < n implies !is_cross(#[trigger] r[k]) by {
                lemma_small_mod(k as nat, n as nat);
                lemma_mod_add_multiples_vanish(k - n, n);
                assert(r[mv(n, p, p - k + n, forward)] == r[k]);
            }
            lemma_cb_flat(r, q + 1, n);
        }
    }
}


spec fn cross_positions_below(r: Seq<Vertex>, k: int) -> Set<int> {
    Set::new(|p: int| 0 <= p < k && is_cross(r[p]))
}

proof fn lemma_cb_card(r: Seq<Vertex>, k: int)
    requires
        0 <= k <= r.len(),
    ensures
        cross_positions_below(r, k).finite(),
        cross_positions_below(r, k).len() == crossings_before(r, k),
    decreases k,
{
    if k == 0 {
        assert(cross_positions_below(r, 0) =~= Set::empty());
    } else {
        lemma_cb_card(r, k - 1);
        if is_cross(r[k - 1]) {
            assert(cross_positions_below(r, k) =~= cross_positions_below(r, k - 1).insert(k - 1));
        } else {
            assert(cross_positions_below(r, k) =~= cross_positions_below(r, k - 1));
        }
    }
}

/// A ring holds exactly one entry per crossing.
pub proof fn lemma_ring_crossing_count(subject_side: bool, r: Seq<Vertex>, n: nat, hits: Seq<Crossing>)
    requires
        ring_ok(subject_side, r, n, hits),
        hits.len() <= usize::MAX,
    ensures
        crossings_before(r, r.len() as int) == hits.len(),
{
    let len = r.len() as int;
    let m = hits.len() as int;
    let x = cross_positions_below(r, len);
    let f = |p: int| hit_of(r[p]);
    let range = vstd::set_lib::set_int_range(0, m);
    lemma_cb_card(r, len);
    assert(x.map(f) =~= range) by {
        assert forall|h: int| x.map(f).contains(h) <==> range.contains(h) by {
            if x.map(f).contains(h) {
                let p = choose|p: int| x.contains(p) && f(p) == h;
                assert(is_ring_item(subject_side, r[p], n, hits.len()));
            }
            if range.contains(h) {
                assert(is_ring_item(subject_side, Vertex::Crossing(h as usize), n, hits.len()));
                assert(r.contains(Vertex::Crossing(h as usize)));
                let p = choose|p: int| 0 <= p < r.len() && r[p] == Vertex::Crossing(h as usize);
                assert(x.contains(p) && f(p) == h);
            }
        }
    }
    assert(vstd::relations::injective_on(f, x)) by {
        assert forall|p1: int, p2: int| x.contains(p1) && x.contains(p2) && #[trigger] f(p1) == #[trigger] f(p2) implies p1 == p2 by {
            assert(is_ring_item(subject_side, r[p1], n, hits.len()));
            assert(is_ring_item(subject_side, r[p2], n, hits.len()));
            assert(r[p1] == r[p2]);
            if p1 < p2 {
                assert(key_lt(item_key(subject_side, r[p1], hits), item_key(subject_side, r[p2], hits)));
            } else if p2 < p1 {
                assert(key_lt(item_key(subject_side, r[p2], hits), item_key(subject_side, r[p1], hits)));
            }
        }
    }
    vstd::set_lib::lemma_map_size(x, range, f);
    vstd::set_lib::lemma_int_range(0, m);
}


/// Crossing `h` sits at exactly one position of the ring.
proof fn lemma_cross_pos_at(subject_side: bool, r: Seq<Vertex>, n: nat, hits: Seq<Crossing>, h: int)
    requires
        ring_ok(subject_side, r, n, hits),
        0 <= h < hits.len(),
        hits.len() <= usize::MAX,
    ensures
        0 <= cross_pos(r, h) < r.len(),
        r[cross_pos(r, h)] == Vertex::Crossing(h as usize),
        forall|i: int| 0 <= i < r.len() && r[i] == Vertex::Crossing(h as usize) ==> i == cross_pos(r, h),
{
    assert(is_ring_item(subject_side, Vertex::Crossing(h as usize), n, hits.len()));
    assert(r.contains(Vertex::Crossing(h as usize)));
    let c = cross_pos(r, h);
    assert forall|i: int| 0 <= i < r.len() && r[i] == Vertex::Crossing(h as usize) implies i == c by {
        if i < c {
            assert(key_lt(item_key(subject_side, r[i], hits), item_key(subject_side, r[c], hits)));
        } else if c < i {
            assert(key_lt(item_key(subject_side, r[c], hits), item_key(subject_side, r[i], hits)));
        }
    }
}

/// Where the walk goes next from crossing `h` on one ring: the crossing its
/// run along that ring stops on.
pub open spec fn next_hit(g: Rings, subject_side: bool, h: int) -> int {
    let r = ring_of(g, subject_side);
    let p = cross_pos(r, h);
    hit_of(r[run(r, p, entry_on(g, subject_side, p), r.len(), Seq::empty()).1])
}

/// Both rings are well formed and hold an even number of crossings.
pub open spec fn rings_even(g: Rings, ns: nat, nc: nat, hits: Seq<Crossing>) -> bool {
    &&& ring_ok(true, g.rs, ns, hits)
    &&& ring_ok(false, g.rc, nc, hits)
    &&& hits.len() % 2 == 0
    &&& 0 < hits.len() <= usize::MAX
}

proof fn lemma_ring_side(g: Rings, ns: nat, nc: nat, hits: Seq<Crossing>, subject_side: bool)
    requires
        rings_even(g, ns, nc, hits),
    ensures
        ring_ok(subject_side, ring_of(g, subject_side), if subject_side { ns } else { nc }, hits),
        crossings_before(ring_of(g, subject_side), ring_of(g, subject_side).len() as int) == hits.len(),
        ring_of(g, subject_side).len() > 0,
{
    lemma_ring_crossing_count(subject_side, ring_of(g, subject_side), if subject_side { ns } else { nc }, hits);
}

/// The position a run from `p` stops on does not depend on what it collects.
proof fn lemma_run_pos_any_acc(r: Seq<Vertex>, p: int, forward: bool, acc: Seq<Vertex>)
    requires
        r.len() > 0,
        0 <= p < r.len(),
        is_cross(r[p]),
    ensures
        run(r, p, forward, r.len(), acc).1 == run(r, p, forward, r.len(), Seq::empty()).1,
{
    let d1 = lemma_run_lands(r, p, forward, acc);
    let d2 = lemma_run_lands(r, p, forward, Seq::empty());
    lemma_lands_unique(r, p, forward, d1, d2);
}

/// On each ring the next-crossing move undoes itself, and stays among the
/// crossings.
pub proof fn lemma_next_hit_involution(g: Rings, ns: nat, nc: nat, hits: Seq<Crossing>, subject_side: bool, h: int)
    requires
        rings_even(g, ns, nc, hits),
        0 <= h < hits.len(),
    ensures
        0 <= next_hit(g, subject_side, h) < hits.len(),
        next_hit(g, subject_side, next_hit(g, subject_side, h)) == h,
{
    let n = if subject_side { ns } else { nc };
    let r = ring_of(g, subject_side);
    lemma_ring_side(g, ns, nc, hits, subject_side);
    lemma_cross_pos_at(subject_side, r, n, hits, h);
    let p = cross_pos(r, h);
    let fwd = entry_on(g, subject_side, p);
    let d = lemma_run_lands(r, p, fwd, Seq::empty());
    let q = mv(r.len() as int, p, d, fwd);
    lemma_mv_range(r.len() as int, p, d, fwd);
    assert(is_ring_item(subject_side, r[q], n, hits.len()));
    let h2 = hit_of(r[q]);
    assert(r[q] == Vertex::Crossing(h2 as usize));
    lemma_cross_pos_at(subject_side, r, n, hits, h2);
    assert(cross_pos(r, h2) == q);
    lemma_parity_flips(r, p, fwd, d);
    assert(entry_on(g, subject_side, q) == !fwd);
    lemma_lands_back(r, p, fwd, d);
    let d2 = lemma_run_lands(r, q, !fwd, Seq::empty());
    lemma_lands_unique(r, q, !fwd, d, d2);
}

/// One round of the walk: along the subject ring, then along the clip ring.
pub open spec fn round(g: Rings, h: int) -> int {
    next_hit(g, false, next_hit(g, true, h))
}

pub open spec fn rounds(g: Rings, k: nat, h: int) -> int
    decreases k,
{
    if k == 0 {
        h
    } else {
        round(g, rounds(g, (k - 1) as nat, h))
    }
}

proof fn lemma_round_in_range(g: Rings, ns: nat, nc: nat, hits: Seq<Crossing>, k: nat, h: int)
    requires
        rings_even(g, ns, nc, hits),
        0 <= h < hits.len(),
    ensures
        0 <= rounds(g, k, h) < hits.len(),
    decreases k,
{
    if k > 0 {
        lemma_round_in_range(g, ns, nc, hits, (k - 1) as nat, h);
        let x = rounds(g, (k - 1) as nat, h);
        lemma_next_hit_involution(g, ns, nc, hits, true, x);
        lemma_next_hit_involution(g, ns, nc, hits, false, next_hit(g, true, x));
    }
}

proof fn lemma_round_injective(g: Rings, ns: nat, nc: nat, hits: Seq<Crossing>, a: int, b: int)
    requires
        rings_even(g, ns, nc, hits),
        0 <= a < hits.len(),
        0 <= b < hits.len(),
        round(g, a) == round(g, b),
    ensures
        a == b,
{
    lemma_next_hit_involution(g, ns, nc, hits, true, a);
    lemma_next_hit_involution(g, ns, nc, hits, true, b);
    lemma_next_hit_involution(g, ns, nc, hits, false, next_hit(g, true, a));
    lemma_next_hit_involution(g, ns, nc, hits, false, next_hit(g, true, b));
}

proof fn lemma_rounds_descend(g: Rings, ns: nat, nc: nat, hits: Seq<Crossing>, h: int, i: nat, j: nat)
    requires
        rings_even(g, ns, nc, hits),
        0 <= h < hits.len(),
        i <= j,
        rounds(g, i, h) == rounds(g, j, h),
    ensures
        rounds(g, 0, h) == rounds(g, (j - i) as nat, h),
    decreases i,
{
    if i > 0 {
        lemma_round_in_range(g, ns, nc, hits, (i - 1) as nat, h);
        lemma_round_in_range(g, ns, nc, hits, (j - 1) as nat, h);
        lemma_round_injective(g, ns, nc, hits, rounds(g, (i - 1) as nat, h), rounds(g, (j - 1) as nat, h));
        lemma_rounds_descend(g, ns, nc, hits, h, (i - 1) as nat, (j - 1) as nat);
    }
}

/// Every crossing comes back to itself within as many rounds as there are
/// crossings.
pub proof fn lemma_orbit_returns(g: Rings, ns: nat, nc: nat, hits: Seq<Crossing>, h: int) -> (k: nat)
    requires
        rings_even(g, ns, nc, hits),
        0 <= h < hits.len(),
    ensures
        1 <= k <= hits.len(),
        rounds(g, k, h) == h,
{
    let m = hits.len() as int;
    if exists|k: nat| 1 <= k <= m && rounds(g, k, h) == h {
        choose|k: nat| 1 <= k <= m && rounds(g, k, h) == h
    } else {
        let dom = vstd::set_lib::set_int_range(0, m + 1);
        let f = |i: int| rounds(g, i as nat, h);
        let img = dom.map(f);
        vstd::set_lib::lemma_int_range(0, m + 1);
        vstd::set_lib::lemma_int_range(0, m);
        assert(vstd::relations::injective_on(f, dom)) by {
            assert forall|a: int, b: int| dom.contains(a) && dom.contains(b) && #[trigger] f(a) == #[trigger] f(b) implies a == b by {
                if a < b {
                    lemma_rounds_descend(g, ns, nc, hits, h, a as nat, b as nat);
                    assert(rounds(g, (b - a) as nat, h) == h);
                } else if b < a {
                    lemma_rounds_descend(g, ns, nc, hits, h, b as nat, a as nat);
                    assert(rounds(g, (a - b) as nat, h) == h);
                }
            }
        }
        vstd::set_lib::lemma_map_size(dom, img, f);
        assert(img.subset_of(vstd::set_lib::set_int_range(0, m))) by {
            assert forall|v: int| img.contains(v) implies vstd::set_lib::set_int_range(0, m).contains(v) by {
                let i = choose|i: int| dom.contains(i) && f(i) == v;
                lemma_round_in_range(g, ns, nc, hits, i as nat, h);
            }
        }
        vstd::set_lib::lemma_len_subset(img, vstd::set_lib::set_int_range(0, m));
        assert(false);
        0
    }
}

/// A walk from the subject crossing `h` closes on `start` when `start` is
/// `k` rounds away and the fuel covers `2 k` switches.
proof fn lemma_walk_closes(
    g: Rings,
    ns: nat,
    nc: nat,
    hits: Seq<Crossing>,
    h: int,
    start: int,
    k: nat,
    fuel: nat,
    acc: Seq<Vertex>,
    vis: Set<int>,
)
    requires
        rings_even(g, ns, nc, hits),
        0 <= h < hits.len(),
        k >= 1,
        rounds(g, k, h) == start,
        fuel >= 2 * k,
    ensures
        walk(g, true, cross_pos(g.rs, h), start, fuel, acc, vis) is Some,
    decreases k,
{
    lemma_ring_side(g, ns, nc, hits, true);
    lemma_ring_side(g, ns, nc, hits, false);
    let rs = g.rs;
    let rc = g.rc;
    lemma_cross_pos_at(true, rs, ns, hits, h);
    let p = cross_pos(rs, h);
    lemma_run_pos_any_acc(rs, p, entry_on(g, true, p), acc);
    let (acc2, q) = run(rs, p, entry_on(g, true, p), rs.len(), acc);
    let h1 = hit_of(rs[q]);
    assert(h1 == next_hit(g, true, h));
    lemma_next_hit_involution(g, ns, nc, hits, true, h);
    lemma_cross_pos_at(false, rc, nc, hits, h1);
    let p2 = cross_pos(rc, h1);
    let vis2 = vis.insert(hit_of(rs[p]));
    lemma_run_pos_any_acc(rc, p2, entry_on(g, false, p2), acc2);
    let (acc3, q2) = run(rc, p2, entry_on(g, false, p2), rc.len(), acc2);
    let h2 = hit_of(rc[q2]);
    assert(h2 == round(g, h));
    lemma_next_hit_involution(g, ns, nc, hits, false, h1);
    let vis3 = vis2.insert(hit_of(rc[p2]));
    assert(walk(g, true, p, start, fuel, acc, vis) == walk(g, false, p2, start, (fuel - 1) as nat, acc2, vis2));
    if h2 != start {
        assert(k > 1) by {
            if k == 1 {
                assert(rounds(g, 1, h) == round(g, rounds(g, 0, h)));
            }
        }
        lemma_rounds_shift(g, (k - 1) as nat, h);
        lemma_walk_closes(g, ns, nc, hits, h2, start, (k - 1) as nat, (fuel - 2) as nat, acc3, vis3);
    }
}

proof fn lemma_rounds_shift(g: Rings, k: nat, h: int)
    ensures
        rounds(g, k, round(g, h)) == rounds(g, k + 1, h),
    decreases k,
{
    if k > 0 {
        lemma_rounds_shift(g, (k - 1) as nat, h);
        assert(rounds(g, k, round(g, h)) == round(g, rounds(g, (k - 1) as nat, round(g, h))));
        assert(rounds(g, k + 1, h) == round(g, rounds(g, k, h)));
    } else {
        assert(rounds(g, 1, h) == round(g, rounds(g, 0, h)));
    }
}

proof fn lemma_traces_close(g: Rings, ns: nat, nc: nat, hits: Seq<Crossing>, p: int, vis: Set<int>, acc: Seq<Seq<Vertex>>)
    requires
        rings_even(g, ns, nc, hits),
        0 <= p,
    ensures
        traces(g, 2 * hits.len(), p, vis, acc) is Some,
    decreases g.rs.len() - p,
{
    let fuel = (2 * hits.len()) as nat;
    if p < g.rs.len() {
        if g.rs[p] is Crossing && !vis.contains(hit_of(g.rs[p])) {
            assert(is_ring_item(true, g.rs[p], ns, hits.len()));
            let h = hit_of(g.rs[p]);
            lemma_cross_pos_at(true, g.rs, ns, hits, h);
            assert(g.rs[p] == Vertex::Crossing(h as usize));
            assert(cross_pos(g.rs, h) == p);
            let k = lemma_orbit_returns(g, ns, nc, hits, h);
            lemma_walk_closes(g, ns, nc, hits, h, h, k, fuel, Seq::empty(), vis);
            match walk(g, true, p, h, fuel, Seq::empty(), vis) {
                None => {},
                Some((lp, vis2)) => {
                    lemma_traces_close(g, ns, nc, hits, p + 1, vis2, if lp.len() >= 3 { acc.push(lp) } else { acc });
                },
            }
        } else {
            lemma_traces_close(g, ns, nc, hits, p + 1, vis, acc);
        }
    }
}

/// With an even number of crossings every walk closes, so tracing yields
/// loops rather than `None`.
pub proof fn lemma_even_crossings_close(g: Rings, ns: nat, nc: nat, hits: Seq<Crossing>)
    requires
        rings_even(g, ns, nc, hits),
    ensures
        traces(g, 2 * hits.len(), 0, Set::empty(), seq![]) is Some,
{
    lemma_traces_close(g, ns, nc, hits, 0, Set::empty(), seq![]);
}

} // verus!
