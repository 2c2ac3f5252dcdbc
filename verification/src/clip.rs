//! Greiner–Hormann polygon clipping, on the combinatorial side.
//!
//! The caller finds where the subject's and the clip polygon's edges cross
//! (that is floating-point geometry) and hands each crossing in as the pair of
//! edges it lies on plus an order key along each edge. Everything after that
//! (threading the crossings into both vertex rings, marking each crossing as
//! an entry or an exit, and walking the rings into output loops) is done and
//! proved here. Output loops name their vertices (`Vertex`), so the caller can
//! map them back to coordinates.
use vstd::prelude::*;

verus! {

/// The boolean operation to perform.
#[derive(Clone, Copy, Debug, PartialEq, Eq, Structural)]
pub enum BoolOp {
    Union,
    Intersection,
    Difference,
}

/// A vertex of an output loop: a vertex of the subject polygon, a vertex of
/// the clip polygon, or one of the crossings handed in.
#[derive(Clone, Copy, Debug, PartialEq, Eq, Structural)]
pub enum Vertex {
    Subject(usize),
    Clip(usize),
    Crossing(usize),
}

/// A proper crossing of subject edge `subject_edge` (from vertex
/// `subject_edge` to the next one) with clip edge `clip_edge`.
/// `subject_param` and `clip_param` order crossings that share an edge: a
/// smaller key lies nearer the edge's first vertex.
#[derive(Clone, Copy, Debug, PartialEq, Eq, Structural)]
pub struct Crossing {
    pub subject_edge: usize,
    pub clip_edge: usize,
    pub subject_param: u64,
    pub clip_param: u64,
}

pub type Key = (int, int, int, int);

/// Lexicographic order on ring keys.
pub open spec fn key_lt(a: Key, b: Key) -> bool {
    a.0 < b.0 || (a.0 == b.0 && (a.1 < b.1 || (a.1 == b.1 && (a.2 < b.2 || (a.2 == b.2
        && a.3 < b.3)))))
}

/// Where an item sits in its ring: after the vertex that starts its edge, and
/// among the crossings of one edge by (order key, index).
pub open spec fn item_key(subject_side: bool, x: Vertex, hits: Seq<Crossing>) -> Key {
    match x {
        Vertex::Subject(i) => (i as int, 0, 0, 0),
        Vertex::Clip(j) => (j as int, 0, 0, 0),
        Vertex::Crossing(h) => if subject_side {
            (hits[h as int].subject_edge as int, 1, hits[h as int].subject_param as int, h as int)
        } else {
            (hits[h as int].clip_edge as int, 1, hits[h as int].clip_param as int, h as int)
        },
    }
}

/// The items of one ring: the polygon's `n` vertices and every crossing.
pub open spec fn is_ring_item(subject_side: bool, x: Vertex, n: nat, m: nat) -> bool {
    match x {
        Vertex::Subject(i) => subject_side && i < n,
        Vertex::Clip(j) => !subject_side && j < n,
        Vertex::Crossing(h) => h < m,
    }
}

/// `r` lists every item of the ring exactly once, in increasing key order.
pub open spec fn ring_ok(subject_side: bool, r: Seq<Vertex>, n: nat, hits: Seq<Crossing>) -> bool {
    &&& r.len() == n + hits.len()
    &&& forall|i: int| 0 <= i < r.len() ==> is_ring_item(subject_side, #[trigger] r[i], n, hits.len())
    &&& forall|i: int, j: int|
        0 <= i < j < r.len() ==> key_lt(
            item_key(subject_side, #[trigger] r[i], hits),
            item_key(subject_side, #[trigger] r[j], hits),
        )
    &&& forall|x: Vertex| is_ring_item(subject_side, x, n, hits.len()) ==> #[trigger] r.contains(x)
}

/// Every crossing lies on an edge of both polygons.
pub open spec fn crossings_valid(ns: nat, nc: nat, hits: Seq<Crossing>) -> bool {
    forall|h: int|
        0 <= h < hits.len() ==> #[trigger] hits[h].subject_edge < ns && hits[h].clip_edge < nc
}

/// The `t`-th item of a ring: the vertices first, then the crossings.
pub open spec fn item_at(subject_side: bool, n: nat, t: int) -> Vertex {
    if t < n {
        if subject_side {
            Vertex::Subject(t as usize)
        } else {
            Vertex::Clip(t as usize)
        }
    } else {
        Vertex::Crossing((t - n) as usize)
    }
}

/// Number of items `item_at(t')`, `t <= t' < n + m`, whose key is above `last`.
pub open spec fn count_above(subject_side: bool, n: nat, hits: Seq<Crossing>, last: Key, t: int) -> nat
    decreases n + hits.len() - t,
{
    if t >= n + hits.len() || t < 0 {
        0
    } else {
        (if key_lt(last, item_key(subject_side, item_at(subject_side, n, t), hits)) {
            1nat
        } else {
            0nat
        }) + count_above(subject_side, n, hits, last, t + 1)
    }
}

proof fn lemma_key_lt_trans(a: Key, b: Key, c: Key)
    requires
        key_lt(a, b),
        key_lt(b, c),
    ensures
        key_lt(a, c),
{
}

proof fn lemma_key_injective(subject_side: bool, x: Vertex, y: Vertex, n: nat, hits: Seq<Crossing>)
    requires
        is_ring_item(subject_side, x, n, hits.len()),
        is_ring_item(subject_side, y, n, hits.len()),
        item_key(subject_side, x, hits) == item_key(subject_side, y, hits),
    ensures
        x == y,
{
}

proof fn lemma_item_at_is_item(subject_side: bool, n: nat, m: nat, t: int)
    requires
        0 <= t < n + m,
    ensures
        is_ring_item(subject_side, item_at(subject_side, n, t), n, m),
{
}

proof fn lemma_item_has_index(subject_side: bool, x: Vertex, n: nat, m: nat) -> (t: int)
    requires
        is_ring_item(subject_side, x, n, m),
    ensures
        0 <= t < n + m,
        item_at(subject_side, n, t) == x,
{
    match x {
        Vertex::Subject(i) => i as int,
        Vertex::Clip(j) => j as int,
        Vertex::Crossing(h) => n + h,
    }
}

proof fn lemma_item_at_index_injective(subject_side: bool, n: nat, m: nat, i: int, j: int)
    requires
        n + m <= usize::MAX,
        0 <= i < n + m,
        0 <= j < n + m,
        item_at(subject_side, n, i) == item_at(subject_side, n, j),
    ensures
        i == j,
{
}

/// Raising the threshold never counts more items, and strictly fewer when an
/// item's key lies in between.
proof fn lemma_count_above_mono(
    subject_side: bool,
    n: nat,
    hits: Seq<Crossing>,
    lo: Key,
    hi: Key,
    t: int,
    w: int,
)
    requires
        key_lt(lo, hi),
        0 <= t,
        t <= w < n + hits.len(),
        key_lt(lo, item_key(subject_side, item_at(subject_side, n, w), hits)),
        !key_lt(hi, item_key(subject_side, item_at(subject_side, n, w), hits)),
    ensures
        count_above(subject_side, n, hits, hi, t) < count_above(subject_side, n, hits, lo, t),
    decreases n + hits.len() - t,
{
    if t < w {
        lemma_count_above_mono(subject_side, n, hits, lo, hi, t + 1, w);
        let k = item_key(subject_side, item_at(subject_side, n, t), hits);
        if key_lt(hi, k) {
            lemma_key_lt_trans(lo, hi, k);
        }
    } else {
        lemma_count_above_weak(subject_side, n, hits, lo, hi, t + 1);
    }
}

proof fn lemma_count_above_weak(subject_side: bool, n: nat, hits: Seq<Crossing>, lo: Key, hi: Key, t: int)
    requires
        key_lt(lo, hi),
        0 <= t,
    ensures
        count_above(subject_side, n, hits, hi, t) <= count_above(subject_side, n, hits, lo, t),
    decreases n + hits.len() - t,
{
    if t < n + hits.len() {
        lemma_count_above_weak(subject_side, n, hits, lo, hi, t + 1);
        let k = item_key(subject_side, item_at(subject_side, n, t), hits);
        if key_lt(hi, k) {
            lemma_key_lt_trans(lo, hi, k);
        }
    }
}

/// Exec form of a ring key.
type ExecKey = (usize, usize, u64, usize);

spec fn key_of(k: ExecKey) -> Key {
    (k.0 as int, k.1 as int, k.2 as int, k.3 as int)
}

fn exec_key_lt(a: ExecKey, b: ExecKey) -> (r: bool)
    ensures
        r == key_lt(key_of(a), key_of(b)),
{
    a.0 < b.0 || (a.0 == b.0 && (a.1 < b.1 || (a.1 == b.1 && (a.2 < b.2 || (a.2 == b.2 && a.3
        < b.3)))))
}

fn exec_item_key(subject_side: bool, n: usize, hits: &Vec<Crossing>, t: usize) -> (r: (
    Vertex,
    ExecKey,
))
    requires
        t < n + hits.len(),
    ensures
        r.0 == item_at(subject_side, n as nat, t as int),
        key_of(r.1) == item_key(subject_side, r.0, hits@),
{
    if t < n {
        if subject_side {
            (Vertex::Subject(t), (t, 0, 0, 0))
        } else {
            (Vertex::Clip(t), (t, 0, 0, 0))
        }
    } else {
        let h = t - n;
        let c = hits[h];
        if subject_side {
            (Vertex::Crossing(h), (c.subject_edge, 1, c.subject_param, h))
        } else {
            (Vertex::Crossing(h), (c.clip_edge, 1, c.clip_param, h))
        }
    }
}

/// Lays out one ring: the polygon's vertices in order, each followed by the
/// crossings on its outgoing edge sorted by their order key along that edge.
fn build_ring(subject_side: bool, n: usize, hits: &Vec<Crossing>) -> (r: Vec<Vertex>)
    requires
        n + hits.len() <= usize::MAX,
    ensures
        ring_ok(subject_side, r@, n as nat, hits@),
{
    let total = n + hits.len();
    let ghost m = hits.len() as nat;
    let mut out: Vec<Vertex> = Vec::new();
    let mut has_last = false;
    let mut last: ExecKey = (0, 0, 0, 0);
    let ghost mut glast: Key = (-1, 0, 0, 0);
    loop
        invariant
            total == n + hits.len(),
            m == hits.len(),
            has_last ==> glast == key_of(last),
            !has_last ==> glast == (-1int, 0int, 0int, 0int) && out@.len() == 0,
            has_last ==> out@.len() > 0 && item_key(subject_side, out@.last(), hits@) == glast,
            forall|i: int|
                0 <= i < out@.len() ==> is_ring_item(subject_side, #[trigger] out@[i], n as nat, m),
            forall|i: int, j: int|
                0 <= i < j < out@.len() ==> key_lt(
                    item_key(subject_side, #[trigger] out@[i], hits@),
                    item_key(subject_side, #[trigger] out@[j], hits@),
                ),
            forall|x: Vertex|
                is_ring_item(subject_side, x, n as nat, m) && !key_lt(
                    glast,
                    item_key(subject_side, x, hits@),
                ) ==> #[trigger] out@.contains(x),
        ensures
            forall|x: Vertex|
                is_ring_item(subject_side, x, n as nat, m) ==> #[trigger] out@.contains(x),
            forall|i: int|
                0 <= i < out@.len() ==> is_ring_item(subject_side, #[trigger] out@[i], n as nat, m),
            forall|i: int, j: int|
                0 <= i < j < out@.len() ==> key_lt(
                    item_key(subject_side, #[trigger] out@[i], hits@),
                    item_key(subject_side, #[trigger] out@[j], hits@),
                ),
        decreases count_above(subject_side, n as nat, hits@, glast, 0),
    {
        // Find the item with the least key above `last`.
        let mut best_found = false;
        let mut best_item = Vertex::Subject(0);
        let mut best_key: ExecKey = (0, 0, 0, 0);
        let mut t: usize = 0;
        while t < total
            invariant
                total == n + hits.len(),
                m == hits.len(),
                t <= total,
                has_last ==> glast == key_of(last),
                !has_last ==> glast == (-1int, 0int, 0int, 0int),
                best_found ==> key_lt(glast, key_of(best_key)),
                best_found ==> key_of(best_key) == item_key(subject_side, best_item, hits@),
                best_found ==> is_ring_item(subject_side, best_item, n as nat, m),
                best_found ==> exists|w: int|
                    0 <= w < t && item_at(subject_side, n as nat, w) == best_item,
                forall|w: int|
                    0 <= w < t && key_lt(
                        glast,
                        #[trigger] item_key(subject_side, item_at(subject_side, n as nat, w), hits@),
                    ) ==> best_found && !key_lt(
                        item_key(subject_side, item_at(subject_side, n as nat, w), hits@),
                        key_of(best_key),
                    ),
            decreases total - t,
        {
            let (x, k) = exec_item_key(subject_side, n, hits, t);
            proof {
                lemma_item_at_is_item(subject_side, n as nat, m, t as int);
            }
            let above = !has_last || exec_key_lt(last, k);
            if above && (!best_found || exec_key_lt(k, best_key)) {
                proof {
                    assert forall|w: int|
                        0 <= w < t + 1 && key_lt(
                            glast,
                            #[trigger] item_key(subject_side, item_at(subject_side, n as nat, w), hits@),
                        ) implies !key_lt(
                        item_key(subject_side, item_at(subject_side, n as nat, w), hits@),
                        key_of(k),
                    ) by {
                        if w < t {
                            let kw = item_key(subject_side, item_at(subject_side, n as nat, w), hits@);
                            if key_lt(kw, key_of(k)) {
                                lemma_key_lt_trans(kw, key_of(k), key_of(best_key));
                            }
                        }
                    }
                }
                best_found = true;
                best_item = x;
                best_key = k;
            }
            t = t + 1;
        }
        if !best_found {
            proof {
                assert forall|x: Vertex| is_ring_item(subject_side, x, n as nat, m) implies #[trigger] out@.contains(x) by {
                    let w = lemma_item_has_index(subject_side, x, n as nat, m);
                    assert(item_key(subject_side, item_at(subject_side, n as nat, w), hits@)
                        == item_key(subject_side, x, hits@));
                }
            }
            break;
        }
        let ghost old_out = out@;
        let ghost old_glast = glast;
        proof {
            let w = choose|w: int| 0 <= w < total && item_at(subject_side, n as nat, w) == best_item;
            lemma_count_above_mono(subject_side, n as nat, hits@, glast, key_of(best_key), 0, w);
        }
        out.push(best_item);
        has_last = true;
        last = best_key;
        proof {
            glast = key_of(best_key);
            assert forall|i: int, j: int|
                0 <= i < j < out@.len() implies key_lt(
                item_key(subject_side, #[trigger] out@[i], hits@),
                item_key(subject_side, #[trigger] out@[j], hits@),
            ) by {
                if j == out@.len() - 1 && i < j {
                    if i < old_out.len() - 1 {
                        lemma_key_lt_trans(
                            item_key(subject_side, out@[i], hits@),
                            old_glast,
                            glast,
                        );
                    }
                }
            }
            assert forall|x: Vertex|
                is_ring_item(subject_side, x, n as nat, m) && !key_lt(
                    glast,
                    item_key(subject_side, x, hits@),
                ) implies #[trigger] out@.contains(x) by {
                let kx = item_key(subject_side, x, hits@);
                if key_lt(old_glast, kx) {
                    let w = lemma_item_has_index(subject_side, x, n as nat, m);
                    assert(item_key(subject_side, item_at(subject_side, n as nat, w), hits@) == kx);
                    assert(kx == glast);
                    lemma_key_injective(subject_side, x, best_item, n as nat, hits@);
                    assert(out@[out@.len() - 1] == x);
                } else {
                    assert(old_out.contains(x));
                    let i = choose|i: int| 0 <= i < old_out.len() && old_out[i] == x;
                    assert(out@[i] == x);
                }
            }
        }
    }
    proof {
        // Length: the ring lists each of the n + m items once.
        lemma_ring_len(subject_side, out@, n as nat, hits@);
    }
    out
}

/// A strictly increasing list that holds every ring item, and only ring
/// items, has one entry per item.
proof fn lemma_ring_len(subject_side: bool, r: Seq<Vertex>, n: nat, hits: Seq<Crossing>)
    requires
        n + hits.len() <= usize::MAX,
        forall|x: Vertex| is_ring_item(subject_side, x, n, hits.len()) ==> #[trigger] r.contains(x),
        forall|i: int| 0 <= i < r.len() ==> is_ring_item(subject_side, #[trigger] r[i], n, hits.len()),
        forall|i: int, j: int|
            0 <= i < j < r.len() ==> key_lt(
                item_key(subject_side, #[trigger] r[i], hits),
                item_key(subject_side, #[trigger] r[j], hits),
            ),
    ensures
        r.len() == n + hits.len(),
{
    let items = Seq::new(n + hits.len(), |t: int| item_at(subject_side, n, t));
    assert(r.no_duplicates()) by {
        assert forall|i: int, j: int| 0 <= i < r.len() && 0 <= j < r.len() && i != j implies r[i] != r[j] by {
            if i < j {
                assert(key_lt(item_key(subject_side, r[i], hits), item_key(subject_side, r[j], hits)));
            } else {
                assert(key_lt(item_key(subject_side, r[j], hits), item_key(subject_side, r[i], hits)));
            }
        }
    }
    assert(items.no_duplicates()) by {
        assert forall|i: int, j: int|
            0 <= i < items.len() && 0 <= j < items.len() && i != j implies items[i] != items[j] by {
            if items[i] == items[j] {
                lemma_item_at_index_injective(subject_side, n, hits.len(), i, j);
            }
        }
    }
    assert(r.to_set() =~= items.to_set()) by {
        assert forall|x: Vertex| r.to_set().contains(x) <==> items.to_set().contains(x) by {
            if r.to_set().contains(x) {
                let i = choose|i: int| 0 <= i < r.len() && r[i] == x;
                assert(is_ring_item(subject_side, r[i], n, hits.len()));
                let t = lemma_item_has_index(subject_side, x, n, hits.len());
                assert(items[t] == x);
            }
            if items.to_set().contains(x) {
                let t = choose|t: int| 0 <= t < items.len() && items[t] == x;
                lemma_item_at_is_item(subject_side, n, hits.len(), t);
                assert(r.contains(x));
            }
        }
    }
    r.unique_seq_to_set();
    items.unique_seq_to_set();
}


/// Two rings that both satisfy `ring_ok` for the same polygon and crossings
/// are the same sequence: the ring is determined by its items and their keys.
pub proof fn lemma_ring_unique(
    subject_side: bool,
    r1: Seq<Vertex>,
    r2: Seq<Vertex>,
    n: nat,
    hits: Seq<Crossing>,
)
    requires
        ring_ok(subject_side, r1, n, hits),
        ring_ok(subject_side, r2, n, hits),
    ensures
        r1 == r2,
{
    assert forall|x: Vertex| r1.contains(x) <==> r2.contains(x) by {
        if r1.contains(x) {
            let i = choose|i: int| 0 <= i < r1.len() && r1[i] == x;
            assert(is_ring_item(subject_side, r1[i], n, hits.len()));
        }
        if r2.contains(x) {
            let i = choose|i: int| 0 <= i < r2.len() && r2[i] == x;
            assert(is_ring_item(subject_side, r2[i], n, hits.len()));
        }
    }
    lemma_sorted_same_items_equal(subject_side, r1, r2, hits);
}

spec fn sorted_by_key(subject_side: bool, r: Seq<Vertex>, hits: Seq<Crossing>) -> bool {
    forall|i: int, j: int|
        0 <= i < j < r.len() ==> key_lt(
            item_key(subject_side, #[trigger] r[i], hits),
            item_key(subject_side, #[trigger] r[j], hits),
        )
}

proof fn lemma_sorted_same_items_equal(
    subject_side: bool,
    a: Seq<Vertex>,
    b: Seq<Vertex>,
    hits: Seq<Crossing>,
)
    requires
        sorted_by_key(subject_side, a, hits),
        sorted_by_key(subject_side, b, hits),
        forall|x: Vertex| a.contains(x) <==> b.contains(x),
    ensures
        a == b,
    decreases a.len(),
{
    if a.len() == 0 {
        if b.len() > 0 {
            assert(b.contains(b[0]));
        }
        assert(a =~= b);
    } else if b.len() == 0 {
        assert(a.contains(a[0]));
    } else {
        assert(a.contains(a[0]));
        assert(b.contains(b[0]));
        let j = choose|j: int| 0 <= j < b.len() && b[j] == a[0];
        let i = choose|i: int| 0 <= i < a.len() && a[i] == b[0];
        if j > 0 {
            assert(key_lt(item_key(subject_side, b[0], hits), item_key(subject_side, b[j], hits)));
            if i > 0 {
                assert(key_lt(item_key(subject_side, a[0], hits), item_key(subject_side, a[i], hits)));
            }
        }
        assert(a[0] == b[0]);
        let a1 = a.drop_first();
        let b1 = b.drop_first();
        assert forall|x: Vertex| a1.contains(x) <==> b1.contains(x) by {
            if a1.contains(x) {
                let k = choose|k: int| 0 <= k < a1.len() && a1[k] == x;
                assert(a[k + 1] == x);
                assert(key_lt(item_key(subject_side, a[0], hits), item_key(subject_side, a[k + 1], hits)));
                assert(a.contains(x));
                let l = choose|l: int| 0 <= l < b.len() && b[l] == x;
                assert(l != 0);
                assert(b1[l - 1] == x);
            }
            if b1.contains(x) {
                let k = choose|k: int| 0 <= k < b1.len() && b1[k] == x;
                assert(b[k + 1] == x);
                assert(key_lt(item_key(subject_side, b[0], hits), item_key(subject_side, b[k + 1], hits)));
                assert(b.contains(x));
                let l = choose|l: int| 0 <= l < a.len() && a[l] == x;
                assert(l != 0);
                assert(a1[l - 1] == x);
            }
        }
        assert(sorted_by_key(subject_side, a1, hits)) by {
            assert forall|i: int, j: int| 0 <= i < j < a1.len() implies key_lt(
                item_key(subject_side, #[trigger] a1[i], hits),
                item_key(subject_side, #[trigger] a1[j], hits),
            ) by {
                assert(a1[i] == a[i + 1] && a1[j] == a[j + 1]);
            }
        }
        assert(sorted_by_key(subject_side, b1, hits)) by {
            assert forall|i: int, j: int| 0 <= i < j < b1.len() implies key_lt(
                item_key(subject_side, #[trigger] b1[i], hits),
                item_key(subject_side, #[trigger] b1[j], hits),
            ) by {
                assert(b1[i] == b[i + 1] && b1[j] == b[j + 1]);
            }
        }
        lemma_sorted_same_items_equal(subject_side, a1, b1, hits);
        assert(a =~= seq![a[0]] + a1);
        assert(b =~= seq![b[0]] + b1);
    }
}

/// The subject ring: subject vertices and crossings in ring order.
pub open spec fn subject_ring(ns: nat, hits: Seq<Crossing>) -> Seq<Vertex> {
    choose|r: Seq<Vertex>| ring_ok(true, r, ns, hits)
}

/// The clip ring: clip vertices and crossings in ring order.
pub open spec fn clip_ring(nc: nat, hits: Seq<Crossing>) -> Seq<Vertex> {
    choose|r: Seq<Vertex>| ring_ok(false, r, nc, hits)
}

/// Number of crossings among the first `p` entries of a ring.
pub open spec fn crossings_before(r: Seq<Vertex>, p: int) -> nat
    decreases p,
{
    if p <= 0 {
        0
    } else {
        crossings_before(r, p - 1) + if r[p - 1] is Crossing {
            1nat
        } else {
            0nat
        }
    }
}

/// Whether the walk is reversed on this ring's crossings for `op`: never for
/// an intersection, always for a union, on the subject only for a difference.
pub open spec fn flips(op: BoolOp, subject_side: bool) -> bool {
    match op {
        BoolOp::Intersection => false,
        BoolOp::Union => true,
        BoolOp::Difference => subject_side,
    }
}

/// The ring's first vertex is inside the other polygon iff `start_inside`;
/// each crossing passed toggles that. A crossing is an entry (walked forward)
/// iff the ring is outside just before it, flipped per `flips`.
pub open spec fn entry_at(r: Seq<Vertex>, p: int, start_inside: bool, flip: bool) -> bool {
    let inside = start_inside != (crossings_before(r, p) % 2 == 1);
    (!inside) != flip
}

/// The position one step along a ring of length `n`.
pub open spec fn step(n: int, p: int, forward: bool) -> int {
    if forward {
        (p + 1) % n
    } else {
        (p + n - 1) % n
    }
}

/// Walk the ring from position `p` in one direction, appending each entry
/// passed to `acc`, and stop on (and after appending) the next crossing.
/// Returns the extended sequence and that crossing's position.
pub open spec fn run(r: Seq<Vertex>, p: int, forward: bool, fuel: nat, acc: Seq<Vertex>) -> (Seq<Vertex>, int)
    decreases fuel,
{
    if fuel == 0 {
        (acc, p)
    } else {
        let q = step(r.len() as int, p, forward);
        if r[q] is Crossing {
            (acc.push(r[q]), q)
        } else {
            run(r, q, forward, (fuel - 1) as nat, acc.push(r[q]))
        }
    }
}

/// The crossing index of a ring entry (0 for a polygon vertex).
pub open spec fn hit_of(x: Vertex) -> int {
    match x {
        Vertex::Crossing(h) => h as int,
        _ => 0,
    }
}

/// The position of crossing `h` in ring `r`.
pub open spec fn cross_pos(r: Seq<Vertex>, h: int) -> int {
    choose|i: int| 0 <= i < r.len() && r[i] == Vertex::Crossing(h as usize)
}

/// The two rings with what the walk reads of them.
pub struct Rings {
    pub rs: Seq<Vertex>,
    pub rc: Seq<Vertex>,
    pub subject_start_inside: bool,
    pub clip_start_inside: bool,
    pub op: BoolOp,
}

pub open spec fn ring_of(g: Rings, subject_side: bool) -> Seq<Vertex> {
    if subject_side {
        g.rs
    } else {
        g.rc
    }
}

pub open spec fn entry_on(g: Rings, subject_side: bool, p: int) -> bool {
    if subject_side {
        entry_at(g.rs, p, g.subject_start_inside, flips(g.op, true))
    } else {
        entry_at(g.rc, p, g.clip_start_inside, flips(g.op, false))
    }
}

/// Trace one output loop. Standing on the crossing at position `p` of one
/// ring, mark it visited, walk that ring in the crossing's direction up to the
/// next crossing, and switch to the same crossing on the other ring. The loop
/// closes when a switch lands back on the starting crossing `start` of the
/// subject ring. `None` when it has not closed after `fuel` switches.
pub open spec fn walk(
    g: Rings,
    subject_side: bool,
    p: int,
    start: int,
    fuel: nat,
    acc: Seq<Vertex>,
    vis: Set<int>,
) -> Option<(Seq<Vertex>, Set<int>)>
    decreases fuel,
{
    if fuel == 0 {
        None
    } else {
        let r = ring_of(g, subject_side);
        let vis2 = vis.insert(hit_of(r[p]));
        let (acc2, q) = run(r, p, entry_on(g, subject_side, p), r.len(), acc);
        let h = hit_of(r[q]);
        if !subject_side && h == start {
            Some((acc2, vis2))
        } else {
            walk(
                g,
                !subject_side,
                cross_pos(ring_of(g, !subject_side), h),
                start,
                (fuel - 1) as nat,
                acc2,
                vis2,
            )
        }
    }
}

/// Seed a loop at every crossing of the subject ring, in ring order, that no
/// earlier loop has visited; keep the loops of three or more vertices.
pub open spec fn traces(
    g: Rings,
    fuel: nat,
    p: int,
    vis: Set<int>,
    acc: Seq<Seq<Vertex>>,
) -> Option<Seq<Seq<Vertex>>>
    decreases g.rs.len() - p,
{
    if p < 0 || p >= g.rs.len() {
        Some(acc)
    } else if g.rs[p] is Crossing && !vis.contains(hit_of(g.rs[p])) {
        match walk(g, true, p, hit_of(g.rs[p]), fuel, Seq::empty(), vis) {
            None => None,
            Some((lp, vis2)) => traces(
                g,
                fuel,
                p + 1,
                vis2,
                if lp.len() >= 3 {
                    acc.push(lp)
                } else {
                    acc
                },
            ),
        }
    } else {
        traces(g, fuel, p + 1, vis, acc)
    }
}

/// All vertices of the subject polygon, in order.
pub open spec fn whole_subject(ns: nat) -> Seq<Vertex> {
    Seq::new(ns, |i: int| Vertex::Subject(i as usize))
}

/// All vertices of the clip polygon, in order.
pub open spec fn whole_clip(nc: nat) -> Seq<Vertex> {
    Seq::new(nc, |i: int| Vertex::Clip(i as usize))
}

/// The result when no edges cross: each polygon is inside the other or apart.
pub open spec fn no_crossing_loops(
    ns: nat,
    nc: nat,
    subject_start_inside: bool,
    clip_start_inside: bool,
    op: BoolOp,
) -> Seq<Seq<Vertex>> {
    let s = whole_subject(ns);
    let c = whole_clip(nc);
    match op {
        BoolOp::Union => if subject_start_inside {
            seq![c]
        } else if clip_start_inside {
            seq![s]
        } else {
            seq![s, c]
        },
        BoolOp::Intersection => if subject_start_inside {
            seq![s]
        } else if clip_start_inside {
            seq![c]
        } else {
            seq![]
        },
        BoolOp::Difference => if subject_start_inside {
            seq![]
        } else {
            seq![s]
        },
    }
}

/// The loops that clipping yields, or `None` when a traced loop does not close.
pub open spec fn clip_result(
    ns: nat,
    nc: nat,
    hits: Seq<Crossing>,
    subject_start_inside: bool,
    clip_start_inside: bool,
    op: BoolOp,
) -> Option<Seq<Seq<Vertex>>> {
    if ns < 3 || nc < 3 {
        Some(seq![])
    } else if hits.len() == 0 {
        Some(no_crossing_loops(ns, nc, subject_start_inside, clip_start_inside, op))
    } else {
        let g = Rings {
            rs: subject_ring(ns, hits),
            rc: clip_ring(nc, hits),
            subject_start_inside,
            clip_start_inside,
            op,
        };
        traces(g, 2 * hits.len(), 0, Set::empty(), seq![])
    }
}

pub open spec fn loops_view(v: Seq<Vec<Vertex>>) -> Seq<Seq<Vertex>> {
    v.map_values(|l: Vec<Vertex>| l@)
}


/// The position of every crossing in a ring.
fn crossing_positions(r: &Vec<Vertex>, m: usize) -> (pos: Vec<usize>)
    requires
        forall|h: int| 0 <= h < m ==> #[trigger] r@.contains(Vertex::Crossing(h as usize)),
    ensures
        pos.len() == m,
        forall|h: int| 0 <= h < m ==> #[trigger] pos@[h] < r.len() && r@[pos@[h] as int] == Vertex::Crossing(h as usize),
{
    let mut pos: Vec<usize> = Vec::new();
    let mut k: usize = 0;
    while k < m
        invariant
            k <= m,
            pos.len() == k,
            forall|h: int| 0 <= h < k ==> #[trigger] pos@[h] == 0,
        decreases m - k,
    {
        pos.push(0);
        k = k + 1;
    }
    let mut p: usize = 0;
    while p < r.len()
        invariant
            p <= r.len(),
            pos.len() == m,
            forall|h: int|
                0 <= h < m && (exists|i: int| 0 <= i < p && r@[i] == Vertex::Crossing(h as usize))
                    ==> #[trigger] pos@[h] < r.len() && r@[pos@[h] as int] == Vertex::Crossing(h as usize),
        decreases r.len() - p,
    {
        match r[p] {
            Vertex::Crossing(h) => {
                if h < m {
                    pos.set(h, p);
                }
            },
            _ => {},
        }
        proof {
            assert forall|h: int|
                0 <= h < m && (exists|i: int| 0 <= i < p + 1 && r@[i] == Vertex::Crossing(h as usize))
                    implies #[trigger] pos@[h] < r.len() && r@[pos@[h] as int] == Vertex::Crossing(h as usize) by {
                let i = choose|i: int| 0 <= i < p + 1 && r@[i] == Vertex::Crossing(h as usize);
                if i < p {
                } else {
                }
            }
        }
        p = p + 1;
    }
    proof {
        assert forall|h: int| 0 <= h < m implies #[trigger] pos@[h] < r.len() && r@[pos@[h] as int] == Vertex::Crossing(h as usize) by {
            assert(r@.contains(Vertex::Crossing(h as usize)));
        }
    }
    pos
}

/// The entry flag of every ring position.
fn entry_flags(r: &Vec<Vertex>, start_inside: bool, flip: bool) -> (f: Vec<bool>)
    ensures
        f.len() == r.len(),
        forall|p: int| 0 <= p < r.len() ==> #[trigger] f@[p] == entry_at(r@, p, start_inside, flip),
{
    let mut f: Vec<bool> = Vec::new();
    let mut odd = false;
    let mut p: usize = 0;
    while p < r.len()
        invariant
            p <= r.len(),
            f.len() == p,
            odd == (crossings_before(r@, p as int) % 2 == 1),
            forall|i: int| 0 <= i < p ==> #[trigger] f@[i] == entry_at(r@, i, start_inside, flip),
        decreases r.len() - p,
    {
        let inside = start_inside != odd;
        f.push((!inside) != flip);
        if let Vertex::Crossing(_) = r[p] {
            odd = !odd;
        }
        p = p + 1;
    }
    f
}

/// Exec form of `run`, with the full ring length as fuel.
fn run_ring(r: &Vec<Vertex>, p: usize, forward: bool, acc: &mut Vec<Vertex>) -> (q: usize)
    requires
        p < r.len(),
    ensures
        q < r.len(),
        (final(acc)@, q as int) == run(r@, p as int, forward, r.len() as nat, old(acc)@),
{
    let n = r.len();
    let mut fuel: usize = n;
    let mut cur: usize = p;
    loop
        invariant
            n == r.len(),
            cur < n,
            fuel <= n,
            run(r@, cur as int, forward, fuel as nat, acc@) == run(
                r@,
                p as int,
                forward,
                n as nat,
                old(acc)@,
            ),
        decreases fuel,
    {
        if fuel == 0 {
            return cur;
        }
        let q = if forward {
            if cur + 1 == n {
                0
            } else {
                cur + 1
            }
        } else {
            if cur == 0 {
                n - 1
            } else {
                cur - 1
            }
        };
        proof {
            if forward {
                if cur + 1 == n {
                    vstd::arithmetic::div_mod::lemma_mod_self_0(n as int);
                } else {
                    vstd::arithmetic::div_mod::lemma_small_mod((cur + 1) as nat, n as nat);
                }
            } else {
                if cur == 0 {
                    vstd::arithmetic::div_mod::lemma_small_mod((n - 1) as nat, n as nat);
                } else {
                    vstd::arithmetic::div_mod::lemma_mod_add_multiples_vanish((cur - 1) as int, n as int);
                    vstd::arithmetic::div_mod::lemma_small_mod((cur - 1) as nat, n as nat);
                }
            }
        }
        assert(q as int == step(n as int, cur as int, forward));
        let x = r[q];
        acc.push(x);
        if let Vertex::Crossing(_) = x {
            return q;
        }
        cur = q;
        fuel = fuel - 1;
    }
}

fn exec_hit_of(x: Vertex) -> (h: usize)
    ensures
        h as int == hit_of(x),
{
    match x {
        Vertex::Crossing(h) => h,
        _ => 0,
    }
}

/// Where a crossing stands in the ring that holds it at `pos[h]`.
proof fn lemma_cross_pos(r: Seq<Vertex>, pos: Seq<usize>, subject_side: bool, n: nat, hits: Seq<Crossing>, h: int)
    requires
        ring_ok(subject_side, r, n, hits),
        0 <= h < hits.len(),
        pos.len() == hits.len(),
        pos[h] < r.len(),
        r[pos[h] as int] == Vertex::Crossing(h as usize),
    ensures
        cross_pos(r, h) == pos[h] as int,
{
    let i = cross_pos(r, h);
    assert(0 <= i < r.len() && r[i] == Vertex::Crossing(h as usize));
    let j = pos[h] as int;
    if i < j {
        assert(key_lt(item_key(subject_side, r[i], hits), item_key(subject_side, r[j], hits)));
    } else if j < i {
        assert(key_lt(item_key(subject_side, r[j], hits), item_key(subject_side, r[i], hits)));
    }
}


/// What the walk reads, in exec form, and how it matches the spec rings.
struct WalkCtx<'a> {
    rs: &'a Vec<Vertex>,
    rc: &'a Vec<Vertex>,
    pos_s: Vec<usize>,
    pos_c: Vec<usize>,
    flags_s: Vec<bool>,
    flags_c: Vec<bool>,
}

spec fn ctx_ok(c: &WalkCtx, g: Rings, ns: nat, nc: nat, hits: Seq<Crossing>) -> bool {
    &&& c.rs@ == g.rs
    &&& c.rc@ == g.rc
    &&& ring_ok(true, g.rs, ns, hits)
    &&& ring_ok(false, g.rc, nc, hits)
    &&& c.pos_s.len() == hits.len()
    &&& c.pos_c.len() == hits.len()
    &&& forall|h: int| 0 <= h < hits.len() ==> cross_pos(g.rs, h) == #[trigger] c.pos_s@[h] as int
    &&& forall|h: int| 0 <= h < hits.len() ==> cross_pos(g.rc, h) == #[trigger] c.pos_c@[h] as int
    &&& forall|h: int|
        0 <= h < hits.len() ==> #[trigger] c.pos_s@[h] < g.rs.len() && g.rs[c.pos_s@[h] as int]
            == Vertex::Crossing(h as usize)
    &&& forall|h: int|
        0 <= h < hits.len() ==> #[trigger] c.pos_c@[h] < g.rc.len() && g.rc[c.pos_c@[h] as int]
            == Vertex::Crossing(h as usize)
    &&& c.flags_s.len() == g.rs.len()
    &&& c.flags_c.len() == g.rc.len()
    &&& forall|p: int| 0 <= p < g.rs.len() ==> #[trigger] c.flags_s@[p] == entry_on(g, true, p)
    &&& forall|p: int| 0 <= p < g.rc.len() ==> #[trigger] c.flags_c@[p] == entry_on(g, false, p)
}

spec fn vis_matches(vis: Seq<bool>, gvis: Set<int>, m: nat) -> bool {
    &&& vis.len() == m
    &&& forall|h: int| 0 <= h < m ==> (#[trigger] vis[h] <==> gvis.contains(h))
}

/// Exec form of `walk` from a subject crossing.
fn walk_loop(
    c: &WalkCtx,
    start_p: usize,
    start_h: usize,
    fuel0: usize,
    vis: &mut Vec<bool>,
    Ghost(g): Ghost<Rings>,
    Ghost(ns): Ghost<nat>,
    Ghost(nc): Ghost<nat>,
    Ghost(hits): Ghost<Seq<Crossing>>,
    Ghost(gvis0): Ghost<Set<int>>,
) -> (r: Option<Vec<Vertex>>)
    requires
        ctx_ok(c, g, ns, nc, hits),
        hits.len() > 0,
        start_p < g.rs.len(),
        g.rs[start_p as int] == Vertex::Crossing(start_h),
        vis_matches(old(vis)@, gvis0, hits.len()),
    ensures
        r is None ==> walk(g, true, start_p as int, start_h as int, fuel0 as nat, Seq::empty(), gvis0) is None,
        r matches Some(lp) ==> exists|gv: Set<int>|
            walk(g, true, start_p as int, start_h as int, fuel0 as nat, Seq::empty(), gvis0) == Some(
                (lp@, gv),
            ) && vis_matches(final(vis)@, gv, hits.len()),
{
    let mut acc: Vec<Vertex> = Vec::new();
    let mut side = true;
    let mut p = start_p;
    let mut fuel = fuel0;
    let ghost mut gvis = gvis0;
    let ghost target = walk(g, true, start_p as int, start_h as int, fuel0 as nat, Seq::empty(), gvis0);
    let m = c.pos_s.len();
    loop
        invariant
            ctx_ok(c, g, ns, nc, hits),
            m == hits.len(),
            m > 0,
            p < ring_of(g, side).len(),
            ring_of(g, side)[p as int] is Crossing,
            hit_of(ring_of(g, side)[p as int]) < m,
            vis_matches(vis@, gvis, m as nat),
            walk(g, side, p as int, start_h as int, fuel as nat, acc@, gvis) == target,
            target == walk(g, true, start_p as int, start_h as int, fuel0 as nat, Seq::empty(), gvis0),
        decreases fuel,
    {
        if fuel == 0 {
            return None;
        }
        let r = if side {
            c.rs
        } else {
            c.rc
        };
        let here = exec_hit_of(r[p]);
        let ghost old_acc = acc@;
        let ghost old_gvis = gvis;
        vis.set(here, true);
        proof {
            gvis = gvis.insert(here as int);
            assert(vis_matches(vis@, gvis, m as nat));
        }
        let fwd = if side {
            c.flags_s[p]
        } else {
            c.flags_c[p]
        };
        let q = run_ring(r, p, fwd, &mut acc);
        let h = exec_hit_of(r[q]);
        proof {
            let x = ring_of(g, side)[q as int];
            assert(is_ring_item(side, x, if side { ns } else { nc }, hits.len()));
        }
        if !side && h == start_h {
            assert(walk(g, side, p as int, start_h as int, fuel as nat, old_acc, old_gvis) == Some(
                (acc@, gvis),
            ));
            return Some(acc);
        }
        let np = if side {
            c.pos_c[h]
        } else {
            c.pos_s[h]
        };
        side = !side;
        p = np;
        fuel = fuel - 1;
    }
}

/// Clip the subject polygon (`subject_len` vertices) against the clip polygon
/// (`clip_len` vertices) given the crossings of their edges, whether each
/// polygon's first vertex lies inside the other, and the operation.
///
/// With fewer than three vertices on either side the result is empty. With no
/// crossing, each polygon is whole: inside the other or apart. Otherwise the
/// crossings are threaded into both rings, marked entry or exit, and walked
/// into loops; loops of fewer than three vertices are dropped. `None` when a
/// walk does not come back to its starting crossing.
pub fn clip(
    subject_len: usize,
    clip_len: usize,
    crossings: &Vec<Crossing>,
    subject_start_inside: bool,
    clip_start_inside: bool,
    op: BoolOp,
) -> (r: Option<Vec<Vec<Vertex>>>)
    requires
        crossings_valid(subject_len as nat, clip_len as nat, crossings@),
        subject_len + crossings.len() <= usize::MAX,
        clip_len + crossings.len() <= usize::MAX,
        2 * crossings.len() <= usize::MAX,
    ensures
        r is None <==> clip_result(
            subject_len as nat,
            clip_len as nat,
            crossings@,
            subject_start_inside,
            clip_start_inside,
            op,
        ) is None,
        r matches Some(loops) ==> clip_result(
            subject_len as nat,
            clip_len as nat,
            crossings@,
            subject_start_inside,
            clip_start_inside,
            op,
        ) == Some(loops_view(loops@)),
        crossings.len() % 2 == 0 ==> r is Some,
        r matches Some(loops) ==> loops_well_formed(
            loops_view(loops@),
            subject_len as nat,
            clip_len as nat,
            crossings.len() as nat,
        ),
        subject_len < 3 || clip_len < 3 ==> (r matches Some(loops) && loops.len() == 0),
        r matches Some(loops) ==> loops.len() <= loop_bound(crossings.len() as nat),
        r matches Some(loops) ==> (distinct_edge_pairs(crossings@) ==> loops.len() <= subject_len
            * clip_len),
{
    if subject_len < 3 || clip_len < 3 {
        let empty: Vec<Vec<Vertex>> = Vec::new();
        assert(loops_view(empty@) =~= seq![]);
        return Some(empty);
    }
    let m = crossings.len();
    if m == 0 {
        let out = no_crossing(subject_len, clip_len, subject_start_inside, clip_start_inside, op);
        proof {
            let l = loops_view(out@);
            assert(loops_well_formed(l, subject_len as nat, clip_len as nat, 0)) by {
                assert forall|k: int| 0 <= k < l.len() implies (#[trigger] l[k]).len() >= 3 && forall|i: int|
                    0 <= i < l[k].len() ==> vertex_valid(#[trigger] l[k][i], subject_len as nat, clip_len as nat, 0) by {
                    assert(l[k] == whole_subject(subject_len as nat) || l[k] == whole_clip(clip_len as nat));
                }
            }
            let (a, b) = (subject_len as int, clip_len as int);
            assert(a * b >= 9) by (nonlinear_arith)
                requires
                    a >= 3,
                    b >= 3,
            ;
            assert(out.len() == l.len());
        }
        return Some(out);
    }
    let rs = build_ring(true, subject_len, crossings);
    let rc = build_ring(false, clip_len, crossings);
    let ghost g = Rings {
        rs: subject_ring(subject_len as nat, crossings@),
        rc: clip_ring(clip_len as nat, crossings@),
        subject_start_inside,
        clip_start_inside,
        op,
    };
    proof {
        lemma_ring_unique(true, rs@, g.rs, subject_len as nat, crossings@);
        lemma_ring_unique(false, rc@, g.rc, clip_len as nat, crossings@);
        assert forall|h: int| 0 <= h < m implies #[trigger] rs@.contains(Vertex::Crossing(h as usize)) by {
            assert(is_ring_item(true, Vertex::Crossing(h as usize), subject_len as nat, m as nat));
        }
        assert forall|h: int| 0 <= h < m implies #[trigger] rc@.contains(Vertex::Crossing(h as usize)) by {
            assert(is_ring_item(false, Vertex::Crossing(h as usize), clip_len as nat, m as nat));
        }
    }
    let pos_s = crossing_positions(&rs, m);
    let pos_c = crossing_positions(&rc, m);
    let flags_s = entry_flags(&rs, subject_start_inside, op != BoolOp::Intersection);
    let flags_c = entry_flags(&rc, clip_start_inside, op == BoolOp::Union);
    let ctx = WalkCtx { rs: &rs, rc: &rc, pos_s, pos_c, flags_s, flags_c };
    proof {
        assert forall|h: int| 0 <= h < m implies cross_pos(g.rs, h) == #[trigger] ctx.pos_s@[h] as int by {
            lemma_cross_pos(g.rs, ctx.pos_s@, true, subject_len as nat, crossings@, h);
        }
        assert forall|h: int| 0 <= h < m implies cross_pos(g.rc, h) == #[trigger] ctx.pos_c@[h] as int by {
            lemma_cross_pos(g.rc, ctx.pos_c@, false, clip_len as nat, crossings@, h);
        }
        assert(ctx_ok(&ctx, g, subject_len as nat, clip_len as nat, crossings@));
        lemma_ring_valid(true, g.rs, subject_len as nat, crossings@, subject_len as nat, clip_len as nat);
        lemma_ring_valid(false, g.rc, clip_len as nat, crossings@, subject_len as nat, clip_len as nat);
        lemma_traces_well_formed(g, (2 * m) as nat, 0, Set::empty(), seq![], subject_len as nat, clip_len as nat, m as nat);
        lemma_traces_count(g, (2 * m) as nat, 0, Set::empty(), seq![]);
        crate::closing::lemma_ring_crossing_count(true, g.rs, subject_len as nat, crossings@);
        if distinct_edge_pairs(crossings@) {
            lemma_pairs_bound(subject_len as nat, clip_len as nat, crossings@);
        }
        if m % 2 == 0 {
            crate::closing::lemma_even_crossings_close(g, subject_len as nat, clip_len as nat, crossings@);
        }
    }
    let mut vis: Vec<bool> = Vec::new();
    let mut k: usize = 0;
    while k < m
        invariant
            k <= m,
            vis.len() == k,
            forall|h: int| 0 <= h < k ==> !#[trigger] vis@[h],
        decreases m - k,
    {
        vis.push(false);
        k = k + 1;
    }
    let ghost mut gvis: Set<int> = Set::empty();
    let mut out: Vec<Vec<Vertex>> = Vec::new();
    let fuel = 2 * m;
    let n = rs.len();
    let mut p: usize = 0;
    let ghost target = traces(g, fuel as nat, 0, Set::empty(), seq![]);
    assert(loops_view(out@) =~= seq![]);
    while p < n
        invariant
            ctx_ok(&ctx, g, subject_len as nat, clip_len as nat, crossings@),
            n == g.rs.len(),
            rs@ == g.rs,
            m == crossings.len(),
            m > 0,
            p <= n,
            vis_matches(vis@, gvis, m as nat),
            traces(g, fuel as nat, p as int, gvis, loops_view(out@)) == target,
            target == traces(g, fuel as nat, 0, Set::empty(), seq![]),
            m % 2 == 0 ==> target is Some,
            fuel == 2 * m,
            subject_len >= 3,
            clip_len >= 3,
            g == (Rings {
                rs: subject_ring(subject_len as nat, crossings@),
                rc: clip_ring(clip_len as nat, crossings@),
                subject_start_inside,
                clip_start_inside,
                op,
            }),
        decreases n - p,
    {
        let x = rs[p];
        match x {
            Vertex::Crossing(h) => {
                proof {
                    assert(is_ring_item(true, g.rs[p as int], subject_len as nat, m as nat));
                }
                if !vis[h] {
                    let w = walk_loop(
                        &ctx,
                        p,
                        h,
                        fuel,
                        &mut vis,
                        Ghost(g),
                        Ghost(subject_len as nat),
                        Ghost(clip_len as nat),
                        Ghost(crossings@),
                        Ghost(gvis),
                    );
                    match w {
                        None => {
                            assert(hit_of(g.rs[p as int]) == h as int);
                            assert(!gvis.contains(h as int));
                            assert(traces(g, fuel as nat, p as int, gvis, loops_view(out@)) is None);
                            return None;
                        },
                        Some(lp) => {
                            proof {
                                let gv = choose|gv: Set<int>|
                                    walk(g, true, p as int, h as int, fuel as nat, Seq::empty(), gvis)
                                        == Some((lp@, gv)) && vis_matches(vis@, gv, m as nat);
                                gvis = gv;
                            }
                            if lp.len() >= 3 {
                                let ghost before = out@;
                                out.push(lp);
                                proof {
                                    assert(loops_view(out@) =~= loops_view(before).push(lp@));
                                }
                            }
                        },
                    }
                }
            },
            _ => {},
        }
        p = p + 1;
    }
    assert(target == Some(loops_view(out@)));
    assert(loops_view(out@).len() == out.len());
    Some(out)
}

/// Each polygon whole, when no edges cross.
fn no_crossing(
    ns: usize,
    nc: usize,
    subject_start_inside: bool,
    clip_start_inside: bool,
    op: BoolOp,
) -> (r: Vec<Vec<Vertex>>)
    ensures
        loops_view(r@) == no_crossing_loops(
            ns as nat,
            nc as nat,
            subject_start_inside,
            clip_start_inside,
            op,
        ),
{
    let s = whole(true, ns);
    let c = whole(false, nc);
    let mut out: Vec<Vec<Vertex>> = Vec::new();
    match op {
        BoolOp::Union => {
            if subject_start_inside {
                out.push(c);
            } else if clip_start_inside {
                out.push(s);
            } else {
                out.push(s);
                out.push(c);
            }
        },
        BoolOp::Intersection => {
            if subject_start_inside {
                out.push(s);
            } else if clip_start_inside {
                out.push(c);
            }
        },
        BoolOp::Difference => {
            if !subject_start_inside {
                out.push(s);
            }
        },
    }
    assert(loops_view(out@) =~= no_crossing_loops(
        ns as nat,
        nc as nat,
        subject_start_inside,
        clip_start_inside,
        op,
    ));
    out
}

fn whole(subject_side: bool, n: usize) -> (r: Vec<Vertex>)
    ensures
        subject_side ==> r@ == whole_subject(n as nat),
        !subject_side ==> r@ == whole_clip(n as nat),
{
    let mut r: Vec<Vertex> = Vec::new();
    let mut i: usize = 0;
    while i < n
        invariant
            i <= n,
            r.len() == i,
            forall|k: int|
                0 <= k < i ==> #[trigger] r@[k] == if subject_side {
                    Vertex::Subject(k as usize)
                } else {
                    Vertex::Clip(k as usize)
                },
        decreases n - i,
    {
        if subject_side {
            r.push(Vertex::Subject(i));
        } else {
            r.push(Vertex::Clip(i));
        }
        i = i + 1;
    }
    assert(subject_side ==> r@ =~= whole_subject(n as nat));
    assert(!subject_side ==> r@ =~= whole_clip(n as nat));
    r
}


/// A vertex that names an existing subject vertex, clip vertex or crossing.
pub open spec fn vertex_valid(v: Vertex, ns: nat, nc: nat, m: nat) -> bool {
    match v {
        Vertex::Subject(i) => i < ns,
        Vertex::Clip(j) => j < nc,
        Vertex::Crossing(h) => h < m,
    }
}

/// Every loop has at least three vertices, each naming an existing vertex.
pub open spec fn loops_well_formed(loops: Seq<Seq<Vertex>>, ns: nat, nc: nat, m: nat) -> bool {
    forall|k: int|
        0 <= k < loops.len() ==> (#[trigger] loops[k]).len() >= 3 && forall|i: int|
            0 <= i < loops[k].len() ==> vertex_valid(#[trigger] loops[k][i], ns, nc, m)
}

spec fn all_valid(s: Seq<Vertex>, ns: nat, nc: nat, m: nat) -> bool {
    forall|i: int| 0 <= i < s.len() ==> vertex_valid(#[trigger] s[i], ns, nc, m)
}

proof fn lemma_run_valid(r: Seq<Vertex>, p: int, forward: bool, fuel: nat, acc: Seq<Vertex>, ns: nat, nc: nat, m: nat)
    requires
        r.len() > 0,
        all_valid(r, ns, nc, m),
        all_valid(acc, ns, nc, m),
    ensures
        all_valid(run(r, p, forward, fuel, acc).0, ns, nc, m),
    decreases fuel,
{
    if fuel > 0 {
        let q = step(r.len() as int, p, forward);
        assert(0 <= q < r.len());
        assert(all_valid(acc.push(r[q]), ns, nc, m)) by {
            assert forall|i: int| 0 <= i < acc.push(r[q]).len() implies vertex_valid(#[trigger] acc.push(r[q])[i], ns, nc, m) by {
                if i < acc.len() {
                    assert(acc.push(r[q])[i] == acc[i]);
                }
            }
        }
        if !(r[q] is Crossing) {
            lemma_run_valid(r, q, forward, (fuel - 1) as nat, acc.push(r[q]), ns, nc, m);
        }
    }
}

proof fn lemma_walk_valid(g: Rings, subject_side: bool, p: int, start: int, fuel: nat, acc: Seq<Vertex>, vis: Set<int>, ns: nat, nc: nat, m: nat)
    requires
        g.rs.len() > 0,
        g.rc.len() > 0,
        all_valid(g.rs, ns, nc, m),
        all_valid(g.rc, ns, nc, m),
        all_valid(acc, ns, nc, m),
    ensures
        walk(g, subject_side, p, start, fuel, acc, vis) matches Some((lp, _)) ==> all_valid(lp, ns, nc, m),
    decreases fuel,
{
    if fuel > 0 {
        let r = ring_of(g, subject_side);
        let vis2 = vis.insert(hit_of(r[p]));
        lemma_run_valid(r, p, entry_on(g, subject_side, p), r.len(), acc, ns, nc, m);
        let (acc2, q) = run(r, p, entry_on(g, subject_side, p), r.len(), acc);
        let h = hit_of(r[q]);
        if !(!subject_side && h == start) {
            lemma_walk_valid(g, !subject_side, cross_pos(ring_of(g, !subject_side), h), start, (fuel - 1) as nat, acc2, vis2, ns, nc, m);
        }
    }
}

proof fn lemma_traces_well_formed(g: Rings, fuel: nat, p: int, vis: Set<int>, acc: Seq<Seq<Vertex>>, ns: nat, nc: nat, m: nat)
    requires
        g.rs.len() > 0,
        g.rc.len() > 0,
        all_valid(g.rs, ns, nc, m),
        all_valid(g.rc, ns, nc, m),
        loops_well_formed(acc, ns, nc, m),
    ensures
        traces(g, fuel, p, vis, acc) matches Some(l) ==> loops_well_formed(l, ns, nc, m),
    decreases g.rs.len() - p,
{
    if 0 <= p < g.rs.len() {
        if g.rs[p] is Crossing && !vis.contains(hit_of(g.rs[p])) {
            lemma_walk_valid(g, true, p, hit_of(g.rs[p]), fuel, Seq::empty(), vis, ns, nc, m);
            match walk(g, true, p, hit_of(g.rs[p]), fuel, Seq::empty(), vis) {
                None => {},
                Some((lp, vis2)) => {
                    let acc2 = if lp.len() >= 3 { acc.push(lp) } else { acc };
                    assert(loops_well_formed(acc2, ns, nc, m)) by {
                        assert forall|k: int| 0 <= k < acc2.len() implies (#[trigger] acc2[k]).len() >= 3 && forall|i: int|
                            0 <= i < acc2[k].len() ==> vertex_valid(#[trigger] acc2[k][i], ns, nc, m) by {
                            if k < acc.len() {
                                assert(acc2[k] == acc[k]);
                            }
                        }
                    }
                    lemma_traces_well_formed(g, fuel, p + 1, vis2, acc2, ns, nc, m);
                },
            }
        } else {
            lemma_traces_well_formed(g, fuel, p + 1, vis, acc, ns, nc, m);
        }
    }
}

proof fn lemma_ring_valid(subject_side: bool, r: Seq<Vertex>, n: nat, hits: Seq<Crossing>, ns: nat, nc: nat)
    requires
        ring_ok(subject_side, r, n, hits),
        subject_side ==> n == ns,
        !subject_side ==> n == nc,
    ensures
        all_valid(r, ns, nc, hits.len()),
{
    assert forall|i: int| 0 <= i < r.len() implies vertex_valid(#[trigger] r[i], ns, nc, hits.len()) by {
        assert(is_ring_item(subject_side, r[i], n, hits.len()));
    }
}

/// No two crossings lie on the same pair of edges, as when two straight
/// edges cross at most once.
pub open spec fn distinct_edge_pairs(hits: Seq<Crossing>) -> bool {
    forall|a: int, b: int|
        0 <= a < b < hits.len() ==> ((#[trigger] hits[a]).subject_edge != (#[trigger] hits[b]).subject_edge
            || hits[a].clip_edge != hits[b].clip_edge)
}

/// The most loops that clipping can give: one per crossing, and two when
/// nothing crosses.
pub open spec fn loop_bound(m: nat) -> nat {
    if m == 0 {
        2
    } else {
        m
    }
}

proof fn lemma_traces_count(g: Rings, fuel: nat, p: int, vis: Set<int>, acc: Seq<Seq<Vertex>>)
    requires
        0 <= p <= g.rs.len(),
    ensures
        traces(g, fuel, p, vis, acc) matches Some(l) ==> l.len() + crossings_before(g.rs, p)
            <= acc.len() + crossings_before(g.rs, g.rs.len() as int),
    decreases g.rs.len() - p,
{
    if p < g.rs.len() {
        assert(crossings_before(g.rs, p + 1) == crossings_before(g.rs, p) + if g.rs[p] is Crossing {
            1nat
        } else {
            0nat
        });
        if g.rs[p] is Crossing && !vis.contains(hit_of(g.rs[p])) {
            match walk(g, true, p, hit_of(g.rs[p]), fuel, Seq::empty(), vis) {
                None => {},
                Some((lp, vis2)) => {
                    let acc2 = if lp.len() >= 3 {
                        acc.push(lp)
                    } else {
                        acc
                    };
                    lemma_traces_count(g, fuel, p + 1, vis2, acc2);
                },
            }
        } else {
            lemma_traces_count(g, fuel, p + 1, vis, acc);
        }
    }
}

/// With one crossing per pair of edges there are at most as many crossings
/// as pairs of edges.
pub proof fn lemma_pairs_bound(ns: nat, nc: nat, hits: Seq<Crossing>)
    requires
        crossings_valid(ns, nc, hits),
        distinct_edge_pairs(hits),
    ensures
        hits.len() <= ns * nc,
{
    let m = hits.len() as int;
    let top = (ns * nc) as int;
    let dom = vstd::set_lib::set_int_range(0, m);
    let f = |h: int| hits[h].subject_edge * nc + hits[h].clip_edge;
    let img = dom.map(f);
    vstd::set_lib::lemma_int_range(0, m);
    vstd::set_lib::lemma_int_range(0, top);
    assert(vstd::relations::injective_on(f, dom)) by {
        assert forall|a: int, b: int| dom.contains(a) && dom.contains(b) && #[trigger] f(a) == #[trigger] f(b) implies a == b by {
            let (sa, ca, sb, cb) = (hits[a].subject_edge as int, hits[a].clip_edge as int, hits[b].subject_edge as int, hits[b].clip_edge as int);
            assert(sa * nc + ca == sb * nc + cb);
            assert(0 <= ca < nc && 0 <= cb < nc);
            assert(sa == sb && ca == cb) by (nonlinear_arith)
                requires
                    sa * nc + ca == sb * nc + cb,
                    0 <= ca < nc,
                    0 <= cb < nc,
                    sa >= 0,
                    sb >= 0,
            ;
            if a < b {
                assert(hits[a].subject_edge != hits[b].subject_edge || hits[a].clip_edge != hits[b].clip_edge);
            } else if b < a {
                assert(hits[b].subject_edge != hits[a].subject_edge || hits[b].clip_edge != hits[a].clip_edge);
            }
        }
    }
    vstd::set_lib::lemma_map_size(dom, img, f);
    assert(img.subset_of(vstd::set_lib::set_int_range(0, top))) by {
        assert forall|v: int| img.contains(v) implies vstd::set_lib::set_int_range(0, top).contains(v) by {
            let h = choose|h: int| dom.contains(h) && f(h) == v;
            let (sh, ch) = (hits[h].subject_edge as int, hits[h].clip_edge as int);
            assert(0 <= sh < ns && 0 <= ch < nc);
            assert(0 <= sh * nc + ch < ns * nc) by (nonlinear_arith)
                requires
                    0 <= sh < ns,
                    0 <= ch < nc,
            ;
        }
    }
    vstd::set_lib::lemma_len_subset(img, vstd::set_lib::set_int_range(0, top));
}


/// `l` is the subject polygon itself: its vertices, all of them, in order.
pub open spec fn is_whole_subject(l: Seq<Vertex>, ns: nat) -> bool {
    l.len() == ns && forall|i: int| 0 <= i < ns ==> l[i] == Vertex::Subject(i as usize)
}

/// `l` is the clip polygon itself: its vertices, all of them, in order.
pub open spec fn is_whole_clip(l: Seq<Vertex>, nc: nat) -> bool {
    l.len() == nc && forall|i: int| 0 <= i < nc ==> l[i] == Vertex::Clip(i as usize)
}

/// When no edges cross, each polygon lies inside the other or apart, and
/// the result is made of whole polygons: a difference keeps the subject
/// unless it lies inside the clip polygon; an intersection keeps the polygon
/// that lies inside the other, or nothing; a union keeps the outer polygon,
/// or both when they lie apart.
pub proof fn lemma_no_crossing_results(ns: nat, nc: nat, s_in: bool, c_in: bool)
    requires
        ns >= 3,
        nc >= 3,
    ensures
        !s_in ==> (clip_result(ns, nc, seq![], s_in, c_in, BoolOp::Difference) matches Some(l) && l.len()
            == 1 && is_whole_subject(l[0], ns)),
        s_in ==> clip_result(ns, nc, seq![], s_in, c_in, BoolOp::Difference) == Some(
            Seq::<Seq<Vertex>>::empty(),
        ),
        s_in ==> (clip_result(ns, nc, seq![], s_in, c_in, BoolOp::Intersection) matches Some(l) && l.len()
            == 1 && is_whole_subject(l[0], ns)),
        !s_in && c_in ==> (clip_result(ns, nc, seq![], s_in, c_in, BoolOp::Intersection) matches Some(l)
            && l.len() == 1 && is_whole_clip(l[0], nc)),
        !s_in && !c_in ==> clip_result(ns, nc, seq![], s_in, c_in, BoolOp::Intersection) == Some(
            Seq::<Seq<Vertex>>::empty(),
        ),
        s_in ==> (clip_result(ns, nc, seq![], s_in, c_in, BoolOp::Union) matches Some(l) && l.len() == 1
            && is_whole_clip(l[0], nc)),
        !s_in && c_in ==> (clip_result(ns, nc, seq![], s_in, c_in, BoolOp::Union) matches Some(l) && l.len()
            == 1 && is_whole_subject(l[0], ns)),
        !s_in && !c_in ==> (clip_result(ns, nc, seq![], s_in, c_in, BoolOp::Union) matches Some(l)
            && l.len() == 2 && is_whole_subject(l[0], ns) && is_whole_clip(l[1], nc)),
{
    assert(is_whole_subject(whole_subject(ns), ns));
    assert(is_whole_clip(whole_clip(nc), nc));
    assert(Seq::<Seq<Vertex>>::empty() =~= seq![]);
}

} // verus!
