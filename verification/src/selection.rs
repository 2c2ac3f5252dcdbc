//! Window, crossing, fence and predicate selection over a drawing's editable
//! entities. The geometric tests that need curve geometry (whether a curve
//! touches the crossing window, whether a fence segment crosses a curve) are
//! computed by the caller and handed in, one answer per entity.
use vstd::prelude::*;
use crate::document::{unique_ids, bbox_inside_spec, bbox_intersects_spec, editable, BoundingBox, Document, Entity, EntityId, KindTag, Layer};

verus! {

/// The ids, in drawing order, of the editable entities among `ents` whose
/// index satisfies `keep`.
pub open spec fn picked(ents: Seq<Entity>, layers: Seq<Layer>, keep: spec_fn(int) -> bool) -> Seq<EntityId>
    decreases ents.len(),
{
    if ents.len() == 0 {
        seq![]
    } else {
        let i = ents.len() - 1;
        let rest = picked(ents.drop_last(), layers, keep);
        if editable(ents[i], layers) && keep(i) {
            rest.push(ents[i].id)
        } else {
            rest
        }
    }
}

/// Window selection keeps an entity whose extent lies entirely in the window.
pub open spec fn window_keep(ents: Seq<Entity>, rect: BoundingBox) -> spec_fn(int) -> bool {
    |i: int| ents[i].bbox matches Some(bb) && bbox_inside_spec(bb, rect)
}

/// Crossing selection keeps a curve that touches the window (as the caller
/// found) and any other entity whose extent meets the window.
pub open spec fn crossing_keep(ents: Seq<Entity>, rect: BoundingBox, touches: Seq<bool>) -> spec_fn(int) -> bool {
    |i: int|
        if ents[i].kind == KindTag::Curve {
            touches[i]
        } else {
            ents[i].bbox matches Some(bb) && bbox_intersects_spec(bb, rect)
        }
}

/// Fence selection keeps a curve that some fence segment crosses (as the
/// caller found).
pub open spec fn fence_keep(ents: Seq<Entity>, crossed: Seq<bool>) -> spec_fn(int) -> bool {
    |i: int| ents[i].kind == KindTag::Curve && crossed[i]
}

/// `inner` lies within `outer`.
pub fn bbox_inside(inner: &BoundingBox, outer: &BoundingBox) -> (r: bool)
    ensures
        r == bbox_inside_spec(*inner, *outer),
{
    inner.min_x >= outer.min_x && inner.max_x <= outer.max_x && inner.min_y >= outer.min_y
        && inner.max_y <= outer.max_y
}

proof fn lemma_picked_step(ents: Seq<Entity>, layers: Seq<Layer>, keep: spec_fn(int) -> bool, i: int)
    requires
        0 <= i < ents.len(),
    ensures
        picked(ents.take(i + 1), layers, keep) == if editable(ents[i], layers) && keep(i) {
            picked(ents.take(i), layers, keep).push(ents[i].id)
        } else {
            picked(ents.take(i), layers, keep)
        },
{
    assert(ents.take(i + 1).drop_last() =~= ents.take(i));
}

/// The ids of the editable entities that lie entirely inside `rect`.
pub fn select_window(doc: &Document, rect: &BoundingBox) -> (r: Vec<EntityId>)
    ensures
        r@ == picked(doc.entities@, doc.layers@, window_keep(doc.entities@, *rect)),
        unique_ids(doc.entities@) ==> r@.no_duplicates(),
{
    let ghost keep = window_keep(doc.entities@, *rect);
    let mut out: Vec<EntityId> = Vec::new();
    let mut i: usize = 0;
    while i < doc.entities.len()
        invariant
            i <= doc.entities.len(),
            keep == window_keep(doc.entities@, *rect),
            out@ == picked(doc.entities@.take(i as int), doc.layers@, keep),
        decreases doc.entities.len() - i,
    {
        let e = &doc.entities[i];
        let k = match &e.bbox {
            Some(bb) => bbox_inside(bb, rect),
            None => false,
        };
        proof {
            lemma_picked_step(doc.entities@, doc.layers@, keep, i as int);
        }
        if doc.is_editable(e) && k {
            out.push(e.id);
        }
        i = i + 1;
    }
    assert(doc.entities@.take(i as int) =~= doc.entities@);
    proof {
        if unique_ids(doc.entities@) {
            lemma_picked_no_dup(doc.entities@, doc.layers@, keep);
        }
    }
    out
}

/// The ids of the editable entities that cross or lie in `rect`. For a curve
/// entity `touches[i]` says whether curve `i` touches the window; any other
/// entity counts when its extent meets the window.
pub fn select_crossing(doc: &Document, rect: &BoundingBox, touches: &Vec<bool>) -> (r: Vec<EntityId>)
    requires
        touches.len() == doc.entities.len(),
    ensures
        r@ == picked(doc.entities@, doc.layers@, crossing_keep(doc.entities@, *rect, touches@)),
        unique_ids(doc.entities@) ==> r@.no_duplicates(),
{
    let ghost keep = crossing_keep(doc.entities@, *rect, touches@);
    let mut out: Vec<EntityId> = Vec::new();
    let mut i: usize = 0;
    while i < doc.entities.len()
        invariant
            i <= doc.entities.len(),
            touches.len() == doc.entities.len(),
            keep == crossing_keep(doc.entities@, *rect, touches@),
            out@ == picked(doc.entities@.take(i as int), doc.layers@, keep),
        decreases doc.entities.len() - i,
    {
        let e = &doc.entities[i];
        let k = match e.kind {
            KindTag::Curve => touches[i],
            _ => match &e.bbox {
                Some(bb) => bb.intersects(rect),
                None => false,
            },
        };
        proof {
            lemma_picked_step(doc.entities@, doc.layers@, keep, i as int);
        }
        if doc.is_editable(e) && k {
            out.push(e.id);
        }
        i = i + 1;
    }
    assert(doc.entities@.take(i as int) =~= doc.entities@);
    proof {
        if unique_ids(doc.entities@) {
            lemma_picked_no_dup(doc.entities@, doc.layers@, keep);
        }
    }
    out
}

/// The ids of the editable curve entities that a fence of `fence_len` points
/// crosses; `crossed[i]` says whether some fence segment crosses curve `i`.
/// A fence of fewer than two points selects nothing.
pub fn select_fence(doc: &Document, fence_len: usize, crossed: &Vec<bool>) -> (r: Vec<EntityId>)
    requires
        crossed.len() == doc.entities.len(),
    ensures
        fence_len < 2 ==> r@ == Seq::<EntityId>::empty(),
        fence_len >= 2 ==> r@ == picked(doc.entities@, doc.layers@, fence_keep(doc.entities@, crossed@)),
        unique_ids(doc.entities@) ==> r@.no_duplicates(),
{
    if fence_len < 2 {
        return Vec::new();
    }
    let ghost keep = fence_keep(doc.entities@, crossed@);
    let mut out: Vec<EntityId> = Vec::new();
    let mut i: usize = 0;
    while i < doc.entities.len()
        invariant
            i <= doc.entities.len(),
            crossed.len() == doc.entities.len(),
            keep == fence_keep(doc.entities@, crossed@),
            out@ == picked(doc.entities@.take(i as int), doc.layers@, keep),
        decreases doc.entities.len() - i,
    {
        let e = &doc.entities[i];
        let k = match e.kind {
            KindTag::Curve => crossed[i],
            _ => false,
        };
        proof {
            lemma_picked_step(doc.entities@, doc.layers@, keep, i as int);
        }
        if doc.is_editable(e) && k {
            out.push(e.id);
        }
        i = i + 1;
    }
    assert(doc.entities@.take(i as int) =~= doc.entities@);
    proof {
        if unique_ids(doc.entities@) {
            lemma_picked_no_dup(doc.entities@, doc.layers@, keep);
        }
    }
    out
}

/// `answers[i]` is an answer `pred` may give on each editable entity `i`.
pub open spec fn answered_by<F: Fn(&Entity) -> bool>(
    pred: F,
    ents: Seq<Entity>,
    layers: Seq<Layer>,
    answers: Seq<bool>,
) -> bool {
    answers.len() == ents.len() && forall|i: int|
        0 <= i < ents.len() && editable(ents[i], layers) ==> pred.ensures(
            (&ents[i],),
            #[trigger] answers[i],
        )
}

/// The ids of the editable entities for which `pred` returns `true`. `pred`
/// is called once on each editable entity, in drawing order; the result
/// follows the answers it gave.
pub fn select_by<F: Fn(&Entity) -> bool>(doc: &Document, pred: F) -> (r: Vec<EntityId>)
    requires
        forall|i: int| 0 <= i < doc.entities@.len() ==> pred.requires((&doc.entities@[i],)),
    ensures
        exists|answers: Seq<bool>|
            #[trigger] answered_by(pred, doc.entities@, doc.layers@, answers) && r@ == picked(
                doc.entities@,
                doc.layers@,
                |i: int| answers[i],
            ),
        unique_ids(doc.entities@) ==> r@.no_duplicates(),
{
    let ghost mut answers: Seq<bool> = Seq::new(doc.entities@.len(), |i: int| false);
    let mut out: Vec<EntityId> = Vec::new();
    let mut i: usize = 0;
    while i < doc.entities.len()
        invariant
            i <= doc.entities.len(),
            answers.len() == doc.entities@.len(),
            forall|j: int| 0 <= j < doc.entities@.len() ==> pred.requires((&doc.entities@[j],)),
            forall|j: int|
                0 <= j < i && editable(doc.entities@[j], doc.layers@) ==> pred.ensures(
                    (&doc.entities@[j],),
                    #[trigger] answers[j],
                ),
            out@ == picked(doc.entities@.take(i as int), doc.layers@, |j: int| answers[j]),
        decreases doc.entities.len() - i,
    {
        let e = &doc.entities[i];
        let ghost before = answers;
        if doc.is_editable(e) {
            let k = pred(e);
            proof {
                answers = answers.update(i as int, k);
            }
            if k {
                out.push(e.id);
            }
        }
        proof {
            assert forall|j: int| 0 <= j < i implies answers[j] == before[j] by {}
            lemma_picked_prefix_same(doc.entities@, doc.layers@, before, answers, i as int);
            lemma_picked_step(doc.entities@, doc.layers@, |j: int| answers[j], i as int);
        }
        i = i + 1;
    }
    assert(doc.entities@.take(i as int) =~= doc.entities@);
    assert(answered_by(pred, doc.entities@, doc.layers@, answers));
    proof {
        if unique_ids(doc.entities@) {
            lemma_picked_no_dup(doc.entities@, doc.layers@, |j: int| answers[j]);
        }
    }
    out
}

/// `picked` over a prefix reads only the answers within that prefix.
proof fn lemma_picked_prefix_same(ents: Seq<Entity>, layers: Seq<Layer>, a: Seq<bool>, b: Seq<bool>, i: int)
    requires
        0 <= i <= ents.len(),
        forall|j: int| 0 <= j < i ==> a[j] == b[j],
    ensures
        picked(ents.take(i), layers, |j: int| a[j]) == picked(ents.take(i), layers, |j: int| b[j]),
    decreases i,
{
    if i > 0 {
        lemma_picked_prefix_same(ents, layers, a, b, i - 1);
        lemma_picked_step(ents, layers, |j: int| a[j], i - 1);
        lemma_picked_step(ents, layers, |j: int| b[j], i - 1);
    }
}

proof fn lemma_picked_mono(
    ents: Seq<Entity>,
    layers: Seq<Layer>,
    k1: spec_fn(int) -> bool,
    k2: spec_fn(int) -> bool,
    id: EntityId,
)
    requires
        forall|i: int| 0 <= i < ents.len() && #[trigger] k1(i) ==> k2(i),
        picked(ents, layers, k1).contains(id),
    ensures
        picked(ents, layers, k2).contains(id),
    decreases ents.len(),
{
    let n = ents.len() - 1;
    let r1 = picked(ents.drop_last(), layers, k1);
    let r2 = picked(ents.drop_last(), layers, k2);
    if r1.contains(id) {
        lemma_picked_mono(ents.drop_last(), layers, k1, k2, id);
        let j = choose|j: int| 0 <= j < r2.len() && r2[j] == id;
        if editable(ents[n], layers) && k2(n) {
            assert(r2.push(ents[n].id)[j] == id);
        }
    } else {
        assert(editable(ents[n], layers) && k1(n));
        assert(picked(ents, layers, k1) == r1.push(ents[n].id));
        assert(id == ents[n].id);
        assert(picked(ents, layers, k2) == r2.push(ents[n].id));
        assert(picked(ents, layers, k2)[r2.len() as int] == id);
    }
}

/// Every entity that window selection takes, crossing selection takes too,
/// when each extent is a proper box and the caller's touch answers count
/// a curve whose extent lies in the window as touching it.
pub proof fn lemma_window_within_crossing(
    ents: Seq<Entity>,
    layers: Seq<Layer>,
    rect: BoundingBox,
    touches: Seq<bool>,
    id: EntityId,
)
    requires
        touches.len() == ents.len(),
        forall|i: int|
            0 <= i < ents.len() ==> ((#[trigger] ents[i]).bbox matches Some(bb) ==> bb.min_x
                <= bb.max_x && bb.min_y <= bb.max_y),
        forall|i: int|
            0 <= i < ents.len() && (#[trigger] ents[i]).kind == KindTag::Curve && window_keep(
                ents,
                rect,
            )(i) ==> touches[i],
        picked(ents, layers, window_keep(ents, rect)).contains(id),
    ensures
        picked(ents, layers, crossing_keep(ents, rect, touches)).contains(id),
{
    assert forall|i: int| 0 <= i < ents.len() && #[trigger] window_keep(ents, rect)(i) implies crossing_keep(
        ents,
        rect,
        touches,
    )(i) by {
        let e = ents[i];
        if e.kind != KindTag::Curve {
            let bb = e.bbox->0;
            assert(bbox_intersects_spec(bb, rect));
        }
    }
    lemma_picked_mono(ents, layers, window_keep(ents, rect), crossing_keep(ents, rect, touches), id);
}

/// `picked` lists ids of `ents` only, and none twice when the ids of
/// `ents` are distinct.
pub proof fn lemma_picked_no_dup(ents: Seq<Entity>, layers: Seq<Layer>, keep: spec_fn(int) -> bool)
    requires
        unique_ids(ents),
    ensures
        picked(ents, layers, keep).no_duplicates(),
        forall|x: EntityId|
            #[trigger] picked(ents, layers, keep).contains(x) ==> exists|i: int|
                0 <= i < ents.len() && ents[i].id == x,
    decreases ents.len(),
{
    if ents.len() > 0 {
        let n = ents.len() - 1;
        let dl = ents.drop_last();
        assert(unique_ids(dl));
        lemma_picked_no_dup(dl, layers, keep);
        let r = picked(dl, layers, keep);
        assert forall|x: EntityId| #[trigger] picked(ents, layers, keep).contains(x) implies exists|i: int|
            0 <= i < ents.len() && ents[i].id == x by {
            if r.contains(x) {
                let i = choose|i: int| 0 <= i < dl.len() && dl[i].id == x;
                assert(ents[i] == dl[i]);
            } else {
                assert(ents[n].id == x);
            }
        }
        if editable(ents[n], layers) && keep(n) {
            assert(!r.contains(ents[n].id)) by {
                if r.contains(ents[n].id) {
                    let i = choose|i: int| 0 <= i < dl.len() && dl[i].id == ents[n].id;
                    assert(ents[i] == dl[i]);
                }
            }
            assert forall|a: int, b: int| 0 <= a < b < r.push(ents[n].id).len() implies r.push(ents[n].id)[a]
                != r.push(ents[n].id)[b] by {
                if b == r.len() {
                    assert(r.contains(r[a]));
                }
            }
        }
    }
}

} // verus!
