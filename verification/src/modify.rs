//! Clicks on the canvas while a modify tool that works on picked entities
//! is active: what the tool remembers and which edit the click asks for.
//! The edits themselves (and the picking, which needs curve geometry) are
//! done by the caller.
use vstd::prelude::*;
use crate::document::{Document, Entity, EntityId};

verus! {

/// The state of a tool that works on clicked entities.
pub enum PickTool {
    Trim,
    Extend,
    Hatch,
    Offset { source: Option<EntityId> },
    Fillet { first: Option<EntityId> },
    Chamfer { first: Option<EntityId> },
    CircleTtr { first: Option<EntityId> },
    CircleTtt { picks: Vec<EntityId> },
    TangentLine,
    /// `placed` counts the stretch's points placed so far: two window
    /// corners, then the base point; `ids` are the entities it moves.
    Stretch { placed: usize, ids: Vec<EntityId> },
}

/// A tool state as contracts see it.
pub enum PickToolModel {
    Trim,
    Extend,
    Hatch,
    Offset { source: Option<EntityId> },
    Fillet { first: Option<EntityId> },
    Chamfer { first: Option<EntityId> },
    CircleTtr { first: Option<EntityId> },
    CircleTtt { picks: Seq<EntityId> },
    TangentLine,
    Stretch { placed: usize, ids: Seq<EntityId> },
}

impl View for PickTool {
    type V = PickToolModel;

    open spec fn view(&self) -> PickToolModel {
        match self {
            PickTool::Trim => PickToolModel::Trim,
            PickTool::Extend => PickToolModel::Extend,
            PickTool::Hatch => PickToolModel::Hatch,
            PickTool::Offset { source } => PickToolModel::Offset { source: *source },
            PickTool::Fillet { first } => PickToolModel::Fillet { first: *first },
            PickTool::Chamfer { first } => PickToolModel::Chamfer { first: *first },
            PickTool::CircleTtr { first } => PickToolModel::CircleTtr { first: *first },
            PickTool::CircleTtt { picks } => PickToolModel::CircleTtt { picks: picks@ },
            PickTool::TangentLine => PickToolModel::TangentLine,
            PickTool::Stretch { placed, ids } => PickToolModel::Stretch { placed: *placed, ids: ids@ },
        }
    }
}

/// The edit that a click asks for. Every edit but `HatchAt`, `Offset`
/// (whose side the caller reads from the click point), the tangent tools
/// and `TangentLine` is preceded by a snapshot for undo.
pub enum ModifyEffect {
    Nothing,
    /// Cut `target` where the click is, at the other entities `cutters`; the
    /// selection is cleared.
    Trim { target: EntityId, cutters: Vec<EntityId> },
    /// Lengthen `target` to the other entities `boundaries`; the snapshot is
    /// dropped again when nothing could be extended.
    Extend { target: EntityId, boundaries: Vec<EntityId> },
    /// Hatch the area around the click point.
    HatchAt,
    /// Offset `source` towards the side of the click.
    Offset { source: EntityId },
    Fillet { first: EntityId, second: EntityId },
    Chamfer { first: EntityId, second: EntityId },
    /// A circle tangent to both entities, nearest the click.
    CircleTtr { first: EntityId, second: EntityId },
    /// A circle tangent to the three entities, nearest the click.
    CircleTtt { first: EntityId, second: EntityId, third: EntityId },
    /// The click goes to the tangent line tool.
    TangentLine,
    /// Stretch `ids` by the window and the move from base to click.
    Stretch { ids: Vec<EntityId> },
}

/// An edit as contracts see it.
pub enum ModifyEffectModel {
    Nothing,
    Trim { target: EntityId, cutters: Seq<EntityId> },
    Extend { target: EntityId, boundaries: Seq<EntityId> },
    HatchAt,
    Offset { source: EntityId },
    Fillet { first: EntityId, second: EntityId },
    Chamfer { first: EntityId, second: EntityId },
    CircleTtr { first: EntityId, second: EntityId },
    CircleTtt { first: EntityId, second: EntityId, third: EntityId },
    TangentLine,
    Stretch { ids: Seq<EntityId> },
}

impl View for ModifyEffect {
    type V = ModifyEffectModel;

    open spec fn view(&self) -> ModifyEffectModel {
        match self {
            ModifyEffect::Nothing => ModifyEffectModel::Nothing,
            ModifyEffect::Trim { target, cutters } => ModifyEffectModel::Trim {
                target: *target,
                cutters: cutters@,
            },
            ModifyEffect::Extend { target, boundaries } => ModifyEffectModel::Extend {
                target: *target,
                boundaries: boundaries@,
            },
            ModifyEffect::HatchAt => ModifyEffectModel::HatchAt,
            ModifyEffect::Offset { source } => ModifyEffectModel::Offset { source: *source },
            ModifyEffect::Fillet { first, second } => ModifyEffectModel::Fillet {
                first: *first,
                second: *second,
            },
            ModifyEffect::Chamfer { first, second } => ModifyEffectModel::Chamfer {
                first: *first,
                second: *second,
            },
            ModifyEffect::CircleTtr { first, second } => ModifyEffectModel::CircleTtr {
                first: *first,
                second: *second,
            },
            ModifyEffect::CircleTtt { first, second, third } => ModifyEffectModel::CircleTtt {
                first: *first,
                second: *second,
                third: *third,
            },
            ModifyEffect::TangentLine => ModifyEffectModel::TangentLine,
            ModifyEffect::Stretch { ids } => ModifyEffectModel::Stretch { ids: ids@ },
        }
    }
}

/// The ids, in drawing order, of the entities other than `target` and the
/// origin marker.
pub open spec fn others(es: Seq<Entity>, target: EntityId, origin: EntityId) -> Seq<EntityId> {
    es.filter(|e: Entity| e.id != target && e.id != origin).map_values(|e: Entity| e.id)
}

/// A click picks `picked` unless that is the origin marker, which cannot be
/// picked.
pub open spec fn pick_of(picked: Option<EntityId>, origin: EntityId) -> Option<EntityId> {
    match picked {
        Some(id) => if id != origin {
            Some(id)
        } else {
            None
        },
        None => None,
    }
}

/// A tool that waits for two picks: the state and edit after a click that
/// picks `p`.
pub open spec fn two_pick(first: Option<EntityId>, p: Option<EntityId>) -> (
    Option<EntityId>,
    Option<(EntityId, EntityId)>,
) {
    match p {
        None => (first, None),
        Some(id) => match first {
            None => (Some(id), None),
            Some(a) => (None, if a != id {
                Some((a, id))
            } else {
                None
            }),
        },
    }
}

/// The tool state and edit after a click that picked `picked` (as the
/// caller found), on the drawing `es` with the selection `sel`.
pub open spec fn click_spec(
    t: PickToolModel,
    picked: Option<EntityId>,
    es: Seq<Entity>,
    origin: EntityId,
    sel: Seq<EntityId>,
) -> (PickToolModel, ModifyEffectModel) {
    let p = pick_of(picked, origin);
    match t {
        PickToolModel::Trim => (t, match p {
            Some(id) => ModifyEffectModel::Trim { target: id, cutters: others(es, id, origin) },
            None => ModifyEffectModel::Nothing,
        }),
        PickToolModel::Extend => (t, match p {
            Some(id) => ModifyEffectModel::Extend { target: id, boundaries: others(es, id, origin) },
            None => ModifyEffectModel::Nothing,
        }),
        PickToolModel::Hatch => (t, ModifyEffectModel::HatchAt),
        PickToolModel::Offset { source } => match source {
            Some(src) => (PickToolModel::Offset { source: None }, ModifyEffectModel::Offset { source: src }),
            None => (
                PickToolModel::Offset {
                    source: match p {
                        Some(id) => Some(id),
                        None => None,
                    },
                },
                ModifyEffectModel::Nothing,
            ),
        },
        PickToolModel::Fillet { first } => {
            let (f, e) = two_pick(first, p);
            (PickToolModel::Fillet { first: f }, match e {
                Some((a, b)) => ModifyEffectModel::Fillet { first: a, second: b },
                None => ModifyEffectModel::Nothing,
            })
        },
        PickToolModel::Chamfer { first } => {
            let (f, e) = two_pick(first, p);
            (PickToolModel::Chamfer { first: f }, match e {
                Some((a, b)) => ModifyEffectModel::Chamfer { first: a, second: b },
                None => ModifyEffectModel::Nothing,
            })
        },
        PickToolModel::CircleTtr { first } => {
            let (f, e) = two_pick(first, p);
            (PickToolModel::CircleTtr { first: f }, match e {
                Some((a, b)) => ModifyEffectModel::CircleTtr { first: a, second: b },
                None => ModifyEffectModel::Nothing,
            })
        },
        PickToolModel::CircleTtt { picks } => match p {
            Some(id) => if picks.contains(id) {
                (t, ModifyEffectModel::Nothing)
            } else if picks.len() + 1 == 3 {
                (
                    PickToolModel::CircleTtt { picks: Seq::empty() },
                    ModifyEffectModel::CircleTtt { first: picks[0], second: picks[1], third: id },
                )
            } else {
                (PickToolModel::CircleTtt { picks: picks.push(id) }, ModifyEffectModel::Nothing)
            },
            None => (t, ModifyEffectModel::Nothing),
        },
        PickToolModel::TangentLine => (t, ModifyEffectModel::TangentLine),
        PickToolModel::Stretch { placed, ids } => if placed == 0 {
            (
                PickToolModel::Stretch {
                    placed: 1,
                    ids: if sel.len() == 0 {
                        es.filter(|e: Entity| e.id != origin).map_values(|e: Entity| e.id)
                    } else {
                        sel
                    },
                },
                ModifyEffectModel::Nothing,
            )
        } else if placed < 3 {
            (PickToolModel::Stretch { placed: (placed + 1) as usize, ids }, ModifyEffectModel::Nothing)
        } else {
            (PickToolModel::Stretch { placed: 0, ids: Seq::empty() }, ModifyEffectModel::Stretch { ids })
        },
    }
}

/// The ids, in drawing order, of the entities of `doc` other than `a` and `b`.
fn ids_except(doc: &Document, a: EntityId, b: EntityId) -> (r: Vec<EntityId>)
    ensures
        r@ == doc.entities@.filter(|e: Entity| e.id != a && e.id != b).map_values(
            |e: Entity| e.id,
        ),
{
    let ghost es = doc.entities@;
    let ghost keep = |e: Entity| e.id != a && e.id != b;
    let mut ids: Vec<EntityId> = Vec::new();
    let mut i: usize = 0;
    while i < doc.entities.len()
        invariant
            i <= doc.entities.len(),
            es == doc.entities@,
            keep == (|e: Entity| e.id != a && e.id != b),
            ids@ == es.subrange(0, i as int).filter(keep).map_values(|e: Entity| e.id),
        decreases doc.entities.len() - i,
    {
        let e = doc.entities[i];
        proof {
            assert(es.subrange(0, i + 1) =~= es.subrange(0, i as int).push(e));
            es.subrange(0, i as int).lemma_filter_push(e, keep);
        }
        if e.id != a && e.id != b {
            assert(es.subrange(0, i as int).filter(keep).push(e).map_values(|e: Entity| e.id)
                =~= ids@.push(e.id));
            ids.push(e.id);
        } else {
            assert(es.subrange(0, i + 1).filter(keep) == es.subrange(0, i as int).filter(keep));
        }
        i = i + 1;
    }
    assert(es.subrange(0, es.len() as int) =~= es);
    ids
}

fn copy_ids(v: &Vec<EntityId>) -> (r: Vec<EntityId>)
    ensures
        r@ == v@,
{
    let mut r: Vec<EntityId> = Vec::new();
    let mut i: usize = 0;
    while i < v.len()
        invariant
            i <= v.len(),
            r@ == v@.subrange(0, i as int),
        decreases v.len() - i,
    {
        r.push(v[i]);
        i = i + 1;
    }
    assert(r@ =~= v@);
    r
}

fn two_pick_exec(first: Option<EntityId>, p: Option<EntityId>) -> (r: (
    Option<EntityId>,
    Option<(EntityId, EntityId)>,
))
    ensures
        r == two_pick(first, p),
{
    match p {
        None => (first, None),
        Some(id) => match first {
            None => (Some(id), None),
            Some(a) => (None, if a != id {
                Some((a, id))
            } else {
                None
            }),
        },
    }
}

/// Handles a click while `tool` is active: `picked` is the entity under the
/// click, as the caller found it. Returns the tool's new state and the edit
/// the click asks for.
pub fn modify_click(
    tool: PickTool,
    picked: Option<EntityId>,
    doc: &Document,
    origin: EntityId,
    selection: &Vec<EntityId>,
) -> (r: (PickTool, ModifyEffect))
    ensures
        (r.0@, r.1@) == click_spec(tool@, picked, doc.entities@, origin, selection@),
{
    let p = match picked {
        Some(id) => if id != origin {
            Some(id)
        } else {
            None
        },
        None => None,
    };
    match tool {
        PickTool::Trim => match p {
            Some(id) => (PickTool::Trim, ModifyEffect::Trim { target: id, cutters: ids_except(doc, id, origin) }),
            None => (PickTool::Trim, ModifyEffect::Nothing),
        },
        PickTool::Extend => match p {
            Some(id) => (
                PickTool::Extend,
                ModifyEffect::Extend { target: id, boundaries: ids_except(doc, id, origin) },
            ),
            None => (PickTool::Extend, ModifyEffect::Nothing),
        },
        PickTool::Hatch => (PickTool::Hatch, ModifyEffect::HatchAt),
        PickTool::Offset { source } => match source {
            Some(src) => (PickTool::Offset { source: None }, ModifyEffect::Offset { source: src }),
            None => (PickTool::Offset { source: p }, ModifyEffect::Nothing),
        },
        PickTool::Fillet { first } => {
            let (f, e) = two_pick_exec(first, p);
            (PickTool::Fillet { first: f }, match e {
                Some((a, b)) => ModifyEffect::Fillet { first: a, second: b },
                None => ModifyEffect::Nothing,
            })
        },
        PickTool::Chamfer { first } => {
            let (f, e) = two_pick_exec(first, p);
            (PickTool::Chamfer { first: f }, match e {
                Some((a, b)) => ModifyEffect::Chamfer { first: a, second: b },
                None => ModifyEffect::Nothing,
            })
        },
        PickTool::CircleTtr { first } => {
            let (f, e) = two_pick_exec(first, p);
            (PickTool::CircleTtr { first: f }, match e {
                Some((a, b)) => ModifyEffect::CircleTtr { first: a, second: b },
                None => ModifyEffect::Nothing,
            })
        },
        PickTool::CircleTtt { picks } => match p {
            Some(id) => {
                let mut seen = false;
                let mut i: usize = 0;
                while i < picks.len()
                    invariant
                        i <= picks.len(),
                        seen == picks@.subrange(0, i as int).contains(id),
                    decreases picks.len() - i,
                {
                    if picks[i] == id {
                        seen = true;
                    }
                    proof {
                        let s0 = picks@.subrange(0, i as int);
                        let s1 = picks@.subrange(0, i + 1);
                        assert(s1 =~= s0.push(picks@[i as int]));
                        if s0.contains(id) {
                            let k = choose|k: int| 0 <= k < s0.len() && s0[k] == id;
                            assert(s1[k] == id);
                        }
                        if picks@[i as int] == id {
                            assert(s1[i as int] == id);
                        }
                        if s1.contains(id) {
                            let k = choose|k: int| 0 <= k < s1.len() && s1[k] == id;
                            if k < i {
                                assert(s0[k] == id);
                            }
                        }
                    }
                    i = i + 1;
                }
                assert(picks@.subrange(0, picks.len() as int) =~= picks@);
                if seen {
                    (PickTool::CircleTtt { picks }, ModifyEffect::Nothing)
                } else if picks.len() == 2 {
                    let (a, b) = (picks[0], picks[1]);
                    let empty: Vec<EntityId> = Vec::new();
                    proof {
                        assert(empty@ =~= Seq::<EntityId>::empty());
                    }
                    (PickTool::CircleTtt { picks: empty }, ModifyEffect::CircleTtt { first: a, second: b, third: id })
                } else {
                    let mut more = picks;
                    more.push(id);
                    (PickTool::CircleTtt { picks: more }, ModifyEffect::Nothing)
                }
            },
            None => (PickTool::CircleTtt { picks }, ModifyEffect::Nothing),
        },
        PickTool::TangentLine => (PickTool::TangentLine, ModifyEffect::TangentLine),
        PickTool::Stretch { placed, ids } => if placed == 0 {
            let moved = if selection.len() == 0 {
                ids_except(doc, origin, origin)
            } else {
                copy_ids(selection)
            };
            proof {
                assert(doc.entities@.filter(|e: Entity| e.id != origin && e.id != origin)
                    =~= doc.entities@.filter(|e: Entity| e.id != origin)) by {
                    assert((|e: Entity| e.id != origin && e.id != origin) =~= (|e: Entity| e.id != origin));
                }
            }
            (PickTool::Stretch { placed: 1, ids: moved }, ModifyEffect::Nothing)
        } else if placed < 3 {
            (PickTool::Stretch { placed: placed + 1, ids }, ModifyEffect::Nothing)
        } else {
            let empty: Vec<EntityId> = Vec::new();
            proof {
                assert(empty@ =~= Seq::<EntityId>::empty());
            }
            (PickTool::Stretch { placed: 0, ids: empty }, ModifyEffect::Stretch { ids })
        },
    }
}

/// Clicking the origin marker is the same as clicking empty space.
pub proof fn lemma_origin_is_never_picked(
    t: PickToolModel,
    es: Seq<Entity>,
    origin: EntityId,
    sel: Seq<EntityId>,
)
    ensures
        click_spec(t, Some(origin), es, origin, sel) == click_spec(t, None, es, origin, sel),
{
}

/// Two clicks on two different entities with a fillet, chamfer or tangent
/// circle tool ask for that edit on those two entities, in click order, and
/// the tool waits for a new first pick.
pub proof fn lemma_two_picks(a: EntityId, b: EntityId)
    requires
        a != b,
    ensures
        two_pick(two_pick(None, Some(a)).0, Some(b)) == (None::<EntityId>, Some((a, b))),
        two_pick(None, Some(a)).1 is None,
{
}

/// The entities that trim cuts against, or that extend reaches to, never
/// include the picked entity or the origin marker.
pub proof fn lemma_others_exclude(es: Seq<Entity>, target: EntityId, origin: EntityId)
    ensures
        !others(es, target, origin).contains(target),
        !others(es, target, origin).contains(origin),
{
    let keep = |e: Entity| e.id != target && e.id != origin;
    let kept = es.filter(keep);
    es.filter_lemma(keep);
    if others(es, target, origin).contains(target) {
        let i = choose|i: int| 0 <= i < others(es, target, origin).len() && others(es, target, origin)[i] == target;
        assert(keep(kept[i]));
    }
    if others(es, target, origin).contains(origin) {
        let i = choose|i: int| 0 <= i < others(es, target, origin).len() && others(es, target, origin)[i] == origin;
        assert(keep(kept[i]));
    }
}


proof fn lemma_others_contains(es: Seq<Entity>, target: EntityId, origin: EntityId, x: EntityId)
    ensures
        others(es, target, origin).contains(x) <==> (x != target && x != origin && exists|i: int|
            0 <= i < es.len() && (#[trigger] es[i]).id == x),
{
    let keep = |e: Entity| e.id != target && e.id != origin;
    let kept = es.filter(keep);
    es.filter_lemma(keep);
    if others(es, target, origin).contains(x) {
        let k = choose|k: int| 0 <= k < others(es, target, origin).len() && others(es, target, origin)[k] == x;
        assert(keep(kept[k]));
        es.lemma_filter_contains_rev(keep, kept[k]);
        let i = choose|i: int| 0 <= i < es.len() && es[i] == kept[k];
        assert(es[i].id == x);
    }
    if x != target && x != origin && exists|i: int| 0 <= i < es.len() && (#[trigger] es[i]).id == x {
        let i = choose|i: int| 0 <= i < es.len() && (#[trigger] es[i]).id == x;
        es.lemma_filter_contains(keep, i);
        let k = choose|k: int| 0 <= k < kept.len() && kept[k] == es[i];
        assert(others(es, target, origin)[k] == x);
    }
}

/// A trim or extend click on entity `id` (not the origin marker) acts on
/// `id` against every other entity of the drawing but the origin marker, and
/// only those; the selection plays no part.
pub proof fn lemma_trim_extend_use_all_others(
    id: EntityId,
    es: Seq<Entity>,
    origin: EntityId,
    sel: Seq<EntityId>,
    sel2: Seq<EntityId>,
)
    requires
        id != origin,
    ensures
        click_spec(PickToolModel::Trim, Some(id), es, origin, sel) == click_spec(
            PickToolModel::Trim,
            Some(id),
            es,
            origin,
            sel2,
        ),
        click_spec(PickToolModel::Extend, Some(id), es, origin, sel) == click_spec(
            PickToolModel::Extend,
            Some(id),
            es,
            origin,
            sel2,
        ),
        click_spec(PickToolModel::Trim, Some(id), es, origin, sel).1 matches ModifyEffectModel::Trim {
            target,
            cutters,
        } && target == id && forall|x: EntityId|
            cutters.contains(x) <==> (x != id && x != origin && exists|i: int|
                0 <= i < es.len() && (#[trigger] es[i]).id == x),
        click_spec(PickToolModel::Extend, Some(id), es, origin, sel).1 matches ModifyEffectModel::Extend {
            target,
            boundaries,
        } && target == id && forall|x: EntityId|
            boundaries.contains(x) <==> (x != id && x != origin && exists|i: int|
                0 <= i < es.len() && (#[trigger] es[i]).id == x),
{
    assert forall|x: EntityId|
        others(es, id, origin).contains(x) <==> (x != id && x != origin && exists|i: int|
            0 <= i < es.len() && (#[trigger] es[i]).id == x) by {
        lemma_others_contains(es, id, origin, x);
    }
}

} // verus!
