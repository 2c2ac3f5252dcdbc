use eiderflat::document::{EntityId, KindTag};
use eiderflat::history::History;
use eiderflat::document::Document;
use eiderflat::modify::{modify_click, ModifyEffect, PickTool};
use eiderflat::session::Session;

fn session_with(n: usize) -> (Session, Vec<EntityId>) {
    let mut s = Session::new();
    let ids = (0..n).map(|_| s.add_entity(KindTag::Curve, None)).collect();
    (s, ids)
}

#[test]
fn trim_cuts_against_every_other_entity() {
    let (s, ids) = session_with(3);
    let (t, e) = modify_click(PickTool::Trim, Some(ids[1]), &s.document, s.origin_id, &s.selection);
    assert!(matches!(t, PickTool::Trim));
    match e {
        ModifyEffect::Trim { target, cutters } => {
            assert_eq!(target, ids[1]);
            assert_eq!(cutters, vec![ids[0], ids[2]]);
        }
        _ => panic!("expected a trim"),
    }
    let (_, e) = modify_click(PickTool::Trim, None, &s.document, s.origin_id, &s.selection);
    assert!(matches!(e, ModifyEffect::Nothing));
}

#[test]
fn origin_is_never_picked() {
    let (s, _) = session_with(1);
    let (_, e) = modify_click(PickTool::Extend, Some(s.origin_id), &s.document, s.origin_id, &s.selection);
    assert!(matches!(e, ModifyEffect::Nothing));
}

#[test]
fn fillet_takes_two_different_picks() {
    let (s, ids) = session_with(2);
    let (t, e) = modify_click(PickTool::Fillet { first: None }, Some(ids[0]), &s.document, s.origin_id, &s.selection);
    assert!(matches!(e, ModifyEffect::Nothing));
    assert!(matches!(t, PickTool::Fillet { first: Some(a) } if a == ids[0]));
    let (t2, e2) = modify_click(t, Some(ids[0]), &s.document, s.origin_id, &s.selection);
    assert!(matches!(e2, ModifyEffect::Nothing));
    assert!(matches!(t2, PickTool::Fillet { first: None }));
    let (t3, _) = modify_click(PickTool::Chamfer { first: Some(ids[0]) }, None, &s.document, s.origin_id, &s.selection);
    assert!(matches!(t3, PickTool::Chamfer { first: Some(_) }));
    let (t4, e4) = modify_click(PickTool::Chamfer { first: Some(ids[0]) }, Some(ids[1]), &s.document, s.origin_id, &s.selection);
    assert!(matches!(t4, PickTool::Chamfer { first: None }));
    assert!(matches!(e4, ModifyEffect::Chamfer { first, second } if first == ids[0] && second == ids[1]));
}

#[test]
fn offset_picks_a_source_then_offsets_it() {
    let (s, ids) = session_with(1);
    let (t, e) = modify_click(PickTool::Offset { source: None }, Some(ids[0]), &s.document, s.origin_id, &s.selection);
    assert!(matches!(e, ModifyEffect::Nothing));
    let (t, e) = modify_click(t, None, &s.document, s.origin_id, &s.selection);
    assert!(matches!(e, ModifyEffect::Offset { source } if source == ids[0]));
    assert!(matches!(t, PickTool::Offset { source: None }));
}

#[test]
fn tangent_circle_collects_three_distinct_picks() {
    let (s, ids) = session_with(3);
    let mut t = PickTool::CircleTtt { picks: vec![] };
    for (k, id) in [ids[0], ids[0], ids[1]].into_iter().enumerate() {
        let (nt, e) = modify_click(t, Some(id), &s.document, s.origin_id, &s.selection);
        assert!(matches!(e, ModifyEffect::Nothing), "click {k}");
        t = nt;
    }
    let (t, e) = modify_click(t, Some(ids[2]), &s.document, s.origin_id, &s.selection);
    assert!(matches!(e, ModifyEffect::CircleTtt { first, second, third }
        if first == ids[0] && second == ids[1] && third == ids[2]));
    assert!(matches!(t, PickTool::CircleTtt { picks } if picks.is_empty()));
}

#[test]
fn stretch_moves_the_selection_or_everything() {
    let (mut s, ids) = session_with(2);
    let mut t = PickTool::Stretch { placed: 0, ids: vec![] };
    for _ in 0..3 {
        let (nt, e) = modify_click(t, None, &s.document, s.origin_id, &s.selection);
        assert!(matches!(e, ModifyEffect::Nothing));
        t = nt;
    }
    let (t, e) = modify_click(t, None, &s.document, s.origin_id, &s.selection);
    assert!(matches!(e, ModifyEffect::Stretch { ids: moved } if moved == ids));
    assert!(matches!(t, PickTool::Stretch { placed: 0, .. }));
    s.selection = vec![ids[1]];
    let (t, _) = modify_click(PickTool::Stretch { placed: 0, ids: vec![] }, None, &s.document, s.origin_id, &s.selection);
    assert!(matches!(t, PickTool::Stretch { placed: 1, ids: moved } if moved == vec![ids[1]]));
}

#[test]
fn hatch_and_tangent_line_hand_the_click_on() {
    let (s, _) = session_with(0);
    let (_, e) = modify_click(PickTool::Hatch, None, &s.document, s.origin_id, &s.selection);
    assert!(matches!(e, ModifyEffect::HatchAt));
    let (_, e) = modify_click(PickTool::TangentLine, None, &s.document, s.origin_id, &s.selection);
    assert!(matches!(e, ModifyEffect::TangentLine));
}

#[test]
fn a_failed_edit_drops_its_snapshot() {
    let mut h = History::new();
    let d = Document::new();
    h.snapshot(&d);
    h.snapshot(&d);
    h.discard_last();
    assert_eq!(h.undo_depth(), 1);
    let (mut s, _) = session_with(1);
    s.begin_edit();
    assert!(s.is_dirty());
    s.history.discard_last();
    s.undo();
    assert_eq!(s.document.len(), 1);
}
