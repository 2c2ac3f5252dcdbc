use eiderflat::document::{seed_default_layers, BoundingBox, Document, Entity, EntityId, KindTag, Layer, Rgb};
use eiderflat::infer::GuideKind;
use eiderflat::properties::{lt_label, lt_options, lw_label, lw_options, LineTypeRef, LineWeight};
use eiderflat::raster::alpha_bbox;
use eiderflat::selection::{bbox_inside, select_by, select_crossing, select_fence, select_window};
use eiderflat::text::push_decimal;

fn bb(x0: i64, y0: i64, x1: i64, y1: i64) -> BoundingBox {
    BoundingBox { min_x: x0, min_y: y0, max_x: x1, max_y: y1 }
}

fn line(id: u64, layer: usize, x0: i64, y0: i64, x1: i64, y1: i64) -> Entity {
    Entity {
        id: EntityId(id),
        layer,
        kind: KindTag::Curve,
        bbox: Some(bb(x0.min(x1), y0.min(y1), x0.max(x1), y0.max(y1))),
        text: None,
    }
}

fn doc_with(entities: Vec<Entity>) -> Document {
    let next_id = entities.iter().map(|e| e.id.0 + 1).max().unwrap_or(1);
    Document { entities, layers: vec![Layer::new("0".to_string())], current_layer: 0, next_id, texts: vec![] }
}

/// Lines (1,1)-(3,3) and (4,4)-(8,8) on layer 0.
fn sample_doc() -> (Document, EntityId, EntityId) {
    let a = line(1, 0, 1, 1, 3, 3);
    let b = line(2, 0, 4, 4, 8, 8);
    (doc_with(vec![a, b]), a.id, b.id)
}

#[test]
fn window_selects_only_fully_inside() {
    let (doc, a, b) = sample_doc();
    let rect = bb(0, 0, 5, 5);
    let sel = select_window(&doc, &rect);
    assert!(sel.contains(&a));
    assert!(
        !sel.contains(&b),
        "partially-outside entity must not be window-selected"
    );
}

#[test]
fn crossing_selects_touching() {
    let (doc, a, b) = sample_doc();
    let rect = bb(0, 0, 5, 5);
    // Both diagonals pass through the window (the second from (4,4) on).
    let touches = vec![true, true];
    let sel = select_crossing(&doc, &rect, &touches);
    assert!(sel.contains(&a));
    assert!(sel.contains(&b), "crossing entity must be selected");
}

#[test]
fn fence_crosses_entities() {
    let (doc, _a, b) = sample_doc();
    // The fence (5,3)-(5,9) crosses only the second line.
    let crossed = vec![false, true];
    let sel = select_fence(&doc, 2, &crossed);
    assert!(sel.contains(&b));
    assert_eq!(sel, vec![b]);
}

#[test]
fn select_by_layer() {
    let mut doc = doc_with(vec![]);
    doc.layers.push(Layer::new("special".to_string()));
    let special_idx = 1;
    doc.entities.push(line(1, 0, 0, 0, 1, 1));
    let s = line(2, special_idx, 2, 2, 3, 3);
    doc.entities.push(s);
    let sel = select_by(&doc, |e: &Entity| e.layer == special_idx);
    assert_eq!(sel, vec![s.id]);
}

#[test]
fn selection_skips_hidden_and_locked_layers() {
    let mut doc = doc_with(vec![line(1, 0, 0, 0, 1, 1), line(2, 1, 0, 0, 1, 1), line(3, 2, 0, 0, 1, 1), line(4, 7, 0, 0, 1, 1)]);
    let mut hidden = Layer::new("hidden".to_string());
    hidden.visible = false;
    let mut locked = Layer::new("locked".to_string());
    locked.locked = true;
    doc.layers.push(hidden);
    doc.layers.push(locked);
    assert_eq!(select_window(&doc, &bb(-1, -1, 2, 2)), vec![EntityId(1)]);
    assert_eq!(select_by(&doc, |_e: &Entity| true), vec![EntityId(1)]);
}

#[test]
fn window_edges_count_as_inside() {
    let doc = doc_with(vec![line(1, 0, 0, 0, 5, 5)]);
    assert_eq!(select_window(&doc, &bb(0, 0, 5, 5)), vec![EntityId(1)]);
    assert!(select_window(&doc, &bb(0, 0, 4, 5)).is_empty());
    assert!(bbox_inside(&bb(1, 1, 2, 2), &bb(0, 0, 5, 5)));
    assert!(!bbox_inside(&bb(-1, 1, 2, 2), &bb(0, 0, 5, 5)));
}

#[test]
fn crossing_uses_extent_for_non_curves() {
    let p = Entity { id: EntityId(9), layer: 0, kind: KindTag::Point, bbox: Some(bb(6, 6, 6, 6)), text: None };
    let x = Entity { id: EntityId(10), layer: 0, kind: KindTag::XLine, bbox: None, text: None };
    let doc = doc_with(vec![p, x]);
    assert_eq!(select_crossing(&doc, &bb(0, 0, 6, 6), &vec![false, false]), vec![EntityId(9)]);
    assert!(select_crossing(&doc, &bb(0, 0, 5, 5), &vec![true, true]).is_empty());
}

#[test]
fn short_fence_selects_nothing() {
    let (doc, _a, _b) = sample_doc();
    assert!(select_fence(&doc, 1, &vec![true, true]).is_empty());
    assert!(select_fence(&doc, 0, &vec![true, true]).is_empty());
}

#[test]
fn guide_label() {
    assert_eq!(GuideKind::Extension.label(), "Extension");
}

#[test]
fn line_weight_labels() {
    assert_eq!(lw_label(&LineWeight::ByLayer), "By layer");
    assert_eq!(lw_label(&LineWeight::ByBlock), "By block");
    assert_eq!(lw_label(&LineWeight::Hundredths(13)), "0.13 mm");
    assert_eq!(lw_label(&LineWeight::Hundredths(100)), "1.00 mm");
    assert_eq!(lw_label(&LineWeight::Hundredths(5)), "0.05 mm");
    assert_eq!(lw_label(&LineWeight::Hundredths(211)), "2.11 mm");
    assert_eq!(lw_label(&LineWeight::Hundredths(u16::MAX)), "655.35 mm");
    for (lbl, w) in lw_options().iter().skip(1) {
        assert_eq!(&lw_label(w), lbl);
    }
    assert_eq!(lw_options()[0], ("By layer", LineWeight::ByLayer));
}

#[test]
fn line_type_labels() {
    assert_eq!(lt_label(&LineTypeRef::ByLayer), "By layer");
    assert_eq!(lt_label(&LineTypeRef::ByBlock), "By block");
    assert_eq!(lt_label(&LineTypeRef::Named("Continuous".to_string())), "Solid");
    assert_eq!(lt_label(&LineTypeRef::Named("Dashed".to_string())), "Dashed");
    let opts = lt_options();
    assert_eq!(opts.len(), 5);
    for (lbl, t) in opts.iter().skip(1) {
        assert_eq!(&lt_label(t), lbl);
    }
}

#[test]
fn default_layers_are_seeded_after_layer_zero() {
    let mut doc = doc_with(vec![]);
    seed_default_layers(&mut doc);
    let names: Vec<&str> = doc.layers.iter().map(|l| l.name.as_str()).collect();
    assert_eq!(names, vec!["0", "Dimensions", "Centerlines", "Construction", "Hidden"]);
    assert_eq!(doc.layers[1].color, Rgb { r: 245, g: 185, b: 74 });
    assert_eq!(doc.layers[4].color, Rgb { r: 150, g: 160, b: 178 });
    assert!(doc.layers.iter().all(|l| l.visible && !l.locked));
}

fn rgba(w: u32, h: u32, drawn: &[(u32, u32, u8)]) -> Vec<u8> {
    let mut v = vec![0u8; (w * h * 4) as usize];
    for &(x, y, a) in drawn {
        v[((y * w + x) * 4 + 3) as usize] = a;
    }
    v
}

#[test]
fn alpha_bbox_finds_the_drawn_pixels() {
    let data = rgba(8, 6, &[(2, 1, 255), (5, 4, 9), (6, 0, 8)]);
    assert_eq!(alpha_bbox(&data, 8, 6), Some((2, 1, 5, 4)));
}

#[test]
fn alpha_bbox_of_a_blank_buffer_is_none() {
    assert_eq!(alpha_bbox(&rgba(4, 4, &[(1, 1, 8)]), 4, 4), None);
    assert_eq!(alpha_bbox(&[], 0, 0), None);
}

#[test]
fn alpha_bbox_single_pixel() {
    let data = rgba(3, 3, &[(2, 2, 200)]);
    assert_eq!(alpha_bbox(&data, 3, 3), Some((2, 2, 2, 2)));
}

#[test]
fn decimal_text() {
    let mut s = String::from("n=");
    push_decimal(&mut s, 0);
    push_decimal(&mut s, 1907);
    assert_eq!(s, "n=01907");
}

#[test]
fn entities_on_missing_layers_are_shown() {
    let mut doc = doc_with(vec![]);
    let mut hidden = Layer::new("h".to_string());
    hidden.visible = false;
    doc.layers.push(hidden);
    assert!(doc.layer_visible(&line(1, 0, 0, 0, 1, 1)));
    assert!(!doc.layer_visible(&line(2, 1, 0, 0, 1, 1)));
    assert!(doc.layer_visible(&line(3, 7, 0, 0, 1, 1)));
}
