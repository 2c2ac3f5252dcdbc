use eiderflat::clip::{clip, BoolOp, Crossing, Vertex};

// Floating-point front end for the combinatorial clipper: finds the proper
// edge crossings, orders them along each edge, classifies the first vertices
// and maps the resulting loops back to coordinates.

const EPS: f64 = 1e-9;

fn order_key(x: f64) -> u64 {
    let b = x.to_bits();
    if b >> 63 == 1 {
        !b
    } else {
        b | (1u64 << 63)
    }
}

fn seg_intersect(
    a0: (f64, f64),
    a1: (f64, f64),
    b0: (f64, f64),
    b1: (f64, f64),
) -> Option<(f64, f64, f64, f64)> {
    let r = (a1.0 - a0.0, a1.1 - a0.1);
    let s = (b1.0 - b0.0, b1.1 - b0.1);
    let denom = r.0 * s.1 - r.1 * s.0;
    if denom.abs() < EPS {
        return None;
    }
    let qp = (b0.0 - a0.0, b0.1 - a0.1);
    let t = (qp.0 * s.1 - qp.1 * s.0) / denom;
    let u = (qp.0 * r.1 - qp.1 * r.0) / denom;
    if t > EPS && t < 1.0 - EPS && u > EPS && u < 1.0 - EPS {
        Some((t, u, a0.0 + r.0 * t, a0.1 + r.1 * t))
    } else {
        None
    }
}

fn point_in_poly(x: f64, y: f64, poly: &[(f64, f64)]) -> bool {
    let n = poly.len();
    let mut inside = false;
    let mut j = n - 1;
    for i in 0..n {
        let (xi, yi) = poly[i];
        let (xj, yj) = poly[j];
        if (yi > y) != (yj > y) && x < (xj - xi) * (y - yi) / (yj - yi) + xi {
            inside = !inside;
        }
        j = i;
    }
    inside
}

fn clip_points(subj: &[(f64, f64)], clp: &[(f64, f64)], op: BoolOp) -> Vec<Vec<(f64, f64)>> {
    if subj.len() < 3 || clp.len() < 3 {
        return Vec::new();
    }
    let (ns, nc) = (subj.len(), clp.len());
    let mut hits = Vec::new();
    let mut at = Vec::new();
    for si in 0..ns {
        for ci in 0..nc {
            if let Some((t, u, x, y)) =
                seg_intersect(subj[si], subj[(si + 1) % ns], clp[ci], clp[(ci + 1) % nc])
            {
                hits.push(Crossing {
                    subject_edge: si,
                    clip_edge: ci,
                    subject_param: order_key(t),
                    clip_param: order_key(u),
                });
                at.push((x, y));
            }
        }
    }
    let s_in = point_in_poly(subj[0].0, subj[0].1, clp);
    let c_in = point_in_poly(clp[0].0, clp[0].1, subj);
    let loops = clip(ns, nc, &hits, s_in, c_in, op).expect("every traced loop closes");
    loops
        .iter()
        .map(|l| {
            l.iter()
                .map(|v| match *v {
                    Vertex::Subject(i) => subj[i],
                    Vertex::Clip(j) => clp[j],
                    Vertex::Crossing(h) => at[h],
                })
                .collect()
        })
        .collect()
}

fn ngon(cx: f64, cy: f64, r: f64, n: usize) -> Vec<(f64, f64)> {
    (0..n)
        .map(|i| {
            let a = std::f64::consts::TAU * i as f64 / n as f64;
            (cx + r * a.cos(), cy + r * a.sin())
        })
        .collect()
}

fn loops_contain(loops: &[Vec<(f64, f64)>], x: f64, y: f64) -> bool {
    let mut c = 0;
    for l in loops {
        if point_in_poly(x, y, l) {
            c += 1;
        }
    }
    c % 2 == 1
}

#[test]
fn union_of_overlapping_squares() {
    let a = [(0.0, 0.0), (4.0, 0.0), (4.0, 4.0), (0.0, 4.0)];
    let b = [(2.0, 2.0), (6.0, 2.0), (6.0, 6.0), (2.0, 6.0)];
    let r = clip_points(&a, &b, BoolOp::Union);
    assert!(!r.is_empty());
    assert!(loops_contain(&r, 1.0, 1.0), "deep in A");
    assert!(loops_contain(&r, 5.0, 5.0), "deep in B");
    assert!(loops_contain(&r, 3.0, 3.0), "in the overlap");
    assert!(!loops_contain(&r, 5.0, 1.0), "outside both");
    assert!(!loops_contain(&r, 10.0, 10.0), "far outside");
}

#[test]
fn intersection_of_overlapping_squares() {
    let a = [(0.0, 0.0), (4.0, 0.0), (4.0, 4.0), (0.0, 4.0)];
    let b = [(2.0, 2.0), (6.0, 2.0), (6.0, 6.0), (2.0, 6.0)];
    let r = clip_points(&a, &b, BoolOp::Intersection);
    assert!(loops_contain(&r, 3.0, 3.0), "overlap is inside");
    assert!(!loops_contain(&r, 1.0, 1.0), "A-only is excluded");
    assert!(!loops_contain(&r, 5.0, 5.0), "B-only is excluded");
}

#[test]
fn difference_of_overlapping_squares() {
    let a = [(0.0, 0.0), (4.0, 0.0), (4.0, 4.0), (0.0, 4.0)];
    let b = [(2.0, 2.0), (6.0, 2.0), (6.0, 6.0), (2.0, 6.0)];
    let r = clip_points(&a, &b, BoolOp::Difference);
    assert!(loops_contain(&r, 1.0, 1.0), "A-only stays");
    assert!(!loops_contain(&r, 3.0, 3.0), "overlap removed");
    assert!(!loops_contain(&r, 5.0, 5.0), "B-only never in A");
}

#[test]
fn union_of_overlapping_circles_is_a_single_clean_region() {
    let r = clip_points(
        &ngon(7.0, 6.0, 4.0, 64),
        &ngon(12.0, 6.0, 4.0, 64),
        BoolOp::Union,
    );
    assert!(!r.is_empty(), "union must produce a boundary");
    assert!(loops_contain(&r, 7.0, 6.0), "center of circle 1");
    assert!(loops_contain(&r, 12.0, 6.0), "center of circle 2");
    assert!(loops_contain(&r, 9.5, 6.0), "the lens");
    assert!(!loops_contain(&r, 0.0, 6.0), "far left outside");
    assert!(!loops_contain(&r, 20.0, 6.0), "far right outside");
}

#[test]
fn intersection_of_overlapping_circles() {
    let r = clip_points(
        &ngon(7.0, 6.0, 4.0, 64),
        &ngon(12.0, 6.0, 4.0, 64),
        BoolOp::Intersection,
    );
    assert!(
        loops_contain(&r, 9.5, 6.0),
        "lens is inside the intersection"
    );
    assert!(
        !loops_contain(&r, 5.0, 6.0),
        "circle-1-only is not in the intersection"
    );
}

#[test]
fn union_of_disjoint_squares_returns_both() {
    let a = [(0.0, 0.0), (1.0, 0.0), (1.0, 1.0), (0.0, 1.0)];
    let b = [(5.0, 5.0), (6.0, 5.0), (6.0, 6.0), (5.0, 6.0)];
    let r = clip_points(&a, &b, BoolOp::Union);
    assert_eq!(r.len(), 2, "disjoint union keeps both loops");
    assert!(loops_contain(&r, 0.5, 0.5));
    assert!(loops_contain(&r, 5.5, 5.5));
}

#[test]
fn union_with_nested_square_returns_outer() {
    let outer = [(0.0, 0.0), (10.0, 0.0), (10.0, 10.0), (0.0, 10.0)];
    let inner = [(3.0, 3.0), (6.0, 3.0), (6.0, 6.0), (3.0, 6.0)];
    let r = clip_points(&outer, &inner, BoolOp::Union);
    assert_eq!(r.len(), 1);
    assert!(loops_contain(&r, 4.5, 4.5), "nested point still filled");
    assert!(loops_contain(&r, 0.5, 0.5), "outer ring filled");
}

// Combinatorial cases, stated directly in vertex names.

fn cross(se: usize, ce: usize, sp: u64, cp: u64) -> Crossing {
    Crossing { subject_edge: se, clip_edge: ce, subject_param: sp, clip_param: cp }
}

/// Two overlapping squares: subject edge 1 crosses clip edge 0 and subject
/// edge 2 crosses clip edge 3 (the squares of the tests above).
fn square_crossings() -> Vec<Crossing> {
    vec![cross(1, 0, 5, 5), cross(2, 3, 5, 5)]
}

// The subject's first vertex (0, 0) is outside the clip square; the clip's
// first vertex (2, 2) is inside the subject square.

#[test]
fn intersection_loop_of_two_squares_is_exact() {
    let r = clip(4, 4, &square_crossings(), false, true, BoolOp::Intersection).unwrap();
    assert_eq!(
        r,
        vec![vec![Vertex::Subject(2), Vertex::Crossing(1), Vertex::Clip(0), Vertex::Crossing(0)]]
    );
}

#[test]
fn union_loop_of_two_squares_walks_both_outsides() {
    let r = clip(4, 4, &square_crossings(), false, true, BoolOp::Union).unwrap();
    assert_eq!(
        r,
        vec![vec![
            Vertex::Subject(1),
            Vertex::Subject(0),
            Vertex::Subject(3),
            Vertex::Crossing(1),
            Vertex::Clip(3),
            Vertex::Clip(2),
            Vertex::Clip(1),
            Vertex::Crossing(0),
        ]]
    );
    for v in [Vertex::Subject(0), Vertex::Subject(1), Vertex::Subject(3), Vertex::Clip(1)] {
        assert!(r[0].contains(&v), "{v:?} belongs to the union outline");
    }
    assert!(!r[0].contains(&Vertex::Subject(2)));
    assert!(!r[0].contains(&Vertex::Clip(0)));
}

#[test]
fn difference_loop_of_two_squares_keeps_subject_corner_out() {
    let r = clip(4, 4, &square_crossings(), false, true, BoolOp::Difference).unwrap();
    assert_eq!(
        r,
        vec![vec![
            Vertex::Subject(1),
            Vertex::Subject(0),
            Vertex::Subject(3),
            Vertex::Crossing(1),
            Vertex::Clip(0),
            Vertex::Crossing(0),
        ]]
    );
    assert!(r[0].contains(&Vertex::Subject(0)));
    assert!(r[0].contains(&Vertex::Clip(0)));
    assert!(!r[0].contains(&Vertex::Subject(2)));
}

#[test]
fn no_crossing_cases_follow_containment() {
    let whole_s: Vec<Vertex> = (0..3).map(Vertex::Subject).collect();
    let whole_c: Vec<Vertex> = (0..4).map(Vertex::Clip).collect();
    let none: Vec<Crossing> = Vec::new();
    assert_eq!(clip(3, 4, &none, false, false, BoolOp::Union).unwrap(), vec![whole_s.clone(), whole_c.clone()]);
    assert_eq!(clip(3, 4, &none, true, false, BoolOp::Union).unwrap(), vec![whole_c.clone()]);
    assert_eq!(clip(3, 4, &none, false, true, BoolOp::Union).unwrap(), vec![whole_s.clone()]);
    assert_eq!(clip(3, 4, &none, true, false, BoolOp::Intersection).unwrap(), vec![whole_s.clone()]);
    assert_eq!(clip(3, 4, &none, false, true, BoolOp::Intersection).unwrap(), vec![whole_c.clone()]);
    assert!(clip(3, 4, &none, false, false, BoolOp::Intersection).unwrap().is_empty());
    assert!(clip(3, 4, &none, true, false, BoolOp::Difference).unwrap().is_empty());
    assert_eq!(clip(3, 4, &none, false, true, BoolOp::Difference).unwrap(), vec![whole_s]);
}

#[test]
fn degenerate_polygons_give_nothing() {
    assert!(clip(2, 4, &Vec::new(), true, true, BoolOp::Union).unwrap().is_empty());
    assert!(clip(4, 2, &square_crossings(), true, true, BoolOp::Union).unwrap().is_empty());
}

#[test]
fn every_loop_has_three_valid_vertices() {
    for op in [BoolOp::Union, BoolOp::Intersection, BoolOp::Difference] {
        for s_in in [false, true] {
            let r = clip(4, 4, &square_crossings(), s_in, false, op).unwrap();
            for l in &r {
                assert!(l.len() >= 3);
                for v in l {
                    match *v {
                        Vertex::Subject(i) => assert!(i < 4),
                        Vertex::Clip(j) => assert!(j < 4),
                        Vertex::Crossing(h) => assert!(h < 2),
                    }
                }
            }
        }
    }
}

#[test]
fn a_single_crossing_can_still_close() {
    // One crossing: the walk goes round each ring once and comes back.
    let r = clip(3, 3, &vec![cross(0, 0, 1, 1)], false, false, BoolOp::Intersection);
    assert!(r.is_some());
}

#[test]
fn order_keys_sort_crossings_along_an_edge() {
    // Two crossings on subject edge 0; the one with the smaller key comes first.
    let hits = vec![cross(0, 0, 9, 1), cross(0, 2, 3, 1)];
    let a = clip(4, 4, &hits, false, false, BoolOp::Intersection).unwrap();
    assert_eq!(a, vec![vec![Vertex::Crossing(0), Vertex::Clip(1), Vertex::Clip(2), Vertex::Crossing(1)]]);
    let swapped = vec![cross(0, 0, 3, 1), cross(0, 2, 9, 1)];
    let b = clip(4, 4, &swapped, false, false, BoolOp::Intersection).unwrap();
    assert_eq!(b, vec![vec![Vertex::Crossing(1), Vertex::Clip(2), Vertex::Clip(1), Vertex::Crossing(0)]]);
}
