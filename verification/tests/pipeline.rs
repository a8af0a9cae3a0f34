use rand::SeedableRng;
use rand::rngs::StdRng;
use voronoi_lines::Line;
use voronoi_lines::Point;
use voronoi_lines::Rect;
use voronoi_lines::Voronoi;

#[test]
fn sampler_produces_exactly_n_points() {
    for n in [0u64, 1, 2, 5, 10] {
        let mut rng = StdRng::seed_from_u64(7);
        let points = Voronoi::gen_points(n, &mut rng);
        assert_eq!(points.len() as u64, n);
        for p in points {
            assert!((0..=14).contains(&p.x));
            assert!((0..=14).contains(&p.y));
        }
    }
}

#[test]
fn pair_builder_uses_each_index_pair_once() {
    let points = vec![
        Point::new(0, 0),
        Point::new(1, 5),
        Point::new(2, 3),
        Point::new(4, 4),
    ];
    let lines = Voronoi::gen_lines_initial(points.clone());
    assert_eq!(lines.len(), 6);
    let expected = vec![
        Line::new(points[0], points[1]),
        Line::new(points[0], points[2]),
        Line::new(points[0], points[3]),
        Line::new(points[1], points[2]),
        Line::new(points[1], points[3]),
        Line::new(points[2], points[3]),
    ];
    assert_eq!(lines, expected);
}

#[test]
fn pair_builder_small_inputs() {
    assert_eq!(Voronoi::gen_lines_initial(vec![]).len(), 0);
    assert_eq!(Voronoi::gen_lines_initial(vec![Point::new(1, 1)]).len(), 0);
    assert_eq!(
        Voronoi::gen_lines_initial(vec![Point::new(1, 1), Point::new(2, 2)]),
        vec![Line::new_from_coords(1, 1, 2, 2)]
    );
}

#[test]
fn midpoint_builder_pairs_midpoints() {
    let lines = vec![
        Line::new_from_coords(0, 0, 4, 4),
        Line::new_from_coords(0, 0, 3, 3),
        Line::new_from_coords(2, 2, 6, 10),
    ];
    // Midpoints: (2,2), (1,1), (4,6).
    let mids = Voronoi::gen_lines_midpoint(lines);
    let expected = vec![
        Line::new_from_coords(2, 2, 1, 1),
        Line::new_from_coords(2, 2, 4, 6),
        Line::new_from_coords(1, 1, 4, 6),
    ];
    assert_eq!(mids, expected);
}

#[test]
fn pruner_keeps_both_non_colliding_equal_lengths() {
    let l1 = Line::new_from_coords(0, 0, 4, 0);
    let l2 = Line::new_from_coords(10, 0, 10, 4);
    let pruned = Voronoi::prune_lines(vec![l1, l2]);
    assert_eq!(pruned, vec![l1, l2]);
}

#[test]
fn pruner_discards_on_collision_with_shorter() {
    // The longer segment collides with the shorter one, so the pass
    // discards the longer and keeps the shorter, which has nothing after
    // it to collide with.
    let longer = Line::new_from_coords(0, 0, 8, 0);
    let shorter = Line::new_from_coords(0, 5, 4, 5);
    assert!(longer.collides(shorter));
    let pruned = Voronoi::prune_lines(vec![shorter, longer]);
    assert_eq!(pruned, vec![shorter]);
}

#[test]
fn pruner_sorts_longest_first() {
    let short = Line::new_from_coords(10, 0, 10, 4);
    let long = Line::new_from_coords(0, 0, 0, 9);
    let pruned = Voronoi::prune_lines(vec![short, long]);
    assert_eq!(pruned, vec![long, short]);
}

#[test]
fn pruner_empty_input_gives_empty_output() {
    assert_eq!(Voronoi::prune_lines(vec![]).len(), 0);
}

#[test]
fn pruner_is_idempotent_on_its_output() {
    let input = vec![
        Line::new_from_coords(0, 0, 8, 0),
        Line::new_from_coords(0, 5, 4, 5),
        Line::new_from_coords(10, 0, 10, 4),
        Line::new_from_coords(0, 0, 3, 4),
        Line::new_from_coords(1, 1, 1, 1),
    ];
    let once = Voronoi::prune_lines(input);
    let twice = Voronoi::prune_lines(once.clone());
    assert_eq!(once, twice);
}

#[test]
fn seeded_run_matches_golden_output() {
    // With this seed the three sampled points are (0, 11), (0, 0) and
    // (13, 14): a non-degenerate triangle. The run is deterministic, so
    // the pruned segments must match this recorded output exactly.
    let mut rng = StdRng::seed_from_u64(6);
    let points = Voronoi::gen_points(3, &mut rng);
    assert_eq!(
        points,
        vec![Point::new(0, 11), Point::new(0, 0), Point::new(13, 14)]
    );

    let mut rng = StdRng::seed_from_u64(6);
    let (voronoi, lines) =
        Voronoi::new(3, Rect::new_from_coords(-10, -10, 10, 10), &mut rng);
    assert_eq!(voronoi.polygons.len(), 0);
    assert_eq!(
        lines,
        vec![
            Line::new_from_coords(0, 5, 6, 12),
            Line::new_from_coords(0, 5, 6, 7),
            Line::new_from_coords(6, 12, 6, 7),
        ]
    );
    let printed: Vec<String> = lines
        .iter()
        .map(|l| format!("{} {} {} {}", l.a.x, l.a.y, l.b.x, l.b.y))
        .collect();
    assert_eq!(printed, vec!["0 5 6 12", "0 5 6 7", "6 12 6 7"]);
}
