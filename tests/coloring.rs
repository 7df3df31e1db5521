use mtsdf::color::Color;
use mtsdf::coloring::{
    color_contour, extract_seed_bit, extract_seed_mod3, init_color, plan_edge_colors, switch_color,
    switch_color_constrained, symmetrical_trichotomy, PlannedEdge, Portion,
};

fn edge(source: usize, portion: Portion, color: Color) -> PlannedEdge {
    PlannedEdge { source, portion, color }
}

#[test]
fn seed_bit_takes_lowest_bit() {
    let mut seed: u64 = 5;
    assert_eq!(extract_seed_bit(&mut seed), 1);
    assert_eq!(seed, 2);
    assert_eq!(extract_seed_bit(&mut seed), 0);
    assert_eq!(seed, 1);
}

#[test]
fn seed_mod3_takes_remainder() {
    let mut seed: u64 = 10;
    assert_eq!(extract_seed_mod3(&mut seed), 1);
    assert_eq!(seed, 3);
    assert_eq!(extract_seed_mod3(&mut seed), 0);
    assert_eq!(seed, 1);
}

#[test]
fn init_color_cycles_through_pairs() {
    let mut seed: u64 = 0;
    assert_eq!(init_color(&mut seed), Color::cyan());
    let mut seed: u64 = 1;
    assert_eq!(init_color(&mut seed), Color::magenta());
    let mut seed: u64 = 7;
    assert_eq!(init_color(&mut seed), Color::magenta());
    assert_eq!(seed, 2);
    let mut seed: u64 = 2;
    assert_eq!(init_color(&mut seed), Color::yellow());
    assert_eq!(seed, 0);
}

#[test]
fn switch_color_rotates_by_seed_bit() {
    let mut color = Color::cyan();
    let mut seed: u64 = 0;
    switch_color(&mut color, &mut seed);
    assert_eq!(color, Color::magenta());

    let mut color = Color::cyan();
    let mut seed: u64 = 1;
    switch_color(&mut color, &mut seed);
    assert_eq!(color, Color::yellow());
    assert_eq!(seed, 0);

    let mut color = Color::yellow();
    let mut seed: u64 = 2;
    switch_color(&mut color, &mut seed);
    assert_eq!(color, Color::cyan());
    assert_eq!(seed, 1);
}

#[test]
fn constrained_switch_avoids_banned_channel() {
    let mut color = Color::cyan();
    let mut seed: u64 = 1;
    switch_color_constrained(&mut color, &mut seed, Color::magenta());
    assert_eq!(color, Color::yellow());
    assert_eq!(seed, 1);

    let mut color = Color::cyan();
    let mut seed: u64 = 0;
    switch_color_constrained(&mut color, &mut seed, Color::black());
    assert_eq!(color, Color::magenta());

    let mut color = Color::cyan();
    let mut seed: u64 = 3;
    switch_color_constrained(&mut color, &mut seed, Color::cyan());
    assert_eq!(color, Color::yellow());
    assert_eq!(seed, 1);
}

#[test]
fn trichotomy_splits_in_thirds() {
    assert_eq!(symmetrical_trichotomy(0, 3), -1);
    assert_eq!(symmetrical_trichotomy(1, 3), 0);
    assert_eq!(symmetrical_trichotomy(2, 3), 1);
    let five: Vec<i32> = (0..5).map(|p| symmetrical_trichotomy(p, 5)).collect();
    assert_eq!(five, vec![-1, -1, 0, 1, 1]);
    assert_eq!(symmetrical_trichotomy(0, 10), -1);
    assert_eq!(symmetrical_trichotomy(4, 10), 0);
    assert_eq!(symmetrical_trichotomy(9, 10), 1);
    assert_eq!(symmetrical_trichotomy(15, 47), 0);
    assert_eq!(symmetrical_trichotomy(0, 2), -1);
    assert_eq!(symmetrical_trichotomy(1, 2), 1);
}

#[test]
fn trichotomy_is_balanced() {
    for n in 2..300 {
        let values: Vec<i32> = (0..n).map(|p| symmetrical_trichotomy(p, n)).collect();
        assert_eq!(values.iter().sum::<i32>(), 0, "n = {}", n);
        assert_eq!(values[0], -1, "n = {}", n);
        assert_eq!(values[(n - 1) as usize], 1, "n = {}", n);
        assert!(values.windows(2).all(|w| w[0] <= w[1]), "n = {}", n);
    }
}

#[test]
fn trichotomy_mirrors_about_the_middle() {
    // 47 positions: the first-half formula alone would give 1 at position 31
    assert_eq!(symmetrical_trichotomy(15, 47), 0);
    assert_eq!(symmetrical_trichotomy(31, 47), 0);
    assert_eq!(symmetrical_trichotomy(32, 47), 1);
    assert_eq!(symmetrical_trichotomy(23, 47), 0);
    let counts = (0..47).fold([0; 3], |mut c, p| {
        c[(symmetrical_trichotomy(p, 47) + 1) as usize] += 1;
        c
    });
    assert_eq!(counts, [15, 17, 15]);
}

#[test]
fn square_with_four_corners_has_no_white_edge() {
    let corners = vec![true, true, true, true];
    let mut color = Color::cyan();
    let mut seed: u64 = 0;
    let plan = color_contour(&corners, &mut color, &mut seed);
    assert_eq!(
        plan,
        vec![
            edge(0, Portion::Whole, Color::magenta()),
            edge(1, Portion::Whole, Color::yellow()),
            edge(2, Portion::Whole, Color::cyan()),
            edge(3, Portion::Whole, Color::yellow()),
        ]
    );
    for e in &plan {
        assert_ne!(e.color, Color::white());
        assert!(!e.color.is_empty());
    }
    assert_eq!(color, Color::yellow());
}

#[test]
fn runs_change_colour_only_at_corners() {
    // corners at vertices 1 and 3 of five edges: runs 1..3 and 3..1
    let corners = vec![false, true, false, true, false];
    let mut color = Color::cyan();
    let mut seed: u64 = 0;
    let plan = color_contour(&corners, &mut color, &mut seed);
    let colors: Vec<Color> = plan.iter().map(|e| e.color).collect();
    assert_eq!(colors[1], colors[2]);
    assert_eq!(colors[3], colors[4]);
    assert_eq!(colors[4], colors[0]);
    assert_ne!(colors[1], colors[3]);
    assert_eq!(colors[1], Color::magenta());
    assert_eq!(colors[3], Color::yellow());
}

#[test]
fn smooth_contour_takes_one_hue() {
    let corners = vec![false, false, false];
    let mut color = Color::cyan();
    let mut seed: u64 = 0;
    let plan = color_contour(&corners, &mut color, &mut seed);
    assert_eq!(plan.len(), 3);
    for (i, e) in plan.iter().enumerate() {
        assert_eq!(e.source, i);
        assert_eq!(e.portion, Portion::Whole);
        assert_eq!(e.color, Color::magenta());
    }
    assert_eq!(color, Color::magenta());
}

#[test]
fn empty_contour_is_skipped() {
    let corners: Vec<bool> = vec![];
    let mut color = Color::cyan();
    let mut seed: u64 = 9;
    let plan = color_contour(&corners, &mut color, &mut seed);
    assert!(plan.is_empty());
    assert_eq!(color, Color::cyan());
    assert_eq!(seed, 9);
}

#[test]
fn two_edge_teardrop_is_split_into_six() {
    let corners = vec![true, false];
    let mut color = Color::cyan();
    let mut seed: u64 = 0;
    let plan = color_contour(&corners, &mut color, &mut seed);
    assert_eq!(plan.len(), 6);
    assert_eq!(
        plan,
        vec![
            edge(0, Portion::First, Color::magenta()),
            edge(0, Portion::Middle, Color::magenta()),
            edge(0, Portion::Last, Color::white()),
            edge(1, Portion::First, Color::white()),
            edge(1, Portion::Middle, Color::yellow()),
            edge(1, Portion::Last, Color::yellow()),
        ]
    );
    for j in 0..3 {
        assert_eq!(plan[2 * j].color, plan[2 * j + 1].color);
    }
}

#[test]
fn two_edge_teardrop_starts_at_its_corner() {
    let corners = vec![false, true];
    let mut color = Color::cyan();
    let mut seed: u64 = 0;
    let plan = color_contour(&corners, &mut color, &mut seed);
    let sources: Vec<usize> = plan.iter().map(|e| e.source).collect();
    assert_eq!(sources, vec![1, 1, 1, 0, 0, 0]);
}

#[test]
fn one_edge_teardrop_gets_three_colours() {
    let corners = vec![true];
    let mut color = Color::cyan();
    let mut seed: u64 = 0;
    let plan = color_contour(&corners, &mut color, &mut seed);
    assert_eq!(
        plan,
        vec![
            edge(0, Portion::First, Color::magenta()),
            edge(0, Portion::Middle, Color::white()),
            edge(0, Portion::Last, Color::yellow()),
        ]
    );
    assert_eq!(color, Color::yellow());
}

#[test]
fn teardrop_colours_from_its_corner() {
    let corners = vec![false, false, true, false, false];
    let mut color = Color::cyan();
    let mut seed: u64 = 0;
    let plan = color_contour(&corners, &mut color, &mut seed);
    let colors: Vec<Color> = plan.iter().map(|e| e.color).collect();
    assert_eq!(
        colors,
        vec![
            Color::yellow(),
            Color::yellow(),
            Color::magenta(),
            Color::magenta(),
            Color::white(),
        ]
    );
}

#[test]
fn shape_threads_colour_between_contours() {
    let corners = vec![vec![true, true, true, true], vec![], vec![false, false, false]];
    let plans = plan_edge_colors(&corners, 0);
    assert_eq!(plans.len(), 3);
    assert_eq!(plans[0].len(), 4);
    assert!(plans[1].is_empty());
    // the square leaves yellow; the smooth contour switches once from there
    for e in &plans[2] {
        assert_eq!(e.color, Color::cyan());
    }
}

#[test]
fn shape_masks_are_never_empty() {
    for seed in 0..40u64 {
        let corners = vec![
            vec![false, false],
            vec![true],
            vec![true, false, true],
            vec![true, true, false, false, true, false],
            vec![false, true, false, false],
        ];
        let plans = plan_edge_colors(&corners, seed);
        for plan in &plans {
            for e in plan {
                assert!(!e.color.is_empty());
            }
        }
        let first = plans[0][0].color;
        assert!(plans[0].iter().all(|e| e.color == first));
        assert_ne!(first, Color::white());
    }
}
