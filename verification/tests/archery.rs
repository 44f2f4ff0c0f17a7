use exercises::archery::{classify, get_arrow_coords, classify_all, score_shots, Coord, Shot};

#[test]
fn bullseye_under_one_unit() {
    assert_eq!(classify(0), Shot::Bullseye);
    assert_eq!(classify(500), Shot::Bullseye);
    assert_eq!(classify(999), Shot::Bullseye);
    assert_eq!(classify(500).points(), 5);
}

#[test]
fn inner_ring_scores_two() {
    assert_eq!(classify(1000), Shot::Hit(1000));
    assert_eq!(classify(1000).points(), 2);
    assert_eq!(classify(2999).points(), 2);
}

#[test]
fn outer_ring_scores_one() {
    assert_eq!(classify(3000), Shot::Hit(3000));
    assert_eq!(classify(3000).points(), 1);
    assert_eq!(classify(4999).points(), 1);
}

#[test]
fn miss_scores_nothing() {
    assert_eq!(classify(5000), Shot::Miss);
    assert_eq!(classify(5000).points(), 0);
    assert_eq!(classify(u64::MAX).points(), 0);
}

#[test]
fn distance_of_three_four_five_triangle() {
    let c = Coord { x: 3000, y: 4000 };
    assert_eq!(c.distance_from_center(), 5000);
    assert_eq!(classify(c.distance_from_center()), Shot::Miss);
}

#[test]
fn distance_rounds_down() {
    let c = Coord { x: 1000, y: 1000 };
    // sqrt(2_000_000) is a little over 1414
    assert_eq!(c.distance_from_center(), 1414);
    let origin = Coord { x: 0, y: 0 };
    assert_eq!(origin.distance_from_center(), 0);
}

#[test]
fn generator_yields_requested_count_in_region() {
    let coords = get_arrow_coords(5);
    assert_eq!(coords.len(), 5);
    for c in &coords {
        assert!(-6000 <= c.x && c.x <= 6000);
        assert!(-6000 <= c.y && c.y <= 6000);
    }
    let empty = get_arrow_coords(0);
    assert_eq!(empty.len(), 0);
}

#[test]
fn run_yields_one_category_per_point_and_summed_total() {
    let coords = vec![
        Coord { x: 0, y: 0 },       // bullseye, 5
        Coord { x: 2000, y: 0 },    // inner ring, 2
        Coord { x: 3000, y: 3000 }, // outer ring (distance 4242), 1
        Coord { x: 6000, y: 6000 }, // miss, 0
    ];
    let shots = classify_all(&coords);
    assert_eq!(shots.len(), coords.len());
    let mut by_hand = 0;
    for s in &shots {
        by_hand += s.points();
    }
    assert_eq!(score_shots(&shots), by_hand);
    assert_eq!(score_shots(&shots), 8);
}

#[test]
fn empty_run_scores_zero() {
    let coords: Vec<Coord> = Vec::new();
    let shots = classify_all(&coords);
    assert_eq!(shots.len(), 0);
    assert_eq!(score_shots(&shots), 0);
}

#[test]
fn random_run_end_to_end() {
    let coords = get_arrow_coords(20);
    let shots = classify_all(&coords);
    assert_eq!(shots.len(), 20);
    let total = score_shots(&shots);
    assert!(0 <= total && total <= 100);
}
