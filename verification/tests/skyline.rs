use gorillas::building::Building;
use gorillas::game_common::Side;
use gorillas::geom::Vector;
use gorillas::round::{next_side, place_gorilla, wind_from, Round};
use rand::rngs::StdRng;
use rand::SeedableRng;

const PX: i64 = 1_000_000;

fn check_tiles(b: &Building) {
    let cols = (b.bound_box.size.x / PX / 16 + 1) as usize;
    let rows = (b.bound_box.size.y / PX / 16) as usize;
    assert_eq!(b.tiles.len(), cols * (rows + 1));
    let co = b.tiles[0];
    assert!([0, 8, 16, 24].contains(&co));
    for c in 1..cols - 1 {
        assert_eq!(b.tiles[c], co + 1);
    }
    assert_eq!(b.tiles[cols - 1], co + 2);
    for r in 1..=rows {
        assert_eq!(b.tiles[r * cols], co + 3);
        for c in 1..cols - 1 {
            let t = b.tiles[r * cols + c];
            assert!(co + 5 <= t && t < co + 8);
        }
        assert_eq!(b.tiles[r * cols + cols - 1], co + 4);
    }
}

#[test]
fn skyline_is_a_row_of_towers_from_the_left_edge() {
    for seed in 0..20 {
        let mut rng = StdRng::seed_from_u64(seed);
        let bs = Building::buildings(&mut rng);
        assert!(8 <= bs.len() && bs.len() <= 11);
        let mut x = 0;
        for (i, b) in bs.iter().enumerate() {
            assert_eq!(b.bound_box.pos.x, x);
            assert!(b.bound_box.pos.x <= 800 * PX);
            assert!([64 * PX, 80 * PX, 96 * PX].contains(&b.bound_box.size.x));
            assert_eq!(b.bound_box.pos.y % (16 * PX), 0);
            assert!(256 * PX <= b.bound_box.pos.y && b.bound_box.pos.y <= 496 * PX);
            assert_eq!(b.bound_box.pos.y + b.bound_box.size.y, 600 * PX);
            assert!(b.fragments.is_none());
            check_tiles(b);
            x += b.bound_box.size.x + 8 * PX;
            if i + 1 == bs.len() {
                assert!(bs.len() == 11 || x > 800 * PX);
            }
        }
    }
}

#[test]
fn skyline_draws_vary() {
    let mut rng = StdRng::seed_from_u64(42);
    let bs = Building::buildings(&mut rng);
    assert!(bs.iter().any(|b| b.bound_box.size.x != bs[0].bound_box.size.x));
    assert!(bs.iter().any(|b| b.bound_box.pos.y != bs[0].bound_box.pos.y));
    assert!(bs.iter().any(|b| b.bound_box.pos.y != 256 * PX));
    assert!(bs.iter().any(|b| b.bound_box.size.x != 64 * PX));
    let mids: Vec<usize> = bs.iter().flat_map(|b| b.tiles.iter().map(|t| t % 8)).collect();
    assert!(mids.contains(&6) || mids.contains(&7));
}

#[test]
fn same_seed_gives_the_same_round() {
    let a = Round::new(&mut StdRng::seed_from_u64(99));
    let b = Round::new(&mut StdRng::seed_from_u64(99));
    assert_eq!(a.gorilla_left, b.gorilla_left);
    assert_eq!(a.gorilla_right, b.gorilla_right);
    assert_eq!(a.wind, b.wind);
    assert_eq!(a.buildings.len(), b.buildings.len());
    for (x, y) in a.buildings.iter().zip(b.buildings.iter()) {
        assert_eq!(x.bound_box, y.bound_box);
        assert_eq!(x.tiles, y.tiles);
    }
}

#[test]
fn round_puts_the_players_on_roofs_left_and_right() {
    for seed in 0..30 {
        let mut rng = StdRng::seed_from_u64(seed);
        let round = Round::new(&mut rng);
        let n = round.buildings.len();
        let roof_of = |g: &gorillas::geom::Rectangle| {
            round
                .buildings
                .iter()
                .position(|b| {
                    b.bound_box.center().x - 32 * PX == g.pos.x
                        && b.bound_box.pos.y - 96 * PX == g.pos.y
                })
                .expect("the player stands on a roof")
        };
        assert_eq!(round.gorilla_left.size, Vector::new(64 * PX, 96 * PX));
        assert_eq!(round.gorilla_right.size, Vector::new(64 * PX, 96 * PX));
        let l = roof_of(&round.gorilla_left);
        let r = roof_of(&round.gorilla_right);
        let fl = n - 1;
        assert!(1 <= l && l < std::cmp::max(fl / 2 - 2, 2));
        assert!(fl / 2 + 2 <= r && r < fl);
        assert!(round.gorilla_left.center().x < round.gorilla_right.center().x);
        assert!(round.gorilla_left.pos.x >= 0);
        assert!(round.gorilla_right.pos.x + round.gorilla_right.size.x <= 800 * PX);
        assert!(round.wind.y >= 0);
        assert!(round.wind.x.abs() <= 2 * PX && round.wind.y <= 2 * PX);
        // The wind has a strength from one to two.
        let strength2 = round.wind.x as i128 * round.wind.x as i128
            + round.wind.y as i128 * round.wind.y as i128;
        assert!(999_990i128 * 999_990 <= strength2 && strength2 < 2_000_002i128 * 2_000_002);
        assert_eq!(*round.gorilla_from_side(Side::Left), round.gorilla_left);
        assert_eq!(*round.gorilla_from_side(Side::Right), round.gorilla_right);
    }
}

#[test]
fn place_gorilla_on_six_buildings() {
    let bs: Vec<Building> = (0..6)
        .map(|i| {
            Building::new(
                gorillas::geom::Rectangle::new(
                    Vector::new(i * 72 * PX, 400 * PX),
                    Vector::new(64 * PX, 200 * PX),
                ),
                vec![],
            )
        })
        .collect();
    for seed in 0..10 {
        let mut rng = StdRng::seed_from_u64(seed);
        let l = place_gorilla(Side::Left, &bs, &mut rng);
        assert_eq!(l.pos, Vector::new(72 * PX, 304 * PX));
        let r = place_gorilla(Side::Right, &bs, &mut rng);
        assert_eq!(r.pos, Vector::new(4 * 72 * PX, 304 * PX));
    }
}

#[test]
fn wind_from_scales_the_direction_by_the_strength() {
    assert_eq!(wind_from(3 * PX, 4 * PX, 1_500_000), Vector::new(900_000, 1_200_000));
    assert_eq!(wind_from(-3 * PX, 4 * PX, 2_000_000), Vector::new(-1_200_000, 1_600_000));
    assert_eq!(wind_from(0, 0, 1_500_000), Vector::new(0, 1_500_000));
    assert_eq!(wind_from(0, 7, 1_500_000), Vector::new(0, 1_500_000));
    assert_eq!(wind_from(1, 1, 1_000_000), Vector::new(707_107, 707_107));
    assert_eq!(wind_from(-5, 0, 1_000_001), Vector::new(-1_000_001, 0));
}

#[test]
fn next_side_alternates() {
    assert_eq!(next_side(Side::Left), Side::Right);
    assert_eq!(next_side(Side::Right), Side::Left);
}
