use gorillas::circle::CircleF;
use gorillas::game::{Event, Game, GameConfig};
use gorillas::game_common::Side;
use gorillas::geom::Vector;
use gorillas::shot::Shot;
use rand::rngs::StdRng;
use rand::SeedableRng;

const PX: i64 = 1_000_000;

fn start(bot_left: bool, bot_right: bool, seed: u64) -> (Game, StdRng) {
    let mut rng = StdRng::seed_from_u64(seed);
    let game = Game::new(GameConfig { bot_left, bot_right }, &mut rng);
    (game, rng)
}

fn resting_shot(at: Vector) -> Shot {
    Shot { circle: CircleF::new(at, 10 * PX), velocity: Vector::new(0, 0), spin_angle: 0 }
}

#[test]
fn new_game_is_idle_with_the_left_player_to_move() {
    let (g, _) = start(false, true, 1);
    assert_eq!(g.turn, Side::Left);
    assert_eq!((g.points_left, g.points_right), (0, 0));
    assert!(g.shot.is_none() && g.explosion_state.is_none() && g.new_game.is_none());
    assert!(!g.shot_in_progress());
    assert!(!g.counting);
    assert_eq!(g.counter, 0);
    assert!(g.particles.is_empty() && g.explosion_masks.is_empty());
    assert!(g.bot_left.is_none());
    let bot = g.bot_right.expect("the computer plays the right side");
    assert_eq!(bot.counter, 0);
    assert_eq!(bot.pos, g.round.gorilla_right.center());
    assert_eq!(bot.target, g.round.gorilla_left.center());
    assert!(bot.dir.x < 0);
    assert_eq!(*g.gorilla_from_side(Side::Left), g.round.gorilla_left);
    assert_eq!(*g.gorilla_from_side(Side::Right), g.round.gorilla_right);
}

#[test]
fn shot_leaving_to_the_right_passes_the_turn_without_explosion() {
    let (mut g, mut rng) = start(false, false, 2);
    g.shot = Some(Shot {
        circle: CircleF::new(Vector::new(799 * PX, 10 * PX), 10 * PX),
        velocity: Vector::new(1_000_000, 0),
        spin_angle: 0,
    });
    g.update(&mut rng);
    assert!(g.shot.is_none());
    assert!(g.explosion_state.is_none());
    assert_eq!(g.turn, Side::Right);
    assert!(g.particles.is_empty() && g.explosion_masks.is_empty());
    assert_eq!((g.points_left, g.points_right), (0, 0));
    assert!(g.round.buildings.iter().all(|b| b.fragments.is_none()));
}

#[test]
fn shot_in_the_air_flies_on() {
    let (mut g, mut rng) = start(false, false, 3);
    g.round.wind = Vector::new(PX, 0);
    g.shot = Some(Shot {
        circle: CircleF::new(Vector::new(400 * PX, 10 * PX), 10 * PX),
        velocity: Vector::new(100_000, -200_000),
        spin_angle: 358,
    });
    g.update(&mut rng);
    let s = g.shot.expect("still in flight");
    assert_eq!(s.circle.pos, Vector::new(400 * PX + 1_666_700, 10 * PX - 3_333_400));
    assert_eq!(s.velocity, Vector::new(103_000, -188_000));
    assert_eq!(s.spin_angle, 3);
    assert_eq!(g.turn, Side::Left);
    assert!(g.shot_in_progress());
}

#[test]
fn terrain_hit_explodes_without_particles() {
    let (mut g, mut rng) = start(false, false, 4);
    g.round.wind = Vector::new(0, 0);
    let roof = g.round.buildings[0].bound_box;
    let at = Vector::new(roof.center().x, roof.pos.y - 5 * PX);
    g.shot = Some(resting_shot(at));
    g.update(&mut rng);
    assert!(g.shot.is_none());
    let e = g.explosion_state.expect("an explosion");
    assert_eq!(e.frame, 0);
    assert_eq!(e.pos, Vector::new(at.x - 48 * PX, at.y - 48 * PX));
    assert!(g.particles.is_empty());
    assert!(g.new_game.is_none());
    assert_eq!(g.explosion_masks.len(), 1);
    assert_eq!(g.explosion_masks[0].radius, 40 * PX);
    assert_eq!(g.explosion_masks[0].pos, at);
    let parts = g.round.buildings[0].fragments.as_ref().expect("building 0 is damaged");
    assert!(parts.iter().all(|p| !g.explosion_masks[0].overlaps(p)));
    assert_eq!(g.turn, Side::Left);
    // The explosion lasts 25 ticks, then the turn passes on and the round stays.
    for tick in 1..=24 {
        g.update(&mut rng);
        assert_eq!(g.explosion_state.expect("still exploding").frame, tick);
        assert_eq!(g.turn, Side::Left);
    }
    g.update(&mut rng);
    assert!(g.explosion_state.is_none());
    assert_eq!(g.turn, Side::Right);
    assert!(g.round.buildings[0].fragments.is_some());
    assert_eq!(g.explosion_masks.len(), 1);
}

#[test]
fn player_hit_scores_and_the_round_is_replaced_with_the_score_kept() {
    let (mut g, mut rng) = start(false, false, 5);
    g.round.wind = Vector::new(0, 0);
    g.points_left = 3;
    g.points_right = 7;
    let victim = g.round.gorilla_right.center();
    g.shot = Some(resting_shot(victim));
    g.update(&mut rng);
    assert_eq!((g.points_left, g.points_right), (4, 7));
    assert_eq!(g.new_game, Some(Side::Left));
    assert!(g.shot.is_none());
    assert_eq!(g.explosion_state.expect("an explosion").frame, 0);
    assert_eq!(g.particles.len(), 1024);
    assert!(g.particles.iter().all(|p| p.pos == victim && p.color < 10));
    assert!(g
        .particles
        .iter()
        .all(|p| p.velocity.x.abs() <= 300_000 && p.velocity.y.abs() <= 300_000));
    assert!(g.particles.iter().any(|p| p.velocity != g.particles[0].velocity));
    assert_eq!(g.explosion_masks.len(), 1);
    assert_eq!(g.explosion_masks[0].pos, victim);
    let first = g.particles[0];
    g.update(&mut rng);
    assert_eq!(g.particles[0], first.advance(0));
    for _ in 1..24 {
        g.update(&mut rng);
    }
    assert_eq!(g.explosion_state.expect("last frame").frame, 24);
    g.update(&mut rng);
    // Regenerated: the score persists, nothing of the terrain state does.
    assert_eq!((g.points_left, g.points_right), (4, 7));
    assert!(g.round.buildings.iter().all(|b| b.fragments.is_none()));
    assert!(g.explosion_masks.is_empty());
    assert!(g.particles.is_empty());
    assert!(g.explosion_state.is_none());
    assert!(g.new_game.is_none());
    assert_eq!(g.turn, Side::Right);
}

#[test]
fn hit_on_the_left_player_scores_for_the_right() {
    let (mut g, mut rng) = start(false, false, 6);
    g.round.wind = Vector::new(0, 0);
    g.shot = Some(resting_shot(g.round.gorilla_left.center()));
    g.update(&mut rng);
    assert_eq!((g.points_left, g.points_right), (0, 1));
    assert_eq!(g.new_game, Some(Side::Right));
}

#[test]
fn regeneration_resets_the_bots_towards_the_new_targets() {
    let (mut g, mut rng) = start(true, true, 7);
    g.round.wind = Vector::new(0, 0);
    g.shot = Some(resting_shot(g.round.gorilla_right.center()));
    g.update(&mut rng);
    for _ in 0..25 {
        g.update(&mut rng);
    }
    assert!(g.new_game.is_none());
    let left = g.bot_left.expect("left bot");
    let right = g.bot_right.expect("right bot");
    assert_eq!(left.pos, g.round.gorilla_left.center());
    assert_eq!(left.target, g.round.gorilla_right.center());
    assert_eq!(right.pos, g.round.gorilla_right.center());
    assert_eq!(right.target, g.round.gorilla_left.center());
    assert_eq!(left.counter, 0);
    assert_eq!(
        left.dir,
        Vector::new(left.target.x - left.pos.x, left.target.y - left.pos.y).normalize()
    );
}

#[test]
fn bot_launches_on_its_sixty_seventh_tick() {
    let (mut g, mut rng) = start(true, false, 8);
    for tick in 1..=66 {
        g.update(&mut rng);
        assert!(!g.shot_in_progress());
        assert_eq!(g.bot_left.expect("left bot").counter, 3 * tick);
        assert_eq!(g.turn, Side::Left);
    }
    g.update(&mut rng);
    assert_eq!(g.bot_left.expect("left bot").counter, 0);
    assert!(g.shot_in_progress() || g.turn == Side::Right);
}

#[test]
fn bot_corrects_its_aim_after_a_miss() {
    let (mut g, mut rng) = start(true, false, 9);
    let before = g.bot_left.expect("left bot");
    g.shot = Some(Shot {
        circle: CircleF::new(Vector::new(799 * PX, 10 * PX), 10 * PX),
        velocity: Vector::new(1_000_000, 0),
        spin_angle: 0,
    });
    g.update(&mut rng);
    let after = g.bot_left.expect("left bot");
    // The shot went past the target of a bot that stands left of it: the aim is lowered.
    assert_eq!(
        after.dir,
        Vector::new(before.dir.x, before.dir.y + 100_000).normalize()
    );
    assert_eq!(g.turn, Side::Right);
}

#[test]
fn charge_rises_by_three_and_falls_by_four() {
    let (mut g, mut rng) = start(false, false, 10);
    g.event(&Event::LeftPressed);
    assert!(g.counting);
    for tick in 1..=66 {
        g.update(&mut rng);
        assert_eq!(g.counter, 3 * tick);
    }
    g.update(&mut rng);
    assert_eq!(g.counter, 200);
    g.update(&mut rng);
    assert_eq!(g.counter, 200);
    g.counting = false;
    g.update(&mut rng);
    assert_eq!(g.counter, 196);
    g.counter = 3;
    g.update(&mut rng);
    assert_eq!(g.counter, 0);
    g.update(&mut rng);
    assert_eq!(g.counter, 0);
}

#[test]
fn release_launches_towards_the_pointer() {
    let (mut g, mut rng) = start(false, false, 11);
    let center = g.round.gorilla_left.center();
    g.event(&Event::MouseMoved(Vector::new(center.x + 300 * PX, center.y - 400 * PX)));
    assert_eq!(g.mouse_pos, Vector::new(center.x + 300 * PX, center.y - 400 * PX));
    g.event(&Event::LeftReleased);
    assert!(g.shot.is_none());
    g.event(&Event::LeftPressed);
    for _ in 0..10 {
        g.update(&mut rng);
    }
    assert_eq!(g.counter, 30);
    g.event(&Event::LeftReleased);
    assert!(!g.counting);
    let s = g.shot.expect("a shot");
    assert_eq!(s.circle.pos, Vector::new(center.x + 36 * PX, center.y - 48 * PX));
    assert_eq!(s.circle.radius, 10 * PX);
    assert_eq!(s.velocity, Vector::new(108_000, -144_000));
    // While the shot is in progress the button does nothing.
    g.event(&Event::LeftPressed);
    assert!(!g.counting);
}

#[test]
fn pointer_on_the_player_aims_level_at_the_opponent() {
    let (mut g, _) = start(false, false, 12);
    let center = g.round.gorilla_left.center();
    g.event(&Event::MouseMoved(center));
    g.counter = 100;
    g.event(&Event::LeftPressed);
    g.event(&Event::LeftReleased);
    let s = g.shot.expect("a shot");
    assert_eq!(s.circle.pos, Vector::new(center.x + 60 * PX, center.y));
    assert_eq!(s.velocity, Vector::new(600_000, 0));
    let (mut h, _) = start(false, false, 12);
    h.turn = Side::Right;
    let center = h.round.gorilla_right.center();
    h.event(&Event::MouseMoved(center));
    h.counter = 100;
    h.event(&Event::LeftPressed);
    h.event(&Event::LeftReleased);
    assert_eq!(h.shot.expect("a shot").velocity, Vector::new(-600_000, 0));
}

#[test]
fn input_is_ignored_while_the_computer_moves() {
    let (mut g, _) = start(true, false, 13);
    g.event(&Event::MouseMoved(Vector::new(5, 5)));
    g.event(&Event::LeftPressed);
    assert_eq!(g.mouse_pos, Vector::new(0, 0));
    assert!(!g.counting);
    g.turn = Side::Right;
    g.event(&Event::LeftPressed);
    assert!(g.counting);
    g.event(&Event::EscapePressed);
    g.event(&Event::Other);
    assert!(g.counting);
}

#[test]
fn launch_takes_direction_and_power() {
    let (mut g, _) = start(false, false, 14);
    g.counting = true;
    let center = g.round.gorilla_left.center();
    g.launch(Vector::new(0, -PX), 200);
    let s = g.shot.expect("a shot");
    assert_eq!(s.circle.pos, Vector::new(center.x, center.y - 60 * PX));
    assert_eq!(s.velocity, Vector::new(0, -1_200_000));
    assert!(!g.counting);
    assert!(g.shot_in_progress());
}
