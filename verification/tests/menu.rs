use gorillas::game::{Event, GameConfig};
use gorillas::geom::{Rectangle, Vector};
use gorillas::menu::{Focus, Hoover, MainMenu, States};
use gorillas::rain::{new_rain, rain_step, update_rain};
use rand::rngs::StdRng;
use rand::SeedableRng;

const PX: i64 = 1_000_000;

fn rect(x: i64, y: i64, w: i64, h: i64) -> Rectangle {
    Rectangle::new(Vector::new(x * PX, y * PX), Vector::new(w * PX, h * PX))
}

fn menu() -> MainMenu {
    let mut m = MainMenu::new();
    m.measured(rect(100, 280, 200, 40), rect(500, 280, 200, 40), rect(300, 430, 200, 40));
    m
}

#[test]
fn new_menu_has_two_humans_and_is_to_be_measured() {
    let m = MainMenu::new();
    assert!(m.dirty && !m.bot_left && !m.bot_right);
    assert_eq!(m.hoover, Hoover::Nowhere);
    assert!(m.areas.is_empty());
    let n = menu();
    assert!(!n.dirty);
    assert_eq!(n.areas.len(), 3);
    assert_eq!(n.areas[1], (rect(500, 280, 200, 40), Hoover::Right));
}

#[test]
fn pointer_picks_the_first_area_that_contains_it() {
    let mut m = menu();
    m.event_hoover(Vector::new(150 * PX, 300 * PX));
    assert_eq!(m.hoover, Hoover::Left);
    m.event_hoover(Vector::new(600 * PX, 300 * PX));
    assert_eq!(m.hoover, Hoover::Right);
    m.event_hoover(Vector::new(400 * PX, 450 * PX));
    assert_eq!(m.hoover, Hoover::Play);
    m.event_hoover(Vector::new(400 * PX, 300 * PX));
    assert_eq!(m.hoover, Hoover::Nowhere);
    m.areas.push((rect(0, 0, 800, 600), Hoover::Play));
    m.areas.swap(0, 3);
    m.event_hoover(Vector::new(600 * PX, 300 * PX));
    assert_eq!(m.hoover, Hoover::Play);
}

#[test]
fn click_toggles_the_side_under_the_pointer() {
    let mut m = menu();
    assert_eq!(m.event(&Event::MouseMoved(Vector::new(150 * PX, 300 * PX))), None);
    assert_eq!(m.event(&Event::LeftPressed), None);
    assert!(m.bot_left && !m.bot_right && m.dirty);
    assert_eq!(m.event(&Event::LeftPressed), None);
    assert!(!m.bot_left);
    m.event(&Event::MouseMoved(Vector::new(600 * PX, 300 * PX)));
    m.event(&Event::LeftPressed);
    assert!(m.bot_right);
    assert_eq!(m.event(&Event::LeftReleased), None);
    assert_eq!(m.event(&Event::Other), None);
}

#[test]
fn return_or_a_click_on_play_starts_the_game() {
    let mut m = menu();
    m.bot_right = true;
    let config = GameConfig { bot_left: false, bot_right: true };
    assert_eq!(m.event(&Event::ReturnPressed), Some(config));
    assert!(!m.dirty);
    m.event(&Event::MouseMoved(Vector::new(400 * PX, 450 * PX)));
    assert_eq!(m.event(&Event::LeftPressed), Some(config));
    assert!(m.dirty);
}

#[test]
fn focus_moves_between_menu_game_and_rest() {
    let mut rng = StdRng::seed_from_u64(1);
    let mut s = States::new();
    assert_eq!(s.focus, Focus::Main);
    assert!(s.game.is_none());
    s.update(&mut rng);
    s.event(&Event::SpacePressed, &mut rng);
    s.event(&Event::EscapePressed, &mut rng);
    assert_eq!(s.focus, Focus::Main);
    assert!(s.game.is_none());
    s.event(&Event::ReturnPressed, &mut rng);
    assert_eq!(s.focus, Focus::Game);
    assert!(s.game.is_some());
    s.event(&Event::SpacePressed, &mut rng);
    assert_eq!(s.focus, Focus::Pause);
    s.event(&Event::EscapePressed, &mut rng);
    s.event(&Event::LeftPressed, &mut rng);
    assert_eq!(s.focus, Focus::Pause);
    assert!(!s.game.as_ref().unwrap().counting);
    s.event(&Event::SpacePressed, &mut rng);
    assert_eq!(s.focus, Focus::Game);
    s.event(&Event::LeftPressed, &mut rng);
    assert!(s.game.as_ref().unwrap().counting);
    s.event(&Event::EscapePressed, &mut rng);
    assert_eq!(s.focus, Focus::Main);
    assert!(s.game.is_some());
}

#[test]
fn game_advances_only_while_on_screen() {
    let mut rng = StdRng::seed_from_u64(2);
    let mut s = States::new();
    s.event(&Event::ReturnPressed, &mut rng);
    s.event(&Event::LeftPressed, &mut rng);
    s.update(&mut rng);
    assert_eq!(s.game.as_ref().unwrap().counter, 3);
    s.event(&Event::SpacePressed, &mut rng);
    s.update(&mut rng);
    assert_eq!(s.game.as_ref().unwrap().counter, 3);
    s.event(&Event::SpacePressed, &mut rng);
    s.update(&mut rng);
    assert_eq!(s.game.as_ref().unwrap().counter, 6);
}

#[test]
fn rain_falls_with_the_wind() {
    let d = rain_step(Vector::new(100 * PX, 100 * PX), Vector::new(PX, 500_000), 7, 9);
    assert_eq!(d, Vector::new(105 * PX, 100 * PX + 2_560_000));
}

#[test]
fn rain_comes_back_when_it_leaves_the_field() {
    let wind = Vector::new(-2 * PX, 0);
    assert_eq!(rain_step(Vector::new(5 * PX, 100 * PX), wind, 7, 9), Vector::new(800 * PX, 9));
    let east = Vector::new(2 * PX, 0);
    assert_eq!(rain_step(Vector::new(795 * PX, 100 * PX), east, 7, 9), Vector::new(0, 9));
    let down = Vector::new(0, 2 * PX);
    assert_eq!(rain_step(Vector::new(5 * PX, 595 * PX), down, 7, 9), Vector::new(7, 0));
    // Falling out at the bottom is tested first.
    assert_eq!(rain_step(Vector::new(5 * PX, 600 * PX), wind, 7, 9), Vector::new(7, 0));
}

#[test]
fn rain_stays_in_the_field() {
    let mut rng = StdRng::seed_from_u64(3);
    let mut drops = new_rain(&mut rng);
    assert_eq!(drops.len(), 128);
    assert!(drops.iter().any(|d| *d != drops[0]));
    let wind = Vector::new(-1_500_000, 300_000);
    for _ in 0..200 {
        let before = drops.clone();
        update_rain(&mut drops, wind, &mut rng);
        assert_eq!(drops.len(), 128);
        for (b, d) in before.iter().zip(drops.iter()) {
            assert!(0 <= d.x && d.x <= 800 * PX && 0 <= d.y && d.y <= 600 * PX);
            let moved = Vector::new(b.x - 7_500_000, b.y + 1_560_000);
            assert!(*d == moved || d.y == 0 || d.x == 800 * PX || d.x == 0);
        }
    }
}
