//! The menu in which the players are chosen, and what is on screen: the
//! menu, the game, or the game at rest.

use vstd::prelude::*;
use rand::rngs::StdRng;
use crate::game::{Event, Game, GameConfig, POINTER_MAX};
use crate::geom::{Rectangle, Vector};

verus! {

/// The entry of the menu under the pointer.
#[derive(Clone, Copy, Debug, PartialEq, Eq, Structural)]
pub enum Hoover {
    Nowhere,
    Left,
    Right,
    Play,
}

/// The main menu: who plays either side, the entry under the pointer, and
/// where the entries were last drawn.
#[derive(Debug)]
pub struct MainMenu {
    /// The areas are to be measured again when the menu is next drawn.
    pub dirty: bool,
    pub bot_right: bool,
    pub bot_left: bool,
    pub hoover: Hoover,
    pub areas: Vec<(Rectangle, Hoover)>,
}

/// The entry of the first of `areas` that contains the point, `Nowhere` if none does.
pub open spec fn hoover_at(areas: Seq<(Rectangle, Hoover)>, pos: Vector) -> Hoover
    decreases areas.len(),
{
    if areas.len() == 0 {
        Hoover::Nowhere
    } else if areas[0].0.contains_point(pos.x as int, pos.y as int) {
        areas[0].1
    } else {
        hoover_at(areas.drop_first(), pos)
    }
}

impl MainMenu {
    /// The configuration that the menu shows.
    pub open spec fn config(self) -> GameConfig {
        GameConfig { bot_left: self.bot_left, bot_right: self.bot_right }
    }

    /// The game that the event starts, if it starts one: the return key does,
    /// and so does a click on the entry that says so.
    pub open spec fn starts(self, event: Event) -> Option<GameConfig> {
        match event {
            Event::ReturnPressed => Some(self.config()),
            Event::LeftPressed => if self.hoover == Hoover::Play {
                Some(self.config())
            } else {
                None
            },
            _ => None,
        }
    }

    /// `next` is the menu after the event: the pointer is followed, and a
    /// click toggles the player of the side hovered over and has the areas
    /// measured again.
    pub open spec fn followed_by(self, event: Event, next: MainMenu) -> bool {
        let click = event == Event::LeftPressed;
        &&& next.areas == self.areas
        &&& next.hoover == match event {
            Event::MouseMoved(pos) => hoover_at(self.areas@, pos),
            _ => self.hoover,
        }
        &&& next.dirty == (self.dirty || click)
        &&& next.bot_left == (self.bot_left != (click && self.hoover == Hoover::Left))
        &&& next.bot_right == (self.bot_right != (click && self.hoover == Hoover::Right))
    }

    /// A menu with a human on either side.
    pub fn new() -> (m: MainMenu)
        ensures
            m.dirty,
            !m.bot_left,
            !m.bot_right,
            m.hoover == Hoover::Nowhere,
            m.areas@.len() == 0,
    {
        MainMenu {
            bot_left: false,
            bot_right: false,
            dirty: true,
            hoover: Hoover::Nowhere,
            areas: Vec::new(),
        }
    }

    /// Follows the pointer: the entry under it is the one hovered over.
    pub fn event_hoover(&mut self, pos: Vector)
        ensures
            final(self).hoover == hoover_at(old(self).areas@, pos),
            final(self).areas == old(self).areas,
            final(self).dirty == old(self).dirty,
            final(self).bot_left == old(self).bot_left,
            final(self).bot_right == old(self).bot_right,
    {
        self.hoover = Hoover::Nowhere;
        let mut i: usize = 0;
        assert(self.areas@.skip(0) =~= self.areas@);
        while i < self.areas.len()
            invariant
                i <= self.areas.len(),
                self.areas == old(self).areas,
                self.dirty == old(self).dirty,
                self.bot_left == old(self).bot_left,
                self.bot_right == old(self).bot_right,
                self.hoover == Hoover::Nowhere,
                hoover_at(self.areas@, pos) == hoover_at(self.areas@.skip(i as int), pos),
            decreases self.areas.len() - i,
        {
            let (area, id) = self.areas[i];
            let ghost rest = self.areas@.skip(i as int);
            assert(rest[0] == self.areas@[i as int]);
            assert(rest.drop_first() =~= self.areas@.skip(i + 1));
            if area.contains(pos) {
                self.hoover = id;
                return ;
            }
            i += 1;
        }
    }

    /// Takes an input. The pointer is followed; a click toggles the player
    /// of the side hovered over, and has the areas measured again; the
    /// return key, or a click on the entry that says so, starts the game.
    pub fn event(&mut self, event: &Event) -> (r: Option<GameConfig>)
        ensures
            r == old(self).starts(*event),
            old(self).followed_by(*event, *final(self)),
    {
        match event {
            Event::ReturnPressed => Some(
                GameConfig { bot_left: self.bot_left, bot_right: self.bot_right },
            ),
            Event::MouseMoved(pos) => {
                self.event_hoover(*pos);
                None
            },
            Event::LeftPressed => {
                self.dirty = true;
                match self.hoover {
                    Hoover::Left => {
                        self.bot_left = !self.bot_left;
                        None
                    },
                    Hoover::Right => {
                        self.bot_right = !self.bot_right;
                        None
                    },
                    Hoover::Play => Some(
                        GameConfig { bot_left: self.bot_left, bot_right: self.bot_right },
                    ),
                    Hoover::Nowhere => None,
                }
            },
            _ => None,
        }
    }

    /// Records where the three entries were drawn.
    pub fn measured(&mut self, left: Rectangle, right: Rectangle, play: Rectangle)
        ensures
            final(self).areas@ == seq![
                (left, Hoover::Left),
                (right, Hoover::Right),
                (play, Hoover::Play),
            ],
            !final(self).dirty,
            final(self).hoover == old(self).hoover,
            final(self).bot_left == old(self).bot_left,
            final(self).bot_right == old(self).bot_right,
    {
        let mut areas: Vec<(Rectangle, Hoover)> = Vec::new();
        areas.push((left, Hoover::Left));
        areas.push((right, Hoover::Right));
        areas.push((play, Hoover::Play));
        assert(areas@ =~= seq![(left, Hoover::Left), (right, Hoover::Right), (play, Hoover::Play)]);
        self.areas = areas;
        self.dirty = false;
    }
}

/// What is on screen.
#[derive(Clone, Copy, Debug, PartialEq, Eq, Structural)]
pub enum Focus {
    Main,
    Game,
    Pause,
}

impl Focus {
    /// What is on screen after an input; `started` says whether the menu
    /// started a game on it. The game comes up when the menu starts one; the
    /// space bar halts the game and takes it up again; the escape key leaves
    /// the game for the menu.
    pub open spec fn after(self, event: Event, started: bool) -> Focus {
        match self {
            Focus::Main => if started {
                Focus::Game
            } else {
                Focus::Main
            },
            Focus::Pause => if event == Event::SpacePressed {
                Focus::Game
            } else {
                Focus::Pause
            },
            Focus::Game => if event == Event::EscapePressed {
                Focus::Main
            } else if event == Event::SpacePressed {
                Focus::Pause
            } else {
                Focus::Game
            },
        }
    }
}

/// The whole of what runs: the menu, the game once there is one, and which
/// of them is on screen.
#[derive(Debug)]
pub struct States {
    pub focus: Focus,
    pub game: Option<Game>,
    pub main_menu: MainMenu,
}

impl States {
    /// The game, if there is one, is in a state that it can reach.
    pub open spec fn wf(self) -> bool {
        self.game matches Some(g) ==> g@.wf()
    }

    /// The menu, with no game yet.
    pub fn new() -> (s: States)
        ensures
            s.focus == Focus::Main,
            s.game is None,
            s.wf(),
    {
        States { focus: Focus::Main, game: None, main_menu: MainMenu::new() }
    }

    /// Hands an input to whatever is on screen. In the menu it may start a
    /// game, on a round drawn from `rng`; in the game the keys that halt and
    /// leave it are taken here and everything else goes to the game; at rest
    /// only the space bar counts.
    pub fn event(&mut self, event: &Event, rng: &mut StdRng)
        requires
            old(self).wf(),
            *event matches Event::MouseMoved(p) ==> -POINTER_MAX <= p.x <= POINTER_MAX
                && -POINTER_MAX <= p.y <= POINTER_MAX,
        ensures
            final(self).wf(),
            final(self).focus == old(self).focus.after(
                *event,
                old(self).main_menu.starts(*event) is Some,
            ),
            old(self).focus == Focus::Main ==> old(self).main_menu.followed_by(
                *event,
                final(self).main_menu,
            ),
            old(self).focus == Focus::Main ==> match old(self).main_menu.starts(*event) {
                Some(config) => final(self).game matches Some(g) && g@ == crate::game::GameView::start(
                    config,
                    g@.round,
                ) && g@.round.is_fresh(),
                None => final(self).game == old(self).game,
            },
            old(self).focus == Focus::Pause ==> final(self).game == old(self).game && final(self).main_menu == old(self).main_menu,
            old(self).focus == Focus::Game ==> final(self).main_menu == old(self).main_menu && match old(self).game {
                Some(g) => final(self).game matches Some(h) && h@ == if *event
                    == Event::EscapePressed || *event == Event::SpacePressed {
                    g@
                } else {
                    g@.after_event(*event)
                },
                None => final(self).game is None,
            },
    {
        match self.focus {
            Focus::Main => {
                if let Some(config) = self.main_menu.event(event) {
                    self.game = Some(Game::new(config, rng));
                    self.focus = Focus::Game;
                }
            },
            Focus::Pause => {
                if let Event::SpacePressed = event {
                    self.focus = Focus::Game;
                }
            },
            Focus::Game => {
                match event {
                    Event::EscapePressed => {
                        self.focus = Focus::Main;
                    },
                    Event::SpacePressed => {
                        self.focus = Focus::Pause;
                    },
                    _ => {
                        if let Some(game) = &mut self.game {
                            game.event(event);
                        }
                    },
                }
            },
        }
    }

    /// Lets a tick pass: the game advances while it is on screen.
    pub fn update(&mut self, rng: &mut StdRng)
        requires
            old(self).wf(),
            old(self).game matches Some(g) ==> g.points_left < u32::MAX && g.points_right
                < u32::MAX,
        ensures
            final(self).wf(),
            final(self).focus == old(self).focus,
            final(self).main_menu == old(self).main_menu,
            match old(self).game {
                Some(g) => final(self).game matches Some(h) && if old(self).focus == Focus::Game {
                    exists|fresh: crate::round::RoundView, sparks: Seq<crate::shot::Particle>|
                        g@.draws_ok(fresh, sparks) && h@ == #[trigger] g@.ticked(fresh, sparks)
                } else {
                    h@ == g@
                },
                None => final(self).game is None,
            },
    {
        match self.focus {
            Focus::Game => {
                if let Some(game) = &mut self.game {
                    game.update(rng);
                }
            },
            _ => {},
        }
    }
}

} // verus!
