//! The game: whose turn it is, the shot in flight, the explosion on screen,
//! the score, and the step that takes all of it from one tick to the next.

use vstd::prelude::*;
use rand::rngs::StdRng;
use crate::bot::{update_bot, Bot};
use crate::building::{is_hit_list, views};
use crate::circle::CircleF;
use crate::game_common::{Explosion, Side};
use crate::game_constants::{
    EXPLOSION_FRAMES, EXPLOSION_HALF, HUMAN_START_RADII, PALETTE_LEN, PARTICLE_COUNT,
    PARTICLE_MAX_VEL, PARTICLE_MIN_VEL, POWER_FALL, POWER_MAX, POWER_RISE, SCALE,
};
use crate::geom::{is_direction, lemma_level_directions, normalized, Rectangle, Vector};
use crate::physics::{
    blasted, classify, collision, destroy_terrain, lemma_damaged_untouched, splash, Collision, Hit,
};
use crate::rng::gen_range;
use crate::round::{next_side, other, Round, RoundView};
use crate::shot::{in_field, in_reach, launch, launched, Particle, Shot};

verus! {

/// Which of the two players the computer plays.
#[derive(Clone, Copy, Debug, PartialEq, Eq, Structural)]
pub struct GameConfig {
    pub bot_left: bool,
    pub bot_right: bool,
}

/// What the player at the controls has done.
#[derive(Clone, Copy, Debug, PartialEq, Eq, Structural)]
pub enum Event {
    /// The pointer is now at this position.
    MouseMoved(Vector),
    /// The launch button went down.
    LeftPressed,
    /// The launch button came up.
    LeftReleased,
    /// The return key went down.
    ReturnPressed,
    /// The escape key went down.
    EscapePressed,
    /// The space bar went down.
    SpacePressed,
    /// Anything else.
    Other,
}

/// No coordinate of the pointer may exceed this.
pub const POINTER_MAX: i64 = 4_000_000_000_000_000_000;

/// The state of a game.
#[derive(Debug)]
pub struct Game {
    pub round: Round,
    /// The player at the controls is holding the launch button.
    pub counting: bool,
    /// The charge counter of the player at the controls.
    pub counter: i32,
    pub explosion_state: Option<Explosion>,
    /// The splash of every explosion of this round.
    pub explosion_masks: Vec<CircleF>,
    pub shot: Option<Shot>,
    pub turn: Side,
    pub points_left: u32,
    pub points_right: u32,
    /// Set when a player was hit: the round is replaced when the explosion ends.
    pub new_game: Option<Side>,
    pub mouse_pos: Vector,
    pub bot_right: Option<Bot>,
    pub bot_left: Option<Bot>,
    pub particles: Vec<Particle>,
}

/// What a `Game` holds, as mathematical values.
pub struct GameView {
    pub round: RoundView,
    pub counting: bool,
    pub counter: i32,
    pub explosion_state: Option<Explosion>,
    pub explosion_masks: Seq<CircleF>,
    pub shot: Option<Shot>,
    pub turn: Side,
    pub points_left: u32,
    pub points_right: u32,
    pub new_game: Option<Side>,
    pub mouse_pos: Vector,
    pub bot_right: Option<Bot>,
    pub bot_left: Option<Bot>,
    pub particles: Seq<Particle>,
}

impl View for Game {
    type V = GameView;

    open spec fn view(&self) -> GameView {
        GameView {
            round: self.round@,
            counting: self.counting,
            counter: self.counter,
            explosion_state: self.explosion_state,
            explosion_masks: self.explosion_masks@,
            shot: self.shot,
            turn: self.turn,
            points_left: self.points_left,
            points_right: self.points_right,
            new_game: self.new_game,
            mouse_pos: self.mouse_pos,
            bot_right: self.bot_right,
            bot_left: self.bot_left,
            particles: self.particles@,
        }
    }
}

/// The direction from a player towards the pointer, `d` being the pointer's
/// offset from the player's centre. With the pointer on the centre itself the
/// aim is level, towards the other player.
pub open spec fn aim_of(d: (int, int), turn: Side) -> Vector {
    if d == (0int, 0int) {
        match turn {
            Side::Left => Vector { x: SCALE, y: 0 },
            Side::Right => Vector { x: (-SCALE) as i64, y: 0 },
        }
    } else {
        let n = normalized(d);
        Vector { x: n.0 as i64, y: n.1 as i64 }
    }
}

/// `p` is a particle thrown from `center` with draws from the ranges of a burst.
pub open spec fn is_spark(p: Particle, center: Vector) -> bool {
    exists|rx: int, ry: int, speed: int, color: usize|
        {
            &&& -SCALE <= rx < SCALE
            &&& -SCALE <= ry < SCALE
            &&& PARTICLE_MIN_VEL <= speed < PARTICLE_MAX_VEL
            &&& color < PALETTE_LEN
            &&& p == #[trigger] Particle::thrown(center, rx, ry, speed, color)
        }
}

/// `sparks` is the debris of a hit at `center`.
pub open spec fn is_burst(sparks: Seq<Particle>, center: Vector) -> bool {
    &&& sparks.len() == PARTICLE_COUNT
    &&& forall|i: int| 0 <= i < sparks.len() ==> is_spark(#[trigger] sparks[i], center)
}

/// The particles one tick later.
pub open spec fn fallen(particles: Seq<Particle>) -> Seq<Particle> {
    Seq::new(particles.len(), |i: int| particles[i].moved())
}

/// The corner of the explosion sprite for an impact at `impact`.
pub open spec fn blast_at(impact: Vector) -> Explosion {
    Explosion {
        pos: Vector { x: (impact.x - EXPLOSION_HALF) as i64, y: (impact.y - EXPLOSION_HALF) as i64 },
        frame: 0,
    }
}

impl GameView {
    /// The bot that plays `side`, if the computer plays it.
    pub open spec fn bot_of(self, side: Side) -> Option<Bot> {
        match side {
            Side::Left => self.bot_left,
            Side::Right => self.bot_right,
        }
    }

    /// The game with `bot` in the place of the bot of `side`.
    pub open spec fn with_bot(self, side: Side, bot: Option<Bot>) -> GameView {
        match side {
            Side::Left => GameView { bot_left: bot, ..self },
            Side::Right => GameView { bot_right: bot, ..self },
        }
    }

    /// The centre of the player whose turn it is.
    pub open spec fn center(self) -> Vector {
        self.round.gorilla(self.turn).center_spec()
    }

    /// A shot is in flight or an explosion is on screen.
    pub open spec fn shot_in_progress(self) -> bool {
        self.shot is Some || self.explosion_state is Some
    }

    /// The state is one that the game can reach: the round is well formed,
    /// the charge within its range, the shot and the particles within the
    /// bounds of their flight, shot and explosion never together, and no
    /// particle without an explosion.
    pub open spec fn wf(self) -> bool {
        &&& self.round.wf()
        &&& 0 <= self.counter <= POWER_MAX
        &&& self.shot matches Some(s) ==> s.wf() && self.explosion_state is None
        &&& self.explosion_state matches Some(e) ==> {
            &&& e.frame <= 2 * EXPLOSION_FRAMES
            &&& forall|i: int|
                0 <= i < self.particles.len() ==> (#[trigger] self.particles[i]).wf(e.frame as int)
        }
        &&& self.explosion_state is None ==> self.particles.len() == 0
        &&& self.bot_left matches Some(b) ==> b.wf()
        &&& self.bot_right matches Some(b) ==> b.wf()
        &&& -POINTER_MAX <= self.mouse_pos.x <= POINTER_MAX
        &&& -POINTER_MAX <= self.mouse_pos.y <= POINTER_MAX
    }

    /// The first part of a tick: while nothing is in progress, the bot whose
    /// turn it is charges, and fires at full charge.
    pub open spec fn bot_charged(self) -> GameView {
        if self.shot_in_progress() {
            self
        } else {
            match self.bot_of(self.turn) {
                Some(bot) => {
                    let g = self.with_bot(self.turn, Some(bot.charged()));
                    match bot.fired(self.center()) {
                        Some(s) => GameView { shot: Some(s), ..g },
                        None => g,
                    }
                },
                None => self,
            }
        }
    }

    /// The explosion is in its last tick.
    pub open spec fn explosion_ends(self) -> bool {
        self.explosion_state matches Some(e) && e.frame / 2 == EXPLOSION_FRAMES
    }

    /// The explosion is in its last tick and the round is to be replaced.
    pub open spec fn regenerates(self) -> bool {
        self.explosion_ends() && self.new_game is Some
    }

    /// The bots of a game that starts the round `fresh`, where the computer
    /// played before.
    pub open spec fn reset_bot(self, side: Side, fresh: RoundView) -> Option<Bot> {
        if self.bot_of(side) is Some {
            Some(Bot::fresh(side, fresh))
        } else {
            None
        }
    }

    /// The second part of a tick: the particles fall and the explosion ages.
    /// When it ends the particles go, the turn passes on, and if a player was
    /// hit the round gives way to `fresh`, with its terrain, players and wind;
    /// the bots aim anew and the score stays.
    pub open spec fn exploded(self, fresh: RoundView) -> GameView {
        match self.explosion_state {
            None => self,
            Some(e) => if e.frame / 2 == EXPLOSION_FRAMES {
                let g = GameView {
                    particles: Seq::empty(),
                    explosion_state: None,
                    turn: other(self.turn),
                    ..self
                };
                if self.new_game is Some {
                    GameView {
                        round: fresh,
                        explosion_masks: Seq::empty(),
                        bot_left: self.reset_bot(Side::Left, fresh),
                        bot_right: self.reset_bot(Side::Right, fresh),
                        new_game: None,
                        ..g
                    }
                } else {
                    g
                }
            } else {
                GameView {
                    particles: fallen(self.particles),
                    explosion_state: Some(Explosion { frame: (e.frame + 1) as u32, ..e }),
                    ..self
                }
            },
        }
    }

    /// The game after the bot whose turn it is has corrected its aim.
    pub open spec fn aimed(self, impact: Vector) -> GameView {
        match self.bot_of(self.turn) {
            Some(bot) => self.with_bot(self.turn, Some(bot.aimed(impact))),
            None => self,
        }
    }

    /// The game after an explosion at `impact` with the splash `e`: the
    /// terrain is carved, the splash recorded, the shot gone.
    pub open spec fn struck(self, impact: Vector, e: CircleF) -> GameView {
        GameView {
            round: RoundView { buildings: blasted(self.round.buildings, e), ..self.round },
            explosion_masks: self.explosion_masks.push(e),
            shot: None,
            explosion_state: Some(blast_at(impact)),
            ..self
        }
    }

    /// What the shot runs into after its next tick of flight.
    pub open spec fn outcome(self) -> Hit {
        match self.shot {
            Some(shot) => classify(
                shot.moved(self.round.wind).circle,
                self.round.gorilla_left,
                self.round.gorilla_right,
                self.round.buildings,
            ),
            None => Hit::Nothing,
        }
    }

    /// The third part of a tick: the shot flies for one tick and what it runs
    /// into decides. Nothing: it flies on. The edge of the field: the bot
    /// corrects its aim and the turn passes on, with no explosion. Terrain:
    /// the bot corrects its aim and the terrain explodes. A player: the other
    /// player scores, the terrain explodes, `sparks` fly, and the round is
    /// marked for replacement.
    pub open spec fn shot_moved(self, sparks: Seq<Particle>) -> GameView {
        match self.shot {
            None => self,
            Some(shot) => {
                let s = shot.moved(self.round.wind);
                let impact = s.circle.pos;
                match self.outcome() {
                    Hit::Nothing => GameView { shot: Some(s), ..self },
                    Hit::Sky => GameView {
                        shot: None,
                        turn: other(self.turn),
                        ..self.aimed(impact)
                    },
                    Hit::Buildings => self.aimed(impact).struck(impact, splash(s.circle)),
                    Hit::Player(side) => GameView {
                        points_left: if side == Side::Right {
                            (self.points_left + 1) as u32
                        } else {
                            self.points_left
                        },
                        points_right: if side == Side::Left {
                            (self.points_right + 1) as u32
                        } else {
                            self.points_right
                        },
                        particles: self.particles + sparks,
                        new_game: Some(other(side)),
                        ..self.struck(impact, splash(s.circle))
                    },
                }
            },
        }
    }

    /// The last part of a tick: the charge rises while the button is held, up
    /// to its maximum, and falls back faster while it is not.
    pub open spec fn charged(self) -> GameView {
        GameView {
            counter: if self.counting {
                if self.counter + POWER_RISE < POWER_MAX {
                    (self.counter + POWER_RISE) as i32
                } else {
                    POWER_MAX
                }
            } else if self.counter > POWER_FALL {
                (self.counter - POWER_FALL) as i32
            } else {
                0
            },
            ..self
        }
    }

    /// The game one tick later. `fresh` is the round that takes over if this
    /// tick replaces the round, `sparks` the debris if this tick hits a player.
    /// A tick that replaces the round does nothing after that.
    pub open spec fn ticked(self, fresh: RoundView, sparks: Seq<Particle>) -> GameView {
        let g = self.bot_charged();
        if g.regenerates() {
            g.exploded(fresh)
        } else {
            g.exploded(fresh).shot_moved(sparks).charged()
        }
    }

    /// What has to hold of the draws of a tick: a round that takes over is a
    /// fresh one, and the debris of a hit is a burst at the centre of the
    /// player who was hit.
    pub open spec fn draws_ok(self, fresh: RoundView, sparks: Seq<Particle>) -> bool {
        let g = self.bot_charged();
        if g.regenerates() {
            fresh.is_fresh()
        } else {
            g.exploded(fresh).outcome() matches Hit::Player(side) ==> is_burst(
                sparks,
                g.round.gorilla(side).center_spec(),
            )
        }
    }

    /// A game as it begins: the round `round`, the left player's turn, no
    /// score, and a bot wherever `config` asks for one.
    pub open spec fn start(config: GameConfig, round: RoundView) -> GameView {
        GameView {
            round,
            counting: false,
            counter: 0,
            explosion_state: None,
            explosion_masks: Seq::empty(),
            shot: None,
            turn: Side::Left,
            points_left: 0,
            points_right: 0,
            new_game: None,
            mouse_pos: Vector { x: 0, y: 0 },
            bot_right: if config.bot_right {
                Some(Bot::fresh(Side::Right, round))
            } else {
                None
            },
            bot_left: if config.bot_left {
                Some(Bot::fresh(Side::Left, round))
            } else {
                None
            },
            particles: Seq::empty(),
        }
    }

    /// The game after a shot left the player whose turn it is.
    pub open spec fn launched(self, dir: Vector, power: int) -> GameView {
        GameView {
            counting: false,
            shot: Some(launched(self.center(), dir, HUMAN_START_RADII as int, power)),
            ..self
        }
    }

    /// The game after an input of the player at the controls. While the
    /// computer plays the side whose turn it is, input is ignored. Otherwise
    /// the pointer is followed; pressing starts the charge and releasing
    /// launches the shot towards the pointer, each only while nothing is in
    /// progress.
    pub open spec fn after_event(self, event: Event) -> GameView {
        if self.bot_of(self.turn) is Some {
            self
        } else {
            match event {
                Event::MouseMoved(p) => GameView { mouse_pos: p, ..self },
                Event::LeftPressed => if !self.counting && !self.shot_in_progress() {
                    GameView { counting: true, ..self }
                } else {
                    self
                },
                Event::LeftReleased => if self.counting && !self.shot_in_progress() {
                    let c = self.center();
                    self.launched(
                        aim_of((self.mouse_pos.x - c.x, self.mouse_pos.y - c.y), self.turn),
                        self.counter as int,
                    )
                } else {
                    self
                },
                _ => self,
            }
        }
    }
}

/// Replacing the round keeps the score and nothing of the terrain: after the
/// tick that replaces it both scores are what they were, the round is the
/// fresh one with every building intact, no splash, particle or explosion
/// is left, and every bot starts afresh, aiming at its new target.
pub proof fn lemma_regeneration(g: GameView, fresh: RoundView, sparks: Seq<Particle>)
    requires
        g.bot_charged().regenerates(),
        fresh.is_fresh(),
    ensures
        g.ticked(fresh, sparks).points_left == g.points_left,
        g.ticked(fresh, sparks).points_right == g.points_right,
        g.ticked(fresh, sparks).round == fresh,
        forall|i: int|
            0 <= i < fresh.buildings.len() ==> (#[trigger] g.ticked(
                fresh,
                sparks,
            ).round.buildings[i]).fragments is None,
        g.ticked(fresh, sparks).explosion_masks.len() == 0,
        g.ticked(fresh, sparks).particles.len() == 0,
        g.ticked(fresh, sparks).explosion_state is None,
        g.ticked(fresh, sparks).new_game is None,
        g.ticked(fresh, sparks).bot_left == if g.bot_left is Some {
            Some(Bot::fresh(Side::Left, fresh))
        } else {
            None
        },
        g.ticked(fresh, sparks).bot_right == if g.bot_right is Some {
            Some(Bot::fresh(Side::Right, fresh))
        } else {
            None
        },
{
    crate::round::lemma_fresh_wf(fresh);
}

/// The score changes on no tick but the one on which a player is hit, and
/// then the other player gains one point.
pub proof fn lemma_score(g: GameView, fresh: RoundView, sparks: Seq<Particle>)
    requires
        g.wf(),
        g.points_left < u32::MAX,
        g.points_right < u32::MAX,
    ensures
        ({
            let t = g.ticked(fresh, sparks);
            let hit = g.bot_charged().exploded(fresh).outcome();
            if !g.bot_charged().regenerates() && hit == Hit::Player(Side::Left) {
                t.points_left == g.points_left && t.points_right == g.points_right + 1
            } else if !g.bot_charged().regenerates() && hit == Hit::Player(Side::Right) {
                t.points_left == g.points_left + 1 && t.points_right == g.points_right
            } else {
                t.points_left == g.points_left && t.points_right == g.points_right
            }
        }),
{
}

/// A shot that leaves the field ends the turn and nothing else: the turn
/// passes on, the shot is gone, no explosion starts, a bot that threw it
/// corrects its aim, and round, score and particles are what they were.
pub proof fn lemma_sky(g: GameView, sparks: Seq<Particle>)
    requires
        g.shot is Some,
        g.outcome() == Hit::Sky,
    ensures
        g.shot_moved(sparks).turn == other(g.turn),
        g.shot_moved(sparks).shot is None,
        g.shot_moved(sparks).explosion_state == g.explosion_state,
        g.shot_moved(sparks).round == g.round,
        g.shot_moved(sparks).explosion_masks == g.explosion_masks,
        g.shot_moved(sparks).particles == g.particles,
        g.shot_moved(sparks).points_left == g.points_left,
        g.shot_moved(sparks).points_right == g.points_right,
        g.shot_moved(sparks).new_game == g.new_game,
        g.shot_moved(sparks).bot_left == g.aimed(
            g.shot.unwrap().moved(g.round.wind).circle.pos,
        ).bot_left,
        g.shot_moved(sparks).bot_right == g.aimed(
            g.shot.unwrap().moved(g.round.wind).circle.pos,
        ).bot_right,
{
}

impl Game {
    /// A new game on a round drawn from `rng`.
    pub fn new(config: GameConfig, rng: &mut StdRng) -> (g: Game)
        ensures
            g@.round.is_fresh(),
            g@ == GameView::start(config, g@.round),
            g@.wf(),
    {
        let round = Round::new(rng);
        let bot_left = if config.bot_left {
            Some(Bot::new(Side::Left, &round))
        } else {
            None
        };
        let bot_right = if config.bot_right {
            Some(Bot::new(Side::Right, &round))
        } else {
            None
        };
        let g = Game {
            round,
            counting: false,
            counter: 0i32,
            explosion_state: None,
            explosion_masks: Vec::new(),
            shot: None,
            turn: Side::Left,
            points_left: 0,
            points_right: 0,
            new_game: None,
            mouse_pos: Vector { x: 0, y: 0 },
            bot_left,
            bot_right,
            particles: Vec::new(),
        };
        assert(g@.explosion_masks =~= Seq::<CircleF>::empty());
        assert(g@.particles =~= Seq::<Particle>::empty());
        g
    }

    /// The hit-box of the player of `side`.
    pub fn gorilla_from_side(&self, side: Side) -> (r: &Rectangle)
        ensures
            *r == self@.round.gorilla(side),
    {
        self.round.gorilla_from_side(side)
    }

    /// Whether a shot is in flight or an explosion on screen.
    pub fn shot_in_progress(&self) -> (b: bool)
        ensures
            b == self@.shot_in_progress(),
    {
        self.shot.is_some() || self.explosion_state.is_some()
    }

    /// Launches a shot from the player whose turn it is.
    pub fn launch(&mut self, aim_direction: Vector, power: i32)
        requires
            old(self)@.wf(),
            !old(self)@.shot_in_progress(),
            is_direction(aim_direction@),
            0 <= power <= POWER_MAX,
        ensures
            final(self)@ == old(self)@.launched(aim_direction, power as int),
            final(self)@.wf(),
    {
        let center = self.round.gorilla_from_side(self.turn).center();
        self.counting = false;
        self.shot = Some(launch(center, aim_direction, HUMAN_START_RADII, power));
    }

    fn event_player(&mut self, event: &Event)
        requires
            old(self)@.wf(),
            old(self)@.bot_of(old(self).turn) is None,
            *event matches Event::MouseMoved(p) ==> -POINTER_MAX <= p.x <= POINTER_MAX
                && -POINTER_MAX <= p.y <= POINTER_MAX,
        ensures
            final(self)@ == old(self)@.after_event(*event),
            final(self)@.wf(),
    {
        match event {
            Event::MouseMoved(pos) => {
                self.mouse_pos = *pos;
            },
            Event::LeftPressed => {
                if !self.counting && !self.shot_in_progress() {
                    self.counting = true;
                }
            },
            Event::LeftReleased => {
                if self.counting && !self.shot_in_progress() {
                    let center = self.round.gorilla_from_side(self.turn).center();
                    let d = Vector { x: self.mouse_pos.x - center.x, y: self.mouse_pos.y - center.y };
                    let dir = if d.x == 0 && d.y == 0 {
                        match self.turn {
                            Side::Left => Vector { x: SCALE, y: 0 },
                            Side::Right => Vector { x: -SCALE, y: 0 },
                        }
                    } else {
                        d.normalize()
                    };
                    let power = self.counter;
                    proof {
                        lemma_level_directions();
                    }
                    self.launch(dir, power);
                }
            },
            _ => {},
        }
    }

    /// Takes an input of the player at the controls.
    pub fn event(&mut self, event: &Event)
        requires
            old(self)@.wf(),
            *event matches Event::MouseMoved(p) ==> -POINTER_MAX <= p.x <= POINTER_MAX
                && -POINTER_MAX <= p.y <= POINTER_MAX,
        ensures
            final(self)@ == old(self)@.after_event(*event),
            final(self)@.wf(),
    {
        let human = match self.turn {
            Side::Left => self.bot_left.is_none(),
            Side::Right => self.bot_right.is_none(),
        };
        if human {
            self.event_player(event);
        }
    }

    fn update_aim(&mut self, pos: Vector)
        requires
            old(self)@.wf(),
        ensures
            final(self)@ == old(self)@.aimed(pos),
            final(self)@.wf(),
    {
        match self.turn {
            Side::Left => {
                if let Some(bot) = &mut self.bot_left {
                    bot.aim(pos);
                }
            },
            Side::Right => {
                if let Some(bot) = &mut self.bot_right {
                    bot.aim(pos);
                }
            },
        }
    }

    fn reset_bots(&mut self)
        requires
            old(self)@.round.wf(),
        ensures
            final(self)@ == (GameView {
                bot_left: old(self)@.reset_bot(Side::Left, old(self)@.round),
                bot_right: old(self)@.reset_bot(Side::Right, old(self)@.round),
                ..old(self)@
            }),
            final(self).bot_left matches Some(b) ==> b.wf(),
            final(self).bot_right matches Some(b) ==> b.wf(),
    {
        if self.bot_right.is_some() {
            self.bot_right = Some(Bot::new(Side::Right, &self.round));
        }
        if self.bot_left.is_some() {
            self.bot_left = Some(Bot::new(Side::Left, &self.round));
        }
    }

    fn bot_phase(&mut self)
        requires
            old(self)@.wf(),
        ensures
            final(self)@ == old(self)@.bot_charged(),
            final(self)@.wf(),
    {
        if self.shot.is_none() && self.explosion_state.is_none() {
            let center = self.round.gorilla_from_side(self.turn).center();
            let bot_shot = match self.turn {
                Side::Left => match &mut self.bot_left {
                    Some(bot) => update_bot(bot, center),
                    None => None,
                },
                Side::Right => match &mut self.bot_right {
                    Some(bot) => update_bot(bot, center),
                    None => None,
                },
            };
            if let Some(shot) = bot_shot {
                self.shot = Some(shot);
            }
        }
    }

    fn charge_phase(&mut self)
        requires
            old(self)@.wf(),
        ensures
            final(self)@ == old(self)@.charged(),
            final(self)@.wf(),
    {
        if self.counting {
            self.counter = if self.counter + POWER_RISE < POWER_MAX {
                self.counter + POWER_RISE
            } else {
                POWER_MAX
            };
        } else if self.counter > 0 {
            self.counter -= POWER_FALL;
            if self.counter < 0 {
                self.counter = 0;
            }
        }
    }

    fn explosion_phase(&mut self, rng: &mut StdRng) -> (done: bool)
        requires
            old(self)@.wf(),
        ensures
            done == old(self)@.regenerates(),
            done ==> final(self)@.round.is_fresh(),
            final(self)@ == old(self)@.exploded(final(self)@.round),
            final(self)@.wf(),
    {
        let state = match self.explosion_state {
            Some(state) => state,
            None => {
                return false;
            },
        };
        if state.frame / 2 == EXPLOSION_FRAMES {
            self.particles.clear();
            self.explosion_state = None;
            self.turn = next_side(self.turn);
            if self.new_game.is_some() {
                self.round = Round::new(rng);
                self.explosion_masks.clear();
                self.reset_bots();
                self.new_game = None;
                assert(self@.explosion_masks =~= Seq::<CircleF>::empty());
                assert(self@.particles =~= Seq::<Particle>::empty());
                return true;
            }
            assert(self@.particles =~= Seq::<Particle>::empty());
            false
        } else {
            let mut i: usize = 0;
            while i < self.particles.len()
                invariant
                    i <= self.particles.len(),
                    state.frame < 2 * EXPLOSION_FRAMES,
                    self.particles.len() == old(self).particles.len(),
                    self@ == (GameView { particles: self.particles@, ..old(self)@ }),
                    forall|m: int|
                        0 <= m < i ==> (#[trigger] self.particles[m]) == old(self).particles[m].moved()
                            && self.particles[m].wf(state.frame + 1),
                    forall|m: int|
                        i <= m < self.particles.len() ==> (#[trigger] self.particles[m]) == old(self).particles[m] && self.particles[m].wf(state.frame as int),
                decreases self.particles.len() - i,
            {
                let p = self.particles[i].advance(state.frame);
                self.particles[i] = p;
                i += 1;
            }
            self.explosion_state = Some(Explosion { pos: state.pos, frame: state.frame + 1 });
            assert(self@.particles =~= fallen(old(self)@.particles));
            false
        }
    }

    /// Carves the splash of `circle` out of the buildings that `xs` names
    /// and records it.
    fn destroy_terrain(&mut self, circle: &CircleF, xs: Vec<usize>)
        requires
            old(self)@.wf(),
            circle.radius == crate::game_constants::SHOT_RADIUS,
            is_hit_list(xs@, splash(*circle), old(self)@.round.buildings),
        ensures
            final(self)@ == (GameView {
                round: RoundView {
                    buildings: blasted(old(self)@.round.buildings, splash(*circle)),
                    ..old(self)@.round
                },
                explosion_masks: old(self)@.explosion_masks.push(splash(*circle)),
                ..old(self)@
            }),
            final(self)@.wf(),
    {
        let ghost e = splash(*circle);
        let ghost before = old(self)@.round.buildings;
        let explosion = destroy_terrain(circle, xs, &mut self.round.buildings);
        self.explosion_masks.push(explosion);
        proof {
            let after = views(self.round.buildings@);
            assert forall|i: int| 0 <= i < before.len() implies after[i] == before[i].damaged(e) by {
                assert(self.round.buildings[i]@ == after[i]);
                if !xs@.contains(i as usize) {
                    lemma_damaged_untouched(before[i], e);
                }
            }
            assert(after =~= blasted(before, e));
        }
    }

    /// Throws the debris of a hit from `center`.
    fn burst(&mut self, center: Vector, rng: &mut StdRng)
        requires
            in_field(center),
            old(self).particles.len() == 0,
        ensures
            final(self)@ == (GameView { particles: final(self)@.particles, ..old(self)@ }),
            is_burst(final(self)@.particles, center),
            forall|i: int|
                0 <= i < final(self)@.particles.len() ==> (#[trigger] final(self)@.particles[i]).wf(0),
    {
        let mut n: usize = 0;
        while n < PARTICLE_COUNT
            invariant
                n <= PARTICLE_COUNT,
                in_field(center),
                self.particles.len() == n,
                self@ == (GameView { particles: self@.particles, ..old(self)@ }),
                forall|i: int| 0 <= i < n ==> is_spark(#[trigger] self@.particles[i], center),
                forall|i: int| 0 <= i < n ==> (#[trigger] self@.particles[i]).wf(0),
            decreases PARTICLE_COUNT - n,
        {
            let color = gen_range(rng, 0, PALETTE_LEN as i64) as usize;
            let rx = gen_range(rng, -SCALE, SCALE);
            let ry = gen_range(rng, -SCALE, SCALE);
            let speed = gen_range(rng, PARTICLE_MIN_VEL, PARTICLE_MAX_VEL);
            let p = Particle::spark(center, rx, ry, speed, color);
            assert(is_spark(p, center));
            let ghost before = self.particles@;
            self.particles.push(p);
            assert(forall|i: int| 0 <= i < n ==> self.particles@[i] == before[i]);
            n += 1;
        }
    }

    /// Starts the explosion of an impact at `pos`, with debris from
    /// `particle_pos` if a player was hit.
    fn on_explode(&mut self, pos: Vector, particle_pos: Option<Vector>, rng: &mut StdRng)
        requires
            in_reach(pos),
            old(self).particles.len() == 0,
            particle_pos matches Some(c) ==> in_field(c),
        ensures
            final(self)@ == (GameView {
                particles: final(self)@.particles,
                shot: None,
                explosion_state: Some(blast_at(pos)),
                ..old(self)@
            }),
            particle_pos matches Some(c) ==> is_burst(final(self)@.particles, c),
            particle_pos is None ==> final(self).particles.len() == 0,
            forall|i: int|
                0 <= i < final(self)@.particles.len() ==> (#[trigger] final(self)@.particles[i]).wf(0),
    {
        if let Some(center) = particle_pos {
            self.burst(center, rng);
        }
        self.shot = None;
        self.explosion_state = Some(
            Explosion {
                pos: Vector { x: pos.x - EXPLOSION_HALF, y: pos.y - EXPLOSION_HALF },
                frame: 0,
            },
        );
    }

    fn shot_phase(&mut self, rng: &mut StdRng) -> (sparks: Ghost<Seq<Particle>>)
        requires
            old(self)@.wf(),
            old(self).points_left < u32::MAX,
            old(self).points_right < u32::MAX,
        ensures
            final(self)@ == old(self)@.shot_moved(sparks@),
            old(self)@.outcome() matches Hit::Player(side) ==> is_burst(
                sparks@,
                old(self)@.round.gorilla(side).center_spec(),
            ),
            final(self)@.wf(),
    {
        let shot = match self.shot {
            Some(shot) => shot,
            None => {
                return Ghost(Seq::empty());
            },
        };
        let s = shot.advance(self.round.wind);
        let circle = s.circle;
        let pos = circle.pos;
        let hit = collision(
            circle,
            &self.round.gorilla_left,
            &self.round.gorilla_right,
            self.round.buildings.as_slice(),
        );
        match hit {
            Collision::Nothing => {
                self.shot = Some(s);
                Ghost(Seq::empty())
            },
            Collision::Player(side, xs) => {
                match side {
                    Side::Left => {
                        self.points_right += 1;
                    },
                    Side::Right => {
                        self.points_left += 1;
                    },
                }
                self.destroy_terrain(&circle, xs);
                let center = self.round.gorilla_from_side(side).center();
                self.on_explode(pos, Some(center), rng);
                self.new_game = Some(next_side(side));
                assert(old(self)@.particles + self@.particles =~= self@.particles);
                Ghost(self@.particles)
            },
            Collision::Buildings(xs) => {
                self.update_aim(pos);
                self.destroy_terrain(&circle, xs);
                self.on_explode(pos, None, rng);
                assert(self@.particles =~= old(self)@.particles);
                Ghost(Seq::empty())
            },
            Collision::Sky => {
                self.update_aim(pos);
                self.turn = next_side(self.turn);
                self.shot = None;
                Ghost(Seq::empty())
            },
        }
    }

    /// Advances the game by one tick. `rng` is drawn from when the round is
    /// replaced and when a player is hit.
    pub fn update(&mut self, rng: &mut StdRng)
        requires
            old(self)@.wf(),
            old(self).points_left < u32::MAX,
            old(self).points_right < u32::MAX,
        ensures
            final(self)@.wf(),
            exists|fresh: RoundView, sparks: Seq<Particle>|
                old(self)@.draws_ok(fresh, sparks) && final(self)@ == #[trigger] old(self)@.ticked(
                    fresh,
                    sparks,
                ),
    {
        self.bot_phase();
        let ghost g = self@;
        let done = self.explosion_phase(rng);
        if done {
            assert(old(self)@.draws_ok(self@.round, Seq::empty()) && self@ == old(self)@.ticked(
                self@.round,
                Seq::empty(),
            ));
            return ;
        }
        let ghost fresh = self@.round;
        let sparks = self.shot_phase(rng);
        self.charge_phase();
        assert(old(self)@.draws_ok(fresh, sparks@) && self@ == old(self)@.ticked(fresh, sparks@));
    }
}

} // verus!
