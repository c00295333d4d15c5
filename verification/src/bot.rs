//! The computer player: it charges by itself, fires at full charge, and
//! corrects its aim after every miss by a fixed step.

use vstd::prelude::*;
use crate::game_common::Side;
use crate::game_constants::{BOT_AIM_INC_Y, BOT_COUNTER_MAX, BOT_START_RADII, POWER_RISE};
use crate::geom::{is_direction, lemma_direction_reach, normalized, Vector};
use crate::round::{other, Round, RoundView};
use crate::shot::{in_field, launch, launched, Shot};

verus! {

/// A computer player: its charge, its aim, where it stands and what it aims at.
#[derive(Clone, Copy, Debug, PartialEq, Eq, Structural)]
pub struct Bot {
    pub counter: i32,
    pub dir: Vector,
    pub pos: Vector,
    pub target: Vector,
}

/// The charge after one more tick of charging.
pub open spec fn charge_next(counter: int) -> int {
    if counter + POWER_RISE < BOT_COUNTER_MAX {
        counter + POWER_RISE
    } else {
        BOT_COUNTER_MAX as int
    }
}

/// The charge after `n` ticks in which the bot has not fired.
pub open spec fn charge_after(counter: int, n: nat) -> int
    decreases n,
{
    if n == 0 {
        counter
    } else {
        charge_next(charge_after(counter, (n - 1) as nat))
    }
}

/// The number of ticks after which a bot with the given charge fires.
pub open spec fn ticks_to_fire(counter: int) -> nat {
    ((BOT_COUNTER_MAX - counter + POWER_RISE - 1) / (POWER_RISE as int)) as nat
}

/// A bot fires after a fixed number of ticks that depends on its charge
/// alone, and on no earlier tick; from no charge that number is 67.
pub proof fn lemma_bot_fires(counter: int, n: nat)
    requires
        0 <= counter < BOT_COUNTER_MAX,
        n <= ticks_to_fire(counter),
    ensures
        n < ticks_to_fire(counter) ==> charge_after(counter, n) == counter + POWER_RISE * n
            && charge_after(counter, n) < BOT_COUNTER_MAX,
        n == ticks_to_fire(counter) ==> charge_after(counter, n) == BOT_COUNTER_MAX,
        1 <= ticks_to_fire(counter) <= 67,
        ticks_to_fire(0) == 67,
    decreases n,
{
    if n > 0 {
        lemma_bot_fires(counter, (n - 1) as nat);
    }
}

/// A bot that charges from nothing does nothing for 66 ticks, its charge
/// three times the number of ticks, and fires on the 67th.
pub proof fn lemma_bot_run(bot: Bot, center: Vector, n: nat)
    requires
        bot.counter == 0,
        n <= 66,
    ensures
        bot.charged_times(n).counter == 3 * n,
        bot.charged_times(n).dir == bot.dir,
        n < 66 ==> bot.charged_times(n).fired(center) is None,
        n == 66 ==> bot.charged_times(n).fired(center) is Some,
        n == 66 ==> bot.charged_times(n).charged().counter == 0,
    decreases n,
{
    if n > 0 {
        lemma_bot_run(bot, center, (n - 1) as nat);
    }
}

impl Bot {
    /// The bot after `n` ticks of charging.
    pub open spec fn charged_times(self, n: nat) -> Bot
        decreases n,
    {
        if n == 0 {
            self
        } else {
            self.charged_times((n - 1) as nat).charged()
        }
    }

    /// The charge is below the firing threshold, the aim is a direction, and
    /// the bot and its target stand in the field.
    pub open spec fn wf(self) -> bool {
        &&& 0 <= self.counter < BOT_COUNTER_MAX
        &&& is_direction(self.dir@)
        &&& in_field(self.pos)
        &&& in_field(self.target)
    }

    /// The bot of `side` at the start of a round: no charge, aiming straight
    /// at the other player.
    pub open spec fn fresh(side: Side, round: RoundView) -> Bot {
        let pos = round.gorilla(side).center_spec();
        let target = round.gorilla(other(side)).center_spec();
        let d = normalized((target.x - pos.x, target.y - pos.y));
        Bot { counter: 0, dir: Vector { x: d.0 as i64, y: d.1 as i64 }, pos, target }
    }

    /// The bot after a shot that came down at `impact`: the vertical part of
    /// its aim is moved by a fixed step, up or down according to the side of
    /// the target on which the shot fell and to the side on which the bot
    /// stands, and the aim is made a direction again.
    pub open spec fn aimed(self, impact: Vector) -> Bot {
        let step = if impact.x < self.target.x {
            BOT_AIM_INC_Y as int
        } else {
            -BOT_AIM_INC_Y
        };
        let inc = if self.pos.x < self.target.x {
            -step
        } else {
            step
        };
        let d = normalized((self.dir.x as int, self.dir.y + inc));
        Bot { dir: Vector { x: d.0 as i64, y: d.1 as i64 }, ..self }
    }

    /// The bot after one tick of charging; at full charge it has fired and
    /// starts again from nothing.
    pub open spec fn charged(self) -> Bot {
        if charge_next(self.counter as int) == BOT_COUNTER_MAX {
            Bot { counter: 0, ..self }
        } else {
            Bot { counter: charge_next(self.counter as int) as i32, ..self }
        }
    }

    /// What the bot fires after one tick of charging, if it fires.
    pub open spec fn fired(self, center: Vector) -> Option<Shot> {
        if charge_next(self.counter as int) == BOT_COUNTER_MAX {
            Some(launched(center, self.dir, BOT_START_RADII as int, BOT_COUNTER_MAX as int))
        } else {
            None
        }
    }

    pub fn new(side: Side, round: &Round) -> (bot: Bot)
        requires
            round@.wf(),
        ensures
            bot == Bot::fresh(side, round@),
            bot.wf(),
    {
        let (pos, target) = match side {
            Side::Left => (round.gorilla_left.center(), round.gorilla_right.center()),
            Side::Right => (round.gorilla_right.center(), round.gorilla_left.center()),
        };
        let dir = Vector { x: target.x - pos.x, y: target.y - pos.y }.normalize();
        Bot { counter: 0, dir, target, pos }
    }

    /// Corrects the aim after a shot that came down at `collision`.
    pub fn aim(&mut self, collision: Vector)
        requires
            old(self).wf(),
        ensures
            *final(self) == old(self).aimed(collision),
            final(self).wf(),
    {
        let mut inc = if collision.x < self.target.x {
            BOT_AIM_INC_Y
        } else {
            -BOT_AIM_INC_Y
        };
        if self.pos.x < self.target.x {
            inc = -inc;
        }
        proof {
            lemma_direction_reach(self.dir@);
        }
        self.dir = Vector { x: self.dir.x, y: self.dir.y + inc }.normalize();
    }
}

/// Lets the bot charge for one tick; at full charge it fires from `center`.
pub fn update_bot(bot: &mut Bot, center: Vector) -> (shot: Option<Shot>)
    requires
        old(bot).wf(),
        in_field(center),
    ensures
        *final(bot) == old(bot).charged(),
        shot == old(bot).fired(center),
        final(bot).wf(),
        shot matches Some(s) ==> s.wf(),
{
    bot.counter = if bot.counter + POWER_RISE < BOT_COUNTER_MAX {
        bot.counter + POWER_RISE
    } else {
        BOT_COUNTER_MAX
    };
    if bot.counter == BOT_COUNTER_MAX {
        let power = bot.counter;
        bot.counter = 0;
        Some(launch(center, bot.dir, BOT_START_RADII, power))
    } else {
        None
    }
}

} // verus!
