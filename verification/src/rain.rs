//! The rain that the wind drives across the field. It shows the wind and
//! touches nothing.

use vstd::prelude::*;
use rand::rngs::StdRng;
use crate::game_constants::{GRAVITY, WINDOW_X, WINDOW_Y};
use crate::geom::Vector;
use crate::rng::gen_range;
use crate::round::is_wind;
use crate::shot::in_field;

verus! {

/// Number of drops.
pub const RAIN_DROPS: usize = 128;

/// A drop moves this many times the wind, and gravity, per tick.
pub const WIND_SHOW_RATIO: i64 = 5;

/// Where a drop is after a tick in which it fell from `drop`. A drop that
/// falls below the field comes back at the top, at `rx` across; one that
/// leaves to the left comes back at the right edge and one that leaves to
/// the right at the left edge, either at `ry` down.
pub open spec fn rained(drop: Vector, wind: Vector, rx: int, ry: int) -> (int, int) {
    let x = drop.x + wind.x * WIND_SHOW_RATIO;
    let y = drop.y + (wind.y + GRAVITY) * WIND_SHOW_RATIO;
    if y > WINDOW_Y {
        (rx, 0)
    } else if x < 0 {
        (WINDOW_X as int, ry)
    } else if x > WINDOW_X {
        (0, ry)
    } else {
        (x, y)
    }
}

/// `after` is where `before` can be a tick later, for some draws within the field.
pub open spec fn is_rained(before: Vector, wind: Vector, after: Vector) -> bool {
    exists|rx: int, ry: int|
        0 <= rx < WINDOW_X && 0 <= ry < WINDOW_Y && after@ == #[trigger] rained(
            before,
            wind,
            rx,
            ry,
        )
}

/// Every drop is in the field.
pub open spec fn all_in_field(drops: Seq<Vector>) -> bool {
    forall|i: int| 0 <= i < drops.len() ==> in_field(#[trigger] drops[i])
}

/// Moves one drop by a tick; `rx` and `ry` are where it comes back if it
/// leaves the field.
pub fn rain_step(drop: Vector, wind: Vector, rx: i64, ry: i64) -> (r: Vector)
    requires
        in_field(drop),
        is_wind(wind@),
        0 <= rx < WINDOW_X,
        0 <= ry < WINDOW_Y,
    ensures
        r@ == rained(drop, wind, rx as int, ry as int),
        in_field(r),
{
    let x = drop.x + wind.x * WIND_SHOW_RATIO;
    let y = drop.y + (wind.y + GRAVITY) * WIND_SHOW_RATIO;
    if y > WINDOW_Y {
        Vector { x: rx, y: 0 }
    } else if x < 0 {
        Vector { x: WINDOW_X, y: ry }
    } else if x > WINDOW_X {
        Vector { x: 0, y: ry }
    } else {
        Vector { x, y }
    }
}

/// Drops scattered over the field.
pub fn new_rain(rng: &mut StdRng) -> (drops: Vec<Vector>)
    ensures
        drops.len() == RAIN_DROPS,
        all_in_field(drops@),
{
    let mut drops: Vec<Vector> = Vec::new();
    while drops.len() < RAIN_DROPS
        invariant
            drops.len() <= RAIN_DROPS,
            all_in_field(drops@),
        decreases RAIN_DROPS - drops.len(),
    {
        let x = gen_range(rng, 0, WINDOW_X);
        let y = gen_range(rng, 0, WINDOW_Y);
        let ghost before = drops@;
        drops.push(Vector { x, y });
        assert(forall|i: int| 0 <= i < before.len() ==> drops@[i] == before[i]);
    }
    drops
}

/// Moves every drop by a tick in the wind `wind`.
pub fn update_rain(drops: &mut Vec<Vector>, wind: Vector, rng: &mut StdRng)
    requires
        all_in_field(old(drops)@),
        is_wind(wind@),
    ensures
        final(drops).len() == old(drops).len(),
        forall|i: int|
            0 <= i < old(drops).len() ==> is_rained(old(drops)[i], wind, #[trigger] final(drops)[i]),
        all_in_field(final(drops)@),
{
    let mut i: usize = 0;
    while i < drops.len()
        invariant
            i <= drops.len(),
            drops.len() == old(drops).len(),
            is_wind(wind@),
            forall|m: int| 0 <= m < i ==> is_rained(old(drops)[m], wind, #[trigger] drops[m]),
            forall|m: int| 0 <= m < i ==> in_field(#[trigger] drops[m]),
            forall|m: int|
                i <= m < drops.len() ==> (#[trigger] drops[m]) == old(drops)[m] && in_field(drops[m]),
        decreases drops.len() - i,
    {
        let rx = gen_range(rng, 0, WINDOW_X);
        let ry = gen_range(rng, 0, WINDOW_Y);
        let d = rain_step(drops[i], wind, rx, ry);
        assert(is_rained(old(drops)[i as int], wind, d));
        drops[i] = d;
        i += 1;
    }
}

} // verus!
