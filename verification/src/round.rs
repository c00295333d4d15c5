//! A round: the skyline, the two players on it, and the wind.

use vstd::prelude::*;
use rand::rngs::StdRng;
use crate::building::{
    all_buildings_wf, is_row, is_skyline, lemma_skyline_len, views, Building, BuildingView,
};
use crate::game_common::Side;
use crate::game_constants::{
    BUILDING_GAP, DISTANCE_MIN, GORILLA_HEIGHT, GORILLA_WIDTH, SCALE, WINDOW_X, WINDOW_Y,
};
use crate::geom::{
    abs, div_trunc, lemma_direction_reach, lemma_level_directions, normalized, Rectangle, Vector,
};
use crate::rng::gen_range;

verus! {

/// The other side.
pub open spec fn other(side: Side) -> Side {
    match side {
        Side::Left => Side::Right,
        Side::Right => Side::Left,
    }
}

pub fn next_side(side: Side) -> (s: Side)
    ensures
        s == other(side),
{
    match side {
        Side::Left => Side::Right,
        Side::Right => Side::Left,
    }
}

/// The play field.
pub open spec fn field() -> Rectangle {
    Rectangle { pos: Vector { x: 0, y: 0 }, size: Vector { x: WINDOW_X, y: WINDOW_Y } }
}

/// The hit-box of a player standing on the roof of `b`, centred on it.
pub open spec fn gorilla_on(b: Rectangle) -> Rectangle {
    Rectangle {
        pos: Vector {
            x: (b.pos.x + b.size.x / 2 - GORILLA_WIDTH / 2) as i64,
            y: (b.pos.y - GORILLA_HEIGHT) as i64,
        },
        size: Vector { x: GORILLA_WIDTH, y: GORILLA_HEIGHT },
    }
}

/// First of the buildings on which the player of `side` may stand, in a
/// skyline of `len` buildings.
pub open spec fn first_roof(side: Side, len: int) -> int {
    match side {
        Side::Left => 1,
        Side::Right => (len - 1) / 2 + DISTANCE_MIN,
    }
}

/// One past the last of the buildings on which the player of `side` may
/// stand. The left player always has building 1.
pub open spec fn end_roof(side: Side, len: int) -> int {
    match side {
        Side::Left => if (len - 1) / 2 - DISTANCE_MIN > 2 {
            (len - 1) / 2 - DISTANCE_MIN
        } else {
            2
        },
        Side::Right => len - 1,
    }
}

/// Puts the player of `side` on a roof drawn from its part of the skyline:
/// the left player near the left end, the right one near the right end,
/// neither on the outermost building.
pub fn place_gorilla(side: Side, buildings: &[Building], rng: &mut StdRng) -> (r: Rectangle)
    requires
        6 <= buildings.len() <= i64::MAX,
        forall|i: int|
            0 <= i < buildings.len() ==> {
                &&& (#[trigger] buildings[i]).bound_box.wf()
                &&& buildings[i].bound_box.pos.x >= i64::MIN + GORILLA_WIDTH
                &&& buildings[i].bound_box.pos.y >= i64::MIN + GORILLA_HEIGHT
            },
    ensures
        exists|i: int|
            first_roof(side, buildings.len() as int) <= i < end_roof(side, buildings.len() as int)
                && r == gorilla_on(#[trigger] buildings[i].bound_box),
{
    let field_length = buildings.len() - 1;
    let i = match side {
        Side::Left => {
            let far = field_length / 2 - DISTANCE_MIN;
            gen_range(rng, 1, if far > 2 { far as i64 } else { 2 })
        },
        Side::Right => gen_range(rng, (field_length / 2 + DISTANCE_MIN) as i64, field_length as i64),
    };
    let b = buildings[i as usize].bound_box;
    let c = b.center();
    let r = Rectangle {
        pos: Vector { x: c.x - GORILLA_WIDTH / 2, y: b.pos.y - GORILLA_HEIGHT },
        size: Vector { x: GORILLA_WIDTH, y: GORILLA_HEIGHT },
    };
    assert(r == gorilla_on(buildings[i as int].bound_box));
    r
}

/// The wind made of three draws: a direction from `(x, y)` and a strength.
/// With both `x` and `y` zero the direction is straight down, as it is for
/// every other draw with `x` zero.
pub open spec fn wind_of(x: int, y: int, strength: int) -> (int, int) {
    let d = if x == 0 && y == 0 {
        (0int, SCALE as int)
    } else {
        normalized((x, y))
    };
    (div_trunc(d.0 * strength, SCALE as int), div_trunc(d.1 * strength, SCALE as int))
}

/// The wind never blows upwards and is at most twice as long as a unit direction.
pub open spec fn is_wind(w: (int, int)) -> bool {
    -2 * SCALE <= w.0 <= 2 * SCALE && 0 <= w.1 <= 2 * SCALE
}

/// The wind is one that a round can begin with: a direction drawn between
/// level and a quarter downwards, to either side, times a strength drawn
/// from one unit length to two.
pub open spec fn is_drawn_wind(w: (int, int)) -> bool {
    exists|x: int, y: int, strength: int|
        {
            &&& -SCALE <= x < SCALE
            &&& 0 <= y < SCALE / 4
            &&& SCALE <= strength < 2 * SCALE
            &&& w == #[trigger] wind_of(x, y, strength)
        }
}

/// There is wind: its components together reach a unit length but for
/// what rounding takes.
pub open spec fn blows(w: (int, int)) -> bool {
    abs(w.0) + abs(w.1) >= SCALE - 5
}

/// `d * strength / SCALE`, rounded towards zero.
fn scale_by(d: i64, strength: i64) -> (r: i64)
    requires
        -SCALE <= d <= SCALE,
        0 <= strength <= 2 * SCALE,
    ensures
        r == div_trunc(d * strength, SCALE as int),
        -strength <= r <= strength,
        d >= 0 ==> r >= 0,
        SCALE * abs(r as int) + SCALE > abs(d as int) * strength,
{
    assert(-1_000_000 * strength <= d * strength <= 1_000_000 * strength) by (nonlinear_arith)
        requires
            -1_000_000 <= d <= 1_000_000,
            0 <= strength,
    ;
    assert(d >= 0 ==> d * strength >= 0) by (nonlinear_arith)
        requires
            strength >= 0,
    ;
    assert(d < 0 ==> d * strength <= 0 && (-d) * strength == -(d * strength)) by (nonlinear_arith)
        requires
            strength >= 0,
    ;
    let p: i64 = d * strength;
    p / SCALE
}

/// The wind for three draws.
pub fn wind_from(x: i64, y: i64, strength: i64) -> (w: Vector)
    requires
        y >= 0,
        0 <= strength <= 2 * SCALE,
    ensures
        w@ == wind_of(x as int, y as int, strength as int),
        is_wind(w@),
        strength >= SCALE ==> blows(w@),
{
    let d = if x == 0 && y == 0 {
        proof {
            lemma_level_directions();
            assert((SCALE - 3) * (SCALE - 3) <= SCALE * SCALE < (SCALE + 1) * (SCALE + 1))
                by (nonlinear_arith)
                requires
                    SCALE == 1_000_000,
            ;
        }
        Vector { x: 0, y: SCALE }
    } else {
        Vector { x, y }.normalize()
    };
    let w = Vector { x: scale_by(d.x, strength), y: scale_by(d.y, strength) };
    proof {
        lemma_direction_reach(d@);
        if strength >= SCALE {
            let reach = abs(d.x as int) + abs(d.y as int);
            assert(reach * strength >= (SCALE - 3) * SCALE) by (nonlinear_arith)
                requires
                    reach >= SCALE - 3,
                    strength >= SCALE,
                    SCALE >= 3,
            ;
            assert(abs(d.x as int) * strength + abs(d.y as int) * strength == reach * strength)
                by (nonlinear_arith)
                requires
                    reach == abs(d.x as int) + abs(d.y as int),
            ;
            assert((SCALE - 3) * SCALE == SCALE * SCALE - 3 * SCALE) by (nonlinear_arith);
            assert(SCALE * (abs(w.x as int) + abs(w.y as int)) == SCALE * abs(w.x as int) + SCALE
                * abs(w.y as int)) by (nonlinear_arith);
            assert(abs(w.x as int) + abs(w.y as int) >= SCALE - 5) by (nonlinear_arith)
                requires
                    SCALE * (abs(w.x as int) + abs(w.y as int)) + 2 * SCALE > SCALE * SCALE - 3
                        * SCALE,
                    SCALE == 1_000_000,
            ;
        }
    }
    w
}

/// A round of the game.
#[derive(Debug)]
pub struct Round {
    pub buildings: Vec<Building>,
    pub gorilla_left: Rectangle,
    pub gorilla_right: Rectangle,
    pub wind: Vector,
}

/// What a `Round` holds, as mathematical values.
pub struct RoundView {
    pub buildings: Seq<BuildingView>,
    pub gorilla_left: Rectangle,
    pub gorilla_right: Rectangle,
    pub wind: Vector,
}

impl View for Round {
    type V = RoundView;

    open spec fn view(&self) -> RoundView {
        RoundView {
            buildings: views(self.buildings@),
            gorilla_left: self.gorilla_left,
            gorilla_right: self.gorilla_right,
            wind: self.wind,
        }
    }
}

impl RoundView {
    /// The hit-box of the player of `side`.
    pub open spec fn gorilla(self, side: Side) -> Rectangle {
        match side {
            Side::Left => self.gorilla_left,
            Side::Right => self.gorilla_right,
        }
    }

    /// The buildings are well formed, both players stand within the field, the
    /// left one left of the right one, and the wind is one.
    pub open spec fn wf(self) -> bool {
        &&& all_buildings_wf(self.buildings)
        &&& self.gorilla_left.wf()
        &&& self.gorilla_right.wf()
        &&& self.gorilla_left.within(field())
        &&& self.gorilla_right.within(field())
        &&& self.gorilla_left.center_spec().x < self.gorilla_right.center_spec().x
        &&& is_wind(self.wind@)
    }

    /// A round as it begins: a full skyline of intact towers, each player on a
    /// roof of its part of it, and a wind as it is drawn.
    pub open spec fn is_fresh(self) -> bool {
        let len = self.buildings.len() as int;
        &&& is_skyline(self.buildings)
        &&& exists|i: int|
            first_roof(Side::Left, len) <= i < end_roof(Side::Left, len) && self.gorilla_left
                == gorilla_on(#[trigger] self.buildings[i].bound_box)
        &&& exists|i: int|
            first_roof(Side::Right, len) <= i < end_roof(Side::Right, len) && self.gorilla_right
                == gorilla_on(#[trigger] self.buildings[i].bound_box)
        &&& is_wind(self.wind@)
        &&& is_drawn_wind(self.wind@)
        &&& blows(self.wind@)
    }
}

proof fn lemma_row_order(bs: Seq<BuildingView>, i: int, j: int)
    requires
        is_row(bs),
        0 <= i < j < bs.len(),
    ensures
        bs[i].right() + BUILDING_GAP * SCALE <= bs[j].bound_box.pos.x,
    decreases j - i,
{
    assert(bs[i].is_tower());
    assert(bs[j].is_tower());
    if i + 1 < j {
        lemma_row_order(bs, i, j - 1);
        assert(bs[j - 1].is_tower());
        assert(bs[j - 1 + 1].bound_box.pos.x == bs[j - 1].right() + BUILDING_GAP * SCALE);
    } else {
        assert(bs[i + 1].bound_box.pos.x == bs[i].right() + BUILDING_GAP * SCALE);
    }
}

/// A fresh round is well formed.
pub proof fn lemma_fresh_wf(r: RoundView)
    requires
        r.is_fresh(),
    ensures
        r.wf(),
        forall|i: int| 0 <= i < r.buildings.len() ==> (#[trigger] r.buildings[i]).fragments is None,
{
    let bs = r.buildings;
    let len = bs.len() as int;
    lemma_skyline_len(bs);
    let i = choose|i: int|
        first_roof(Side::Left, len) <= i < end_roof(Side::Left, len) && r.gorilla_left
            == gorilla_on(#[trigger] bs[i].bound_box);
    let j = choose|j: int|
        first_roof(Side::Right, len) <= j < end_roof(Side::Right, len) && r.gorilla_right
            == gorilla_on(#[trigger] bs[j].bound_box);
    assert(bs[i].is_tower());
    assert(bs[j].is_tower());
    assert(i < j);
    lemma_row_order(bs, i, j);
    lemma_row_order(bs, i, len - 1);
    lemma_row_order(bs, j, len - 1);
    assert(bs[len - 1].is_tower());
    assert forall|m: int| 0 <= m < bs.len() implies (#[trigger] bs[m]).fragments is None by {
        assert(bs[m].is_tower());
    }
}

impl Round {
    /// A new round: a skyline, a player on either part of it, and a wind, all
    /// drawn from `rng`.
    pub fn new(rng: &mut StdRng) -> (round: Round)
        ensures
            round@.is_fresh(),
            round@.wf(),
    {
        let buildings = Building::buildings(rng);
        proof {
            lemma_skyline_len(views(buildings@));
            assert forall|i: int| 0 <= i < buildings.len() implies {
                &&& (#[trigger] buildings[i]).bound_box.wf()
                &&& buildings[i].bound_box.pos.x >= i64::MIN + GORILLA_WIDTH
                &&& buildings[i].bound_box.pos.y >= i64::MIN + GORILLA_HEIGHT
            } by {
                assert(views(buildings@)[i].is_tower());
                assert(views(buildings@)[i].wf());
            }
        }
        let gorilla_left = place_gorilla(Side::Left, buildings.as_slice(), rng);
        let gorilla_right = place_gorilla(Side::Right, buildings.as_slice(), rng);
        let x = gen_range(rng, -SCALE, SCALE);
        let y = gen_range(rng, 0, SCALE / 4);
        let strength = gen_range(rng, SCALE, 2 * SCALE);
        let wind = wind_from(x, y, strength);
        let round = Round { buildings, gorilla_left, gorilla_right, wind };
        proof {
            assert(wind@ == wind_of(x as int, y as int, strength as int));
            assert(is_drawn_wind(wind@));
            let len = round@.buildings.len() as int;
            let i = choose|i: int|
                first_roof(Side::Left, len) <= i < end_roof(Side::Left, len) && gorilla_left
                    == gorilla_on(#[trigger] round.buildings[i].bound_box);
            assert(gorilla_left == gorilla_on(round@.buildings[i].bound_box));
            let j = choose|j: int|
                first_roof(Side::Right, len) <= j < end_roof(Side::Right, len) && gorilla_right
                    == gorilla_on(#[trigger] round.buildings[j].bound_box);
            assert(gorilla_right == gorilla_on(round@.buildings[j].bound_box));
            lemma_fresh_wf(round@);
        }
        round
    }

    /// The hit-box of the player of `side`.
    pub fn gorilla_from_side(&self, side: Side) -> (r: &Rectangle)
        ensures
            *r == self@.gorilla(side),
    {
        match side {
            Side::Left => &self.gorilla_left,
            Side::Right => &self.gorilla_right,
        }
    }
}

} // verus!
