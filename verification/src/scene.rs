//! What a renderer needs to know of a game beyond its state: which sprite
//! goes where.

use vstd::prelude::*;
use crate::game::{aim_of, Game, GameView};
use crate::game_common::Side;
use crate::game_constants::{SCALE, TILE_SIZE};
use crate::geom::{div_trunc, is_direction, lemma_level_directions, Rectangle, Vector};
use crate::shot::in_field;

verus! {

/// The aim line starts this far from the player's centre, in pixels.
pub const START_OFFSET: i64 = 60;

/// The aim line ends this far from the player's centre, in pixels.
pub const END_OFFSET: i64 = 80;

/// Number of tiles in a row of the tile sheet.
pub const SHEET_COLUMNS: usize = 4;

/// Where a tile is taken from and where it goes, in whole pixels.
#[derive(Clone, Copy, Debug, PartialEq, Eq, Structural)]
pub struct TilePlace {
    /// Corner of the tile in the tile sheet.
    pub sheet_x: u32,
    pub sheet_y: u32,
    /// Corner of the tile on screen.
    pub x: i64,
    pub y: i64,
}

/// The place of tile number `i` of a building, `tile` being its index into
/// the sheet. The tiles run row by row from half a tile left of the
/// building's corner, one more to a row than full tiles fit its width. The
/// corner is taken in whole pixels, rounded towards zero.
pub open spec fn tile_place(bound_box: Rectangle, i: int, tile: int) -> TilePlace {
    let per_row = bound_box.size.x / SCALE / (TILE_SIZE as int) + 1;
    TilePlace {
        sheet_x: ((tile % (SHEET_COLUMNS as int)) * TILE_SIZE) as u32,
        sheet_y: ((tile / (SHEET_COLUMNS as int)) * TILE_SIZE) as u32,
        x: (div_trunc(bound_box.pos.x as int, SCALE as int) - TILE_SIZE / 2 + (i % per_row)
            * TILE_SIZE) as i64,
        y: (div_trunc(bound_box.pos.y as int, SCALE as int) + (i / per_row) * TILE_SIZE) as i64,
    }
}

/// Computes the place of a tile. The tile has to lie in a sheet and on a
/// screen whose coordinates are representable.
pub fn place_tile(bound_box: &Rectangle, i: usize, tile: usize) -> (p: TilePlace)
    requires
        bound_box.wf(),
        (tile / SHEET_COLUMNS) * TILE_SIZE <= u32::MAX,
        i <= 0x00ff_ffff_ffff_ffff,
    ensures
        p == tile_place(*bound_box, i as int, tile as int),
{
    let per_row: i64 = bound_box.size.x / SCALE / (TILE_SIZE as i64) + 1;
    let col: i64 = (i as i64) % per_row;
    let row: i64 = (i as i64) / per_row;
    assert(0 <= row <= i) by (nonlinear_arith)
        requires
            row == (i as int) / (per_row as int),
            per_row >= 1,
            i >= 0,
    ;
    TilePlace {
        sheet_x: ((tile % SHEET_COLUMNS) as u32) * TILE_SIZE,
        sheet_y: ((tile / SHEET_COLUMNS) as u32) * TILE_SIZE,
        x: bound_box.pos.x / SCALE - (TILE_SIZE as i64) / 2 + col * (TILE_SIZE as i64),
        y: bound_box.pos.y / SCALE + row * (TILE_SIZE as i64),
    }
}

impl GameView {
    /// The charge to show: that of the bot whose turn it is, or else that of
    /// the player at the controls.
    pub open spec fn power(self) -> i32 {
        match self.bot_of(self.turn) {
            Some(bot) => bot.counter,
            None => self.counter,
        }
    }

    /// The column of the sprite of either player: the one who has just
    /// thrown shows its second sprite while the shot is in progress.
    pub open spec fn gorilla_sprites(self) -> (u32, u32) {
        if !self.shot_in_progress() {
            (0, 0)
        } else {
            match self.turn {
                Side::Left => (1, 0),
                Side::Right => (0, 1),
            }
        }
    }

    /// Whether the player of `side` is shown: a player who was hit is not.
    pub open spec fn gorilla_shown(self, side: Side) -> bool {
        match self.new_game {
            None => true,
            Some(s) => s == side,
        }
    }

    /// The direction in which the player whose turn it is aims.
    pub open spec fn aim(self) -> Vector {
        match self.bot_of(self.turn) {
            Some(bot) => bot.dir,
            None => aim_of(
                (self.mouse_pos.x - self.center().x, self.mouse_pos.y - self.center().y),
                self.turn,
            ),
        }
    }

    /// The two ends of the aim line, which is shown while nothing is in
    /// progress and no round is about to be replaced.
    pub open spec fn aim_line(self) -> Option<(Vector, Vector)> {
        if self.shot_in_progress() || self.new_game is Some {
            None
        } else {
            let c = self.center();
            let d = self.aim();
            Some(
                (
                    Vector {
                        x: (c.x + d.x * START_OFFSET) as i64,
                        y: (c.y + d.y * START_OFFSET) as i64,
                    },
                    Vector { x: (c.x + d.x * END_OFFSET) as i64, y: (c.y + d.y * END_OFFSET) as i64 },
                ),
            )
        }
    }
}

impl Game {
    /// The charge to show.
    pub fn power(&self) -> (p: i32)
        ensures
            p == self@.power(),
    {
        match self.turn {
            Side::Left => match &self.bot_left {
                Some(bot) => bot.counter,
                None => self.counter,
            },
            Side::Right => match &self.bot_right {
                Some(bot) => bot.counter,
                None => self.counter,
            },
        }
    }

    /// The columns of the sprites of the left and the right player.
    pub fn gorilla_sprites(&self) -> (r: (u32, u32))
        ensures
            r == self@.gorilla_sprites(),
    {
        if !self.shot_in_progress() {
            (0, 0)
        } else {
            match self.turn {
                Side::Left => (1, 0),
                Side::Right => (0, 1),
            }
        }
    }

    /// Whether the player of `side` is shown.
    pub fn gorilla_shown(&self, side: Side) -> (b: bool)
        ensures
            b == self@.gorilla_shown(side),
    {
        match self.new_game {
            None => true,
            Some(Side::Left) => match side {
                Side::Left => true,
                Side::Right => false,
            },
            Some(Side::Right) => match side {
                Side::Left => false,
                Side::Right => true,
            },
        }
    }

    /// The direction in which the player whose turn it is aims.
    pub fn aim(&self) -> (d: Vector)
        requires
            self@.wf(),
        ensures
            d == self@.aim(),
            is_direction(d@),
    {
        let c = self.round.gorilla_from_side(self.turn).center();
        let bot = match self.turn {
            Side::Left => self.bot_left,
            Side::Right => self.bot_right,
        };
        proof {
            lemma_level_directions();
        }
        match bot {
            Some(bot) => bot.dir,
            None => {
                let v = Vector { x: self.mouse_pos.x - c.x, y: self.mouse_pos.y - c.y };
                if v.x == 0 && v.y == 0 {
                    match self.turn {
                        Side::Left => Vector { x: SCALE, y: 0 },
                        Side::Right => Vector { x: -SCALE, y: 0 },
                    }
                } else {
                    v.normalize()
                }
            },
        }
    }

    /// The two ends of the aim line, if it is shown.
    pub fn aim_line(&self) -> (r: Option<(Vector, Vector)>)
        requires
            self@.wf(),
        ensures
            r == self@.aim_line(),
    {
        if self.shot_in_progress() || self.new_game.is_some() {
            return None;
        }
        let c = self.round.gorilla_from_side(self.turn).center();
        let d = self.aim();
        assert(in_field(c));
        Some(
            (
                Vector { x: c.x + d.x * START_OFFSET, y: c.y + d.y * START_OFFSET },
                Vector { x: c.x + d.x * END_OFFSET, y: c.y + d.y * END_OFFSET },
            ),
        )
    }
}

} // verus!
