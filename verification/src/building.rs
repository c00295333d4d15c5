//! A building of the skyline: its outline and what is left of its mass.

use vstd::prelude::*;
use rand::rngs::StdRng;
use crate::circle::CircleF;
use crate::game_constants::{BUILDING_GAP, BUILDING_SLOTS, SCALE, TILE_SIZE, WINDOW_X, WINDOW_Y};
use crate::geom::{Rectangle, Vector};
use crate::rng::gen_range;

verus! {

/// A building. While `fragments` is `None` the building is intact and its whole
/// `bound_box` is solid; once it is `Some`, only the listed rectangles are
/// solid, and an empty list is a building that no longer has any mass.
#[derive(Debug)]
pub struct Building {
    pub bound_box: Rectangle,
    pub fragments: Option<Vec<Rectangle>>,
    /// Indices into the tile sheet, row by row from the roof down.
    pub tiles: Vec<usize>,
}

/// What a `Building` holds, as mathematical values.
pub struct BuildingView {
    pub bound_box: Rectangle,
    pub fragments: Option<Seq<Rectangle>>,
    pub tiles: Seq<usize>,
}

impl View for Building {
    type V = BuildingView;

    open spec fn view(&self) -> BuildingView {
        BuildingView {
            bound_box: self.bound_box,
            fragments: match self.fragments {
                Some(parts) => Some(parts@),
                None => None,
            },
            tiles: self.tiles@,
        }
    }
}

/// Every rectangle of `parts` is well formed.
pub open spec fn all_wf(parts: Seq<Rectangle>) -> bool {
    forall|j: int| 0 <= j < parts.len() ==> (#[trigger] parts[j]).wf()
}

/// Every rectangle of `parts` lies within `outer`.
pub open spec fn all_within(parts: Seq<Rectangle>, outer: Rectangle) -> bool {
    forall|j: int| 0 <= j < parts.len() ==> (#[trigger] parts[j]).within(outer)
}

/// Some rectangle of `parts` shares area with `c`.
pub open spec fn any_overlap(c: CircleF, parts: Seq<Rectangle>) -> bool {
    exists|j: int| 0 <= j < parts.len() && c.overlaps_rect(#[trigger] parts[j])
}

impl BuildingView {
    /// The outline is well formed and no fragment reaches beyond it.
    pub open spec fn wf(self) -> bool {
        &&& self.bound_box.wf()
        &&& self.fragments matches Some(parts) ==> all_wf(parts) && all_within(
            parts,
            self.bound_box,
        )
    }

    /// The circle touches the building's solid mass.
    pub open spec fn hit_by(self, c: CircleF) -> bool {
        match self.fragments {
            None => c.overlaps_rect(self.bound_box),
            Some(parts) => any_overlap(c, parts),
        }
    }
}

/// Some building of the row is hit by the circle.
pub open spec fn any_hit(c: CircleF, buildings: Seq<BuildingView>) -> bool {
    exists|i: int| 0 <= i < buildings.len() && (#[trigger] buildings[i]).hit_by(c)
}

/// `xs` lists, in ascending order and each once, the indices of the buildings
/// that the circle hits.
pub open spec fn is_hit_list(xs: Seq<usize>, c: CircleF, buildings: Seq<BuildingView>) -> bool {
    &&& forall|k: int|
        0 <= k < xs.len() ==> (#[trigger] xs[k]) < buildings.len() && buildings[xs[k] as int].hit_by(
            c,
        )
    &&& forall|j: int, k: int| 0 <= j < k < xs.len() ==> xs[j] < xs[k]
    &&& forall|i: int|
        0 <= i < buildings.len() && (#[trigger] buildings[i]).hit_by(c) ==> xs.contains(i as usize)
}

/// The views of a row of buildings.
pub open spec fn views(buildings: Seq<Building>) -> Seq<BuildingView> {
    Seq::new(buildings.len(), |i: int| buildings[i]@)
}

/// Every building of the row is well formed.
pub open spec fn all_buildings_wf(buildings: Seq<BuildingView>) -> bool {
    forall|i: int| 0 <= i < buildings.len() ==> (#[trigger] buildings[i]).wf()
}

impl Building {
    /// An intact building with the given outline and tiles.
    pub fn new(bound_box: Rectangle, tiles: Vec<usize>) -> (b: Building)
        ensures
            b@.bound_box == bound_box,
            b@.fragments is None,
            b@.tiles == tiles@,
    {
        Building { bound_box, fragments: None, tiles }
    }

    /// Whether the circle touches the building's solid mass.
    pub fn hit_by(&self, c: &CircleF) -> (b: bool)
        ensures
            b == self@.hit_by(*c),
    {
        match &self.fragments {
            None => c.overlaps(&self.bound_box),
            Some(parts) => {
                let mut j: usize = 0;
                while j < parts.len()
                    invariant
                        j <= parts.len(),
                        self@.fragments == Some(parts@),
                        forall|m: int| 0 <= m < j ==> !c.overlaps_rect(#[trigger] parts@[m]),
                    decreases parts.len() - j,
                {
                    if c.overlaps(&parts[j]) {
                        assert(c.overlaps_rect(parts@[j as int]));
                        return true;
                    }
                    j += 1;
                }
                false
            },
        }
    }
}

/// The top row of tiles of a building `cols` tiles wide: a left corner, the
/// roof, a right corner.
pub open spec fn roof_row(cols: int, co: int) -> Seq<usize> {
    Seq::new(
        cols as nat,
        |c: int|
            if c == 0 {
                co as usize
            } else if c == cols - 1 {
                (co + 2) as usize
            } else {
                (co + 1) as usize
            },
    )
}

/// A row of tiles below the roof: a left wall, windows of three kinds, a right wall.
pub open spec fn is_body_row(row: Seq<usize>, cols: int, co: int) -> bool {
    &&& row.len() == cols
    &&& cols >= 2
    &&& row[0] == co + 3
    &&& row[cols - 1] == co + 4
    &&& forall|c: int| 0 < c < cols - 1 ==> co + 5 <= #[trigger] row[c] < co + 8
}

/// `tiles` holds `rows` rows below the roof.
pub open spec fn is_body(tiles: Seq<usize>, cols: int, rows: nat, co: int) -> bool
    decreases rows,
{
    if rows == 0 {
        tiles.len() == 0
    } else {
        &&& tiles.len() >= cols
        &&& is_body_row(tiles.skip(tiles.len() - cols), cols, co)
        &&& is_body(tiles.take(tiles.len() - cols), cols, (rows - 1) as nat, co)
    }
}

/// The tiles of a building of the given size in pixels: one roof row and a
/// body row for every full tile of height, all in one of four colours.
pub open spec fn tiles_ok(tiles: Seq<usize>, width: int, height: int) -> bool {
    let cols = width / (TILE_SIZE as int) + 1;
    exists|co: int|
        {
            &&& co == 0 || co == 8 || co == 16 || co == 24
            &&& tiles.len() >= cols
            &&& tiles.take(cols) == roof_row(cols, co)
            &&& #[trigger] is_body(tiles.skip(cols), cols, (height / (TILE_SIZE as int)) as nat, co)
        }
}

impl BuildingView {
    /// The right edge of the outline.
    pub open spec fn right(self) -> int {
        self.bound_box.pos.x + self.bound_box.size.x
    }

    /// A freshly built tower: intact, standing on the lower edge of the field,
    /// its roof on one of sixteen tile rows, three to five tiles wide plus a
    /// tile, and tiled to match.
    pub open spec fn is_tower(self) -> bool {
        let top = self.bound_box.pos.y as int;
        let width = self.bound_box.size.x as int;
        &&& self.fragments is None
        &&& self.bound_box.pos.x >= 0
        &&& 256 * SCALE <= top <= 496 * SCALE
        &&& top % (16 * SCALE) == 0
        &&& self.bound_box.size.y == WINDOW_Y - top
        &&& width == 64 * SCALE || width == 80 * SCALE || width == 96 * SCALE
        &&& tiles_ok(self.tiles, width / (SCALE as int), (WINDOW_Y - top) / (SCALE as int))
    }
}

/// A row of towers from the left edge of the field, a gap apart, each of
/// which begins within the field.
pub open spec fn is_row(bs: Seq<BuildingView>) -> bool {
    &&& forall|i: int| 0 <= i < bs.len() ==> (#[trigger] bs[i]).is_tower()
    &&& bs.len() > 0 ==> bs[0].bound_box.pos.x == 0
    &&& forall|i: int|
        0 <= i < bs.len() - 1 ==> (#[trigger] bs[i + 1]).bound_box.pos.x == bs[i].right()
            + BUILDING_GAP * SCALE
    &&& forall|i: int| 0 <= i < bs.len() ==> (#[trigger] bs[i]).bound_box.pos.x <= WINDOW_X
}

/// A full skyline: a row of towers that either fills every slot or reaches
/// past the right edge of the field.
pub open spec fn is_skyline(bs: Seq<BuildingView>) -> bool {
    &&& is_row(bs)
    &&& 1 <= bs.len() <= BUILDING_SLOTS
    &&& bs.len() == BUILDING_SLOTS || bs.last().right() + BUILDING_GAP * SCALE > WINDOW_X
}

/// A tower is well formed.
pub proof fn lemma_tower_wf(b: BuildingView)
    requires
        b.is_tower(),
        b.bound_box.pos.x <= WINDOW_X,
    ensures
        b.wf(),
{
}

/// A skyline has at least eight towers.
pub proof fn lemma_skyline_len(bs: Seq<BuildingView>)
    requires
        is_skyline(bs),
    ensures
        bs.len() >= 8,
        all_buildings_wf(bs),
{
    lemma_row_reach(bs, bs.len() - 1);
    assert forall|i: int| 0 <= i < bs.len() implies (#[trigger] bs[i]).wf() by {
        lemma_tower_wf(bs[i]);
    }
}

proof fn lemma_row_reach(bs: Seq<BuildingView>, i: int)
    requires
        is_row(bs),
        0 <= i < bs.len(),
    ensures
        bs[i].right() + BUILDING_GAP * SCALE <= 104 * SCALE * (i + 1),
    decreases i,
{
    if i > 0 {
        lemma_row_reach(bs, i - 1);
        assert(bs[i - 1 + 1].bound_box.pos.x == bs[i - 1].right() + BUILDING_GAP * SCALE);
    }
    assert(bs[i].is_tower());
}

fn roof_tiles(cols: usize, co: usize) -> (row: Vec<usize>)
    requires
        2 <= cols <= 8,
        co <= 24,
    ensures
        row@ == roof_row(cols as int, co as int),
{
    let mut row: Vec<usize> = Vec::new();
    row.push(co);
    let mut c: usize = 1;
    while c < cols - 1
        invariant
            1 <= c <= cols - 1,
            co <= 24,
            row.len() == c,
            forall|m: int| 0 <= m < c ==> #[trigger] row@[m] == roof_row(cols as int, co as int)[m],
        decreases cols - c,
    {
        row.push(1 + co);
        c += 1;
    }
    row.push(2 + co);
    assert(row@ =~= roof_row(cols as int, co as int));
    row
}

fn body_tiles(rng: &mut StdRng, cols: usize, co: usize) -> (row: Vec<usize>)
    requires
        2 <= cols <= 8,
        co <= 24,
    ensures
        is_body_row(row@, cols as int, co as int),
{
    let mut row: Vec<usize> = Vec::new();
    row.push(3 + co);
    let mut c: usize = 1;
    while c < cols - 1
        invariant
            1 <= c <= cols - 1,
            co <= 24,
            row.len() == c,
            row@[0] == co + 3,
            forall|m: int| 0 < m < c ==> co + 5 <= #[trigger] row@[m] < co + 8,
        decreases cols - c,
    {
        let mid = gen_range(rng, 5, 8);
        row.push(mid as usize + co);
        c += 1;
    }
    row.push(4 + co);
    row
}

/// The tiles of a building `width` by `height` pixels in the colour `co`.
fn make_tiles(rng: &mut StdRng, width: i64, height: i64, co: usize) -> (tiles: Vec<usize>)
    requires
        width == 64 || width == 80 || width == 96,
        104 <= height <= 344,
        co == 0 || co == 8 || co == 16 || co == 24,
    ensures
        tiles_ok(tiles@, width as int, height as int),
{
    let cols: usize = (width / (TILE_SIZE as i64)) as usize + 1;
    let rows: usize = (height / (TILE_SIZE as i64)) as usize;
    let mut tiles = roof_tiles(cols, co);
    let ghost roof = tiles@;
    let mut r: usize = 0;
    assert(tiles@.skip(cols as int) =~= Seq::<usize>::empty());
    while r < rows
        invariant
            r <= rows,
            2 <= cols <= 8,
            co <= 24,
            roof.len() == cols,
            tiles@.len() >= cols,
            tiles@.take(cols as int) == roof,
            is_body(tiles@.skip(cols as int), cols as int, r as nat, co as int),
        decreases rows - r,
    {
        let ghost before = tiles@;
        let mut row = body_tiles(rng, cols, co);
        let ghost added = row@;
        tiles.append(&mut row);
        proof {
            let body = tiles@.skip(cols as int);
            assert(tiles@ =~= before + added);
            assert(tiles@.take(cols as int) =~= before.take(cols as int));
            assert(body.skip(body.len() - cols) =~= added);
            assert(body.take(body.len() - cols) =~= before.skip(cols as int));
        }
        r += 1;
    }
    proof {
        assert(is_body(tiles@.skip(cols as int), cols as int, (height / 16) as nat, co as int));
    }
    tiles
}

impl Building {
    /// Builds a skyline from left to right, drawing each tower's height,
    /// width, colour and windows from `rng`.
    pub fn buildings(rng: &mut StdRng) -> (b: Vec<Building>)
        ensures
            is_skyline(views(b@)),
    {
        let mut b: Vec<Building> = Vec::new();
        let mut last_x: i64 = 0;
        while b.len() < BUILDING_SLOTS && last_x <= WINDOW_X
            invariant
                b.len() <= BUILDING_SLOTS,
                is_row(views(b@)),
                0 <= last_x <= 104 * SCALE * b.len(),
                last_x == if b.len() == 0 {
                    0
                } else {
                    views(b@).last().right() + BUILDING_GAP * SCALE
                },
            decreases BUILDING_SLOTS - b.len(),
        {
            let pos_y = (TILE_SIZE as i64) * gen_range(rng, 16, 32);
            let height = WINDOW_Y / SCALE - pos_y;
            let width = 64 + (TILE_SIZE as i64) * gen_range(rng, 0, 3);
            let co = (8 * gen_range(rng, 0, 4)) as usize;
            let tiles = make_tiles(rng, width, height, co);
            let bound_box = Rectangle {
                pos: Vector { x: last_x, y: pos_y * SCALE },
                size: Vector { x: width * SCALE, y: height * SCALE },
            };
            let ghost before = views(b@);
            let tower = Building::new(bound_box, tiles);
            assert(tower@.is_tower());
            b.push(tower);
            proof {
                let now = views(b@);
                assert(now.len() == before.len() + 1);
                assert(forall|i: int| 0 <= i < before.len() ==> now[i] == before[i]);
                assert(now[before.len() as int] == tower@);
                assert forall|i: int| 0 <= i < now.len() - 1 implies (#[trigger] now[i
                    + 1]).bound_box.pos.x == now[i].right() + BUILDING_GAP * SCALE by {
                    if i + 1 < before.len() {
                        assert(before[i + 1].bound_box.pos.x == before[i].right() + BUILDING_GAP
                            * SCALE);
                    } else {
                        assert(now[i] == before.last());
                    }
                }
            }
            assert((width + BUILDING_GAP) * SCALE <= 104 * SCALE && 104 * SCALE * (b.len() - 1) + 104
                * SCALE == 104 * SCALE * b.len()) by (nonlinear_arith)
                requires
                    width <= 96,
                    BUILDING_GAP == 8,
                    SCALE == 1_000_000,
            ;
            last_x = last_x + (width + BUILDING_GAP as i64) * SCALE;
        }
        b
    }
}

} // verus!
