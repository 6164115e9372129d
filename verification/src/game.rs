//! The grid, the squares on it and how they move and are painted.

use vstd::prelude::*;

verus! {

/// A cell of the grid. The origin is the top-left corner.
#[derive(Clone, Copy, Debug, PartialEq, Eq, Structural)]
pub struct Point {
    pub x: usize,
    pub y: usize,
}

/// The colours a player can be shown in, in palette order.
#[derive(Clone, Copy, Debug, PartialEq, Eq, Structural)]
pub enum PlayerColor {
    Blue,
    Red,
    Green,
    Yellow,
    Cyan,
    Magenta,
    White,
    Black,
}

/// A unit step along one axis of the grid.
#[derive(Clone, Copy, Debug, PartialEq, Eq, Structural)]
pub enum Direction {
    Up,
    Down,
    Left,
    Right,
}

/// One player: a filled square of `side` rows whose top-left cell is at
/// `coordinates`. The identity `id` is handed out by the host.
#[derive(Clone, Copy, Debug, PartialEq, Eq, Structural)]
pub struct Square {
    pub side: usize,
    pub coordinates: Point,
    pub color: PlayerColor,
    pub id: usize,
}

/// One horizontal run of cells to put on the terminal: `width` copies of
/// `glyph` starting at column `x` of row `y`, in the colour `color`.
#[derive(Clone, Copy, Debug, PartialEq, Eq, Structural)]
pub struct Stroke {
    pub x: usize,
    pub y: usize,
    pub glyph: char,
    pub width: usize,
    pub color: PlayerColor,
}

/// The glyph a square is drawn with (a full block).
pub const FULL_BLOCK: char = '\u{2588}';

/// The glyph a square is erased with.
pub const BLANK: char = ' ';

/// The colour of the player with identity `id`: the first seven identities
/// have a colour each, every later one is black.
pub open spec fn spec_palette(id: nat) -> PlayerColor {
    if id == 0 {
        PlayerColor::Blue
    } else if id == 1 {
        PlayerColor::Red
    } else if id == 2 {
        PlayerColor::Green
    } else if id == 3 {
        PlayerColor::Yellow
    } else if id == 4 {
        PlayerColor::Cyan
    } else if id == 5 {
        PlayerColor::Magenta
    } else if id == 6 {
        PlayerColor::White
    } else {
        PlayerColor::Black
    }
}

/// Whether a step from `from` in `direction` is held back by the edge of the
/// grid at the origin.
pub open spec fn spec_at_edge(from: Point, direction: Direction) -> bool {
    match direction {
        Direction::Up => from.y == 0,
        Direction::Left => from.x == 0,
        Direction::Down => false,
        Direction::Right => false,
    }
}

/// Whether the cell one step from `from` in `direction` can be written in a
/// `usize`.
pub open spec fn spec_step_fits(from: Point, direction: Direction) -> bool {
    match direction {
        Direction::Up => true,
        Direction::Left => true,
        Direction::Down => from.y < usize::MAX,
        Direction::Right => from.x < usize::MAX,
    }
}

/// Where a step from `from` in `direction` ends: one cell further along the
/// axis, except that a step up or left from the edge stays where it is.
pub open spec fn spec_step(from: Point, direction: Direction) -> Point {
    match direction {
        Direction::Up => Point {
            x: from.x,
            y: if from.y > 0 { (from.y - 1) as usize } else { from.y },
        },
        Direction::Down => Point { x: from.x, y: (from.y + 1) as usize },
        Direction::Left => Point {
            x: if from.x > 0 { (from.x - 1) as usize } else { from.x },
            y: from.y,
        },
        Direction::Right => Point { x: (from.x + 1) as usize, y: from.y },
    }
}

/// Whether `to` differs from `from` on exactly one axis, and there by
/// exactly one cell.
pub open spec fn spec_one_unit_apart(from: Point, to: Point) -> bool {
    ||| to.x == from.x && (to.y == from.y + 1 || to.y + 1 == from.y)
    ||| to.y == from.y && (to.x == from.x + 1 || to.x + 1 == from.x)
}

/// Whether every row of `square` has a row number and a width that can be
/// written in a `usize`.
pub open spec fn spec_paintable(square: Square) -> bool {
    &&& square.coordinates.y + square.side <= usize::MAX + 1
    &&& 2 * square.side <= usize::MAX
}

/// The strokes that cover `square` with `glyph`: one per row, top row first,
/// each twice as wide as the square has rows.
pub open spec fn spec_paint(square: Square, glyph: char) -> Seq<Stroke> {
    Seq::new(
        square.side as nat,
        |i: int|
            Stroke {
                x: square.coordinates.x,
                y: (square.coordinates.y + i) as usize,
                glyph,
                width: (2 * square.side) as usize,
                color: square.color,
            },
    )
}

/// `square` moved to the cell `to`: everything but the place stays.
pub open spec fn spec_moved(square: Square, to: Point) -> Square {
    Square { coordinates: to, ..square }
}

/// The strokes that show the move of `square` to the cell `to`: first
/// those that blank it out where it stands, then those that draw it at
/// `to`.
pub open spec fn spec_redraw(square: Square, to: Point) -> Seq<Stroke> {
    spec_paint(square, BLANK) + spec_paint(spec_moved(square, to), FULL_BLOCK)
}

/// The colour of the player with identity `id`.
pub fn id_to_player_color(id: usize) -> (color: PlayerColor)
    ensures
        color == spec_palette(id as nat),
{
    match id {
        0 => PlayerColor::Blue,
        1 => PlayerColor::Red,
        2 => PlayerColor::Green,
        3 => PlayerColor::Yellow,
        4 => PlayerColor::Cyan,
        5 => PlayerColor::Magenta,
        6 => PlayerColor::White,
        _ => PlayerColor::Black,
    }
}

impl Square {
    /// Whether `paint` can be called on this square.
    pub fn paintable(&self) -> (fits: bool)
        ensures
            fits == spec_paintable(*self),
    {
        let wide_enough = self.side <= usize::MAX / 2;
        let tall_enough = self.side == 0 || self.coordinates.y <= usize::MAX - (self.side - 1);
        wide_enough && tall_enough
    }

    /// The strokes that draw the square where it stands.
    pub fn draw(&self) -> (strokes: Vec<Stroke>)
        requires
            spec_paintable(*self),
        ensures
            strokes@ == spec_paint(*self, FULL_BLOCK),
    {
        self.paint(FULL_BLOCK)
    }

    /// The strokes that blank the square out where it stands.
    pub fn erase(&self) -> (strokes: Vec<Stroke>)
        requires
            spec_paintable(*self),
        ensures
            strokes@ == spec_paint(*self, BLANK),
    {
        self.paint(BLANK)
    }

    /// Moves the square to `coordinates` and returns the strokes that show
    /// the move: first those that blank it out at the old place, then those
    /// that draw it at the new one.
    pub fn redraw(&mut self, coordinates: Point) -> (strokes: Vec<Stroke>)
        requires
            spec_paintable(*old(self)),
            spec_paintable(spec_moved(*old(self), coordinates)),
        ensures
            *final(self) == spec_moved(*old(self), coordinates),
            strokes@ == spec_redraw(*old(self), coordinates),
    {
        let mut strokes = self.erase();
        self.coordinates = coordinates;
        let mut drawn = self.draw();
        strokes.append(&mut drawn);
        strokes
    }

    /// The strokes that cover the square with `character`, top row first.
    pub fn paint(&self, character: char) -> (strokes: Vec<Stroke>)
        requires
            spec_paintable(*self),
        ensures
            strokes@ == spec_paint(*self, character),
    {
        let width: usize = self.side * 2;
        let mut strokes: Vec<Stroke> = Vec::new();
        let mut increment: usize = 0;
        while increment < self.side
            invariant
                increment <= self.side,
                spec_paintable(*self),
                width == 2 * self.side,
                strokes@ == spec_paint(*self, character).take(increment as int),
            decreases self.side - increment,
        {
            strokes.push(
                Stroke {
                    x: self.coordinates.x,
                    y: self.coordinates.y + increment,
                    glyph: character,
                    width,
                    color: self.color,
                },
            );
            increment += 1;
        }
        strokes
    }

    /// The cell one step from the square in `direction`. The square itself
    /// stays where it is: it moves when the step comes back from the
    /// network.
    ///
    /// A step up or left from the edge of the grid ends where it began, so
    /// no coordinate ever falls below zero; every other step changes
    /// exactly one coordinate by exactly one.
    pub fn move_in_direction(&mut self, direction: Direction) -> (target: Point)
        requires
            spec_step_fits(old(self).coordinates, direction),
        ensures
            *final(self) == *old(self),
            target == spec_step(old(self).coordinates, direction),
            spec_at_edge(old(self).coordinates, direction) ==> target == old(self).coordinates,
            !spec_at_edge(old(self).coordinates, direction) ==> spec_one_unit_apart(
                old(self).coordinates,
                target,
            ),
    {
        match direction {
            Direction::Up => {
                if self.coordinates.y > 0 {
                    Point { x: self.coordinates.x, y: self.coordinates.y - 1 }
                } else {
                    Point { x: self.coordinates.x, y: self.coordinates.y }
                }
            },
            Direction::Right => Point { x: self.coordinates.x + 1, y: self.coordinates.y },
            Direction::Left => {
                if self.coordinates.x > 0 {
                    Point { x: self.coordinates.x - 1, y: self.coordinates.y }
                } else {
                    Point { x: self.coordinates.x, y: self.coordinates.y }
                }
            },
            Direction::Down => Point { x: self.coordinates.x, y: self.coordinates.y + 1 },
        }
    }
}

/// Redrawing shows one square and no other. The square that was moved has
/// the cell it was moved to and the identity, side and colour it had.
/// There are twice as many strokes as the square has rows: its rows where
/// it stood, blanked, and then its rows at the new cell, drawn. Every one
/// of them has the colour of the square and is twice as wide as the
/// square has rows.
pub proof fn lemma_redraw_shows_one_square(square: Square, to: Point)
    requires
        spec_paintable(square),
        spec_paintable(spec_moved(square, to)),
    ensures
        spec_moved(square, to).coordinates == to,
        spec_moved(square, to).id == square.id,
        spec_moved(square, to).side == square.side,
        spec_moved(square, to).color == square.color,
        spec_redraw(square, to).len() == 2 * square.side,
        forall|i: int|
            #![trigger spec_redraw(square, to)[i]]
            0 <= i < 2 * square.side ==> {
                let stroke = spec_redraw(square, to)[i];
                &&& stroke.color == square.color
                &&& stroke.width == 2 * square.side
                &&& i < square.side ==> {
                    &&& stroke.glyph == BLANK
                    &&& stroke.x == square.coordinates.x
                    &&& stroke.y == square.coordinates.y + i
                }
                &&& i >= square.side ==> {
                    &&& stroke.glyph == FULL_BLOCK
                    &&& stroke.x == to.x
                    &&& stroke.y == to.y + (i - square.side)
                }
            },
{
}

} // verus!
