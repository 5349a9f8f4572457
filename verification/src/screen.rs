//! What the renderer draws for an update: one block of pixels per cell.

use crate::grid::{in_bounds, Coordinate, COLUMNS, MAX_COORDINATES, ROWS};
use crate::signal::{ScreenSignal, ScreenUpdate};
use vstd::prelude::*;

verus! {

/// Edge of the square of pixels that stands for one cell.
pub const CELL_SIZE: u32 = 2;

/// A rectangle of pixels: its top left corner and its size.
#[derive(Clone, Copy, Debug, PartialEq, Eq, Structural)]
pub struct Block {
    /// Pixels from the left edge of the screen.
    pub x: i32,
    /// Pixels from the top edge of the screen.
    pub y: i32,
    /// Width in pixels.
    pub width: u32,
    /// Height in pixels.
    pub height: u32,
}

/// What to do to the screen.
#[derive(Clone, Copy, Debug, PartialEq, Eq)]
pub enum Drawing {
    /// Wipe it.
    Clear,
    /// Fill the blocks of the filled slots, in the order of the slots.
    Fill([Option<Block>; 256]),
}

/// The block of the cell at a position on the grid: columns run along x,
/// rows along y.
pub open spec fn block_at(coordinate: Coordinate) -> Block {
    Block {
        x: (coordinate.1 * CELL_SIZE) as i32,
        y: (coordinate.0 * CELL_SIZE) as i32,
        width: CELL_SIZE,
        height: CELL_SIZE,
    }
}

/// The block that a slot of a batch asks for: that of its position, if it
/// holds one that lies on the grid.
pub open spec fn slot_block(slot: Option<Coordinate>) -> Option<Block> {
    match slot {
        Some(coordinate) => if in_bounds(coordinate) {
            Some(block_at(coordinate))
        } else {
            None
        },
        None => None,
    }
}

/// What an update asks to be drawn.
pub enum Picture {
    /// A wiped screen.
    Clear,
    /// The blocks of these slots, filled in this order.
    Fill(Seq<Option<Block>>),
}

impl View for Drawing {
    type V = Picture;

    open spec fn view(&self) -> Picture {
        match *self {
            Drawing::Clear => Picture::Clear,
            Drawing::Fill(blocks) => Picture::Fill(blocks@),
        }
    }
}

/// The picture that an update asks for: slot by slot, the block of the
/// slot.
pub open spec fn drawing_of(update: ScreenUpdate) -> Picture {
    match update {
        ScreenUpdate::Clear => Picture::Clear,
        ScreenUpdate::Replace(batch) => Picture::Fill(
            Seq::new(batch.len(), |i: int| slot_block(batch[i])),
        ),
    }
}

/// The block of the cell at `coordinate`, or `None` for a position off the
/// grid.
pub fn block(coordinate: Coordinate) -> (r: Option<Block>)
    ensures
        r == if in_bounds(coordinate) {
            Some(block_at(coordinate))
        } else {
            None
        },
{
    if coordinate.0 < ROWS && coordinate.1 < COLUMNS {
        let x = coordinate.1 * 2;
        let y = coordinate.0 * 2;
        Some(Block { x: x as i32, y: y as i32, width: CELL_SIZE, height: CELL_SIZE })
    } else {
        None
    }
}

/// What to draw for `update`.
pub fn drawing(update: &ScreenSignal) -> (r: Drawing)
    ensures
        r@ == drawing_of(update@),
{
    match update {
        ScreenSignal::Clear => Drawing::Clear,
        ScreenSignal::Coordinate(batch) => {
            let mut blocks: [Option<Block>; 256] = [None; 256];
            let mut i: usize = 0;
            while i < MAX_COORDINATES
                invariant
                    i <= MAX_COORDINATES,
                    forall|k: int| 0 <= k < i ==> (#[trigger] blocks@[k]) == slot_block(batch@[k]),
                decreases MAX_COORDINATES - i,
            {
                blocks[i] = match batch[i] {
                    Some(coordinate) => block(coordinate),
                    None => None,
                };
                i += 1;
            }
            assert(blocks@ =~= Seq::new(batch@.len(), |i: int| slot_block(batch@[i])));
            Drawing::Fill(blocks)
        },
    }
}

} // verus!
