use vstd::prelude::*;

verus! {

/// What a drawn block stands for; the renderer picks its colour.
#[derive(Clone, Copy, Debug, PartialEq, Eq, Structural)]
pub enum Paint {
    Snake,
    Food,
    Portal,
    Poison,
    Border,
    GameOver,
}

/// A filled rectangle in grid cells.
#[derive(Clone, Copy, Debug, PartialEq, Eq, Structural)]
pub struct Sprite {
    pub paint: Paint,
    pub x: i64,
    pub y: i64,
    pub width: i64,
    pub height: i64,
}

pub open spec fn rect(paint: Paint, x: int, y: int, width: int, height: int) -> Sprite {
    Sprite { paint, x: x as i64, y: y as i64, width: width as i64, height: height as i64 }
}

/// One cell.
pub open spec fn block(paint: Paint, p: (int, int)) -> Sprite {
    rect(paint, p.0, p.1, 1, 1)
}

pub fn block_at(paint: Paint, x: i32, y: i32) -> (r: Sprite)
    ensures
        r == block(paint, (x as int, y as int)),
{
    Sprite { paint, x: x as i64, y: y as i64, width: 1, height: 1 }
}

} // verus!
