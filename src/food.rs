use vstd::prelude::*;

use crate::draw::{block, block_at, Paint, Sprite};

verus! {

/// What a marker on the board stands for.
#[derive(Clone, Copy, Debug, PartialEq, Eq, Structural)]
pub enum FoodType {
    NORMAL,
    PORTAL,
    POISON,
}

pub open spec fn paint_of(t: FoodType) -> Paint {
    match t {
        FoodType::NORMAL => Paint::Food,
        FoodType::PORTAL => Paint::Portal,
        FoodType::POISON => Paint::Poison,
    }
}

/// A point of interest on the grid: food, a portal end or poison.
#[derive(Clone, Copy, Debug, PartialEq, Eq, Structural)]
pub struct Food {
    pub x: i32,
    pub y: i32,
    pub food_type: FoodType,
}

impl Food {
    /// The marker's cell as a point of the unbounded grid.
    pub open spec fn pos(self) -> (int, int) {
        (self.x as int, self.y as int)
    }

    pub fn new(x: i32, y: i32, food_type: FoodType) -> (r: Food)
        ensures
            r == (Food { x, y, food_type }),
    {
        Food { x, y, food_type }
    }

    /// The block that shows this marker.
    pub fn draw(&self) -> (r: Sprite)
        ensures
            r == block(paint_of(self.food_type), self.pos()),
    {
        let paint = match self.food_type {
            FoodType::NORMAL => Paint::Food,
            FoodType::PORTAL => Paint::Portal,
            FoodType::POISON => Paint::Poison,
        };
        block_at(paint, self.x, self.y)
    }
}

} // verus!
