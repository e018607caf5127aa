use vstd::prelude::*;

use crate::food::Food;

verus! {

/// A heading on the grid; `y` grows downwards.
#[derive(Clone, Copy, Debug, PartialEq, Eq, Structural)]
pub enum Direction {
    Up,
    Down,
    Left,
    Right,
}

pub open spec fn opposite_of(d: Direction) -> Direction {
    match d {
        Direction::Up => Direction::Down,
        Direction::Down => Direction::Up,
        Direction::Left => Direction::Right,
        Direction::Right => Direction::Left,
    }
}

/// The cell one step away from `p` in direction `d`.
pub open spec fn step(p: (int, int), d: Direction) -> (int, int) {
    match d {
        Direction::Up => (p.0, p.1 - 1),
        Direction::Down => (p.0, p.1 + 1),
        Direction::Left => (p.0 - 1, p.1),
        Direction::Right => (p.0 + 1, p.1),
    }
}

impl Direction {
    pub fn opposite(&self) -> (r: Direction)
        ensures
            r == opposite_of(*self),
    {
        match self {
            Direction::Up => Direction::Down,
            Direction::Down => Direction::Up,
            Direction::Left => Direction::Right,
            Direction::Right => Direction::Left,
        }
    }
}

/// Turning around twice gives the heading back, and no heading is its own
/// opposite.
pub proof fn lemma_opposite_involution(d: Direction)
    ensures
        opposite_of(opposite_of(d)) == d,
        d != opposite_of(d),
{
}

pub open spec fn fits_i32(v: int) -> bool {
    i32::MIN <= v <= i32::MAX
}

pub open spec fn fits_cell(p: (int, int)) -> bool {
    fits_i32(p.0) && fits_i32(p.1)
}

/// A cell whose four neighbours all have `i32` coordinates.
pub open spec fn inner_cell(p: (int, int)) -> bool {
    i32::MIN < p.0 < i32::MAX && i32::MIN < p.1 < i32::MAX
}

pub open spec fn cell_of(p: (i32, i32)) -> (int, int) {
    (p.0 as int, p.1 as int)
}

/// `p` moved by the offset that takes `from` to `to`.
pub open spec fn shifted(p: (int, int), from: (int, int), to: (int, int)) -> (int, int) {
    (p.0 + (to.0 - from.0), p.1 + (to.1 - from.1))
}

/// The snake as mathematics: its cells from head to tail, its heading, and
/// the tail cell that the last move gave up (kept for one growth).
pub ghost struct SnakeView {
    pub body: Seq<(int, int)>,
    pub dir: Direction,
    pub saved: Option<(int, int)>,
}

impl SnakeView {
    pub open spec fn head(self) -> (int, int) {
        self.body[0]
    }

    pub open spec fn heading(self, dir: Option<Direction>) -> Direction {
        match dir {
            Some(d) => d,
            None => self.dir,
        }
    }

    pub open spec fn next_head(self, dir: Option<Direction>) -> (int, int) {
        step(self.head(), self.heading(dir))
    }

    /// `p` is one of the cells behind the head.
    pub open spec fn overlaps_tail(self, p: (int, int)) -> bool {
        exists|i: int| 1 <= i < self.body.len() && self.body[i] == p
    }

    pub open spec fn moved(self, dir: Option<Direction>) -> SnakeView {
        SnakeView {
            body: seq![self.next_head(dir)] + self.body.drop_last(),
            dir: self.heading(dir),
            saved: Some(self.body.last()),
        }
    }

    pub open spec fn restored(self) -> SnakeView {
        match self.saved {
            Some(t) => SnakeView { body: self.body.push(t), dir: self.dir, saved: None },
            None => self,
        }
    }

    /// Where the head lands when it passes through a portal whose other end
    /// is `target`: the cell beyond `target` in the current heading.
    pub open spec fn portal_exit(self, target: (int, int)) -> (int, int) {
        step(target, self.dir)
    }

    pub open spec fn teleported(self, target: (int, int)) -> SnakeView {
        SnakeView {
            body: self.body.map_values(
                |p: (int, int)| shifted(p, self.head(), self.portal_exit(target)),
            ),
            dir: self.dir,
            saved: self.saved,
        }
    }

    /// Every cell of the teleported body still has `i32` coordinates.
    pub open spec fn can_teleport(self, target: (int, int)) -> bool {
        forall|i: int|
            0 <= i < self.body.len() ==> #[trigger] fits_cell(
                shifted(self.body[i], self.head(), self.portal_exit(target)),
            )
    }
}

/// A move keeps the length; a move followed by a restore of the tail adds
/// exactly one cell.
pub proof fn lemma_move_then_grow(s: SnakeView, dir: Option<Direction>)
    requires
        s.body.len() > 0,
    ensures
        s.moved(dir).body.len() == s.body.len(),
        s.moved(dir).restored().body.len() == s.body.len() + 1,
{
}

/// In a snake without repeated cells the head is never counted as part of
/// the tail.
pub proof fn lemma_head_not_in_tail(s: SnakeView)
    requires
        s.body.len() > 0,
        s.body.no_duplicates(),
    ensures
        !s.overlaps_tail(s.head()),
{
}

/// A move onto a cell outside the tail, and the growth that may follow it,
/// keep the cells of the snake pairwise distinct.
pub proof fn lemma_move_keeps_cells_distinct(s: SnakeView, dir: Option<Direction>)
    requires
        s.body.len() > 0,
        s.body.no_duplicates(),
        !s.overlaps_tail(s.next_head(dir)),
    ensures
        s.moved(dir).body.no_duplicates(),
        s.moved(dir).restored().body.no_duplicates(),
{
    let m = s.moved(dir);
    let n = s.body.len();
    assert(s.next_head(dir) != s.head());
    assert forall|i: int| 0 <= i < m.body.len() implies m.body[i] == if i == 0 {
        s.next_head(dir)
    } else {
        s.body[i - 1]
    } by {}
    assert forall|i: int, j: int|
        0 <= i < m.body.len() && 0 <= j < m.body.len() && i != j implies m.body[i]
        != m.body[j] by {
        if i != 0 && j != 0 {
        } else if i == 0 {
            assert(s.body[j - 1] != s.next_head(dir));
        } else {
            assert(s.body[i - 1] != s.next_head(dir));
        }
    }
    let r = m.restored();
    assert(r.body == m.body.push(s.body[n - 1]));
    assert forall|i: int, j: int|
        0 <= i < r.body.len() && 0 <= j < r.body.len() && i != j implies r.body[i]
        != r.body[j] by {
        if i < m.body.len() && j < m.body.len() {
            assert(r.body[i] == m.body[i] && r.body[j] == m.body[j]);
        } else if i == m.body.len() {
            assert(r.body[i] == s.body[n - 1]);
            assert(r.body[j] == m.body[j]);
            if j == 0 {
                assert(s.body[n - 1] != s.next_head(dir));
            } else {
                assert(m.body[j] == s.body[j - 1]);
            }
        } else {
            assert(r.body[j] == s.body[n - 1]);
            assert(r.body[i] == m.body[i]);
            if i == 0 {
                assert(s.body[n - 1] != s.next_head(dir));
            } else {
                assert(m.body[i] == s.body[i - 1]);
            }
        }
    }
}

/// A pass through a portal moves every cell by the same offset, so the
/// cells stay pairwise distinct.
pub proof fn lemma_portal_keeps_cells_distinct(s: SnakeView, target: (int, int))
    requires
        s.body.len() > 0,
        s.body.no_duplicates(),
    ensures
        s.teleported(target).body.no_duplicates(),
{
    let t = s.teleported(target);
    assert forall|i: int, j: int|
        0 <= i < t.body.len() && 0 <= j < t.body.len() && i != j implies t.body[i]
        != t.body[j] by {
        assert(s.body[i] != s.body[j]);
    }
}

pub struct Snake {
    body: Vec<(i32, i32)>,
    direction: Direction,
    tail: Option<(i32, i32)>,
}

impl View for Snake {
    type V = SnakeView;

    closed spec fn view(&self) -> SnakeView {
        SnakeView {
            body: self.body@.map_values(|p: (i32, i32)| cell_of(p)),
            dir: self.direction,
            saved: match self.tail {
                Some(t) => Some(cell_of(t)),
                None => None,
            },
        }
    }
}

impl Snake {
    pub open spec fn wf(&self) -> bool {
        self@.body.len() > 0
    }

    /// A one-cell snake at `(x, y)`, heading right.
    pub fn new(x: i32, y: i32) -> (r: Snake)
        ensures
            r.wf(),
            r@ == (SnakeView { body: seq![(x as int, y as int)], dir: Direction::Right, saved: None }),
    {
        let r = Snake { body: vec![(x, y)], direction: Direction::Right, tail: None };
        assert(r@.body =~= seq![(x as int, y as int)]);
        r
    }

    pub fn head_position(&self) -> (r: (i32, i32))
        requires
            self.wf(),
        ensures
            cell_of(r) == self@.head(),
    {
        self.body[0]
    }

    pub fn head_direction(&self) -> (r: Direction)
        ensures
            r == self@.dir,
    {
        self.direction
    }

    pub fn len(&self) -> (r: usize)
        ensures
            r == self@.body.len(),
    {
        self.body.len()
    }

    /// The cells from head to tail.
    pub fn segments(&self) -> (r: Vec<(i32, i32)>)
        ensures
            r@.map_values(|p: (i32, i32)| cell_of(p)) == self@.body,
    {
        let mut r: Vec<(i32, i32)> = Vec::new();
        let mut i: usize = 0;
        while i < self.body.len()
            invariant
                i <= self.body.len(),
                r@ == self.body@.subrange(0, i as int),
            decreases self.body.len() - i,
        {
            r.push(self.body[i]);
            i += 1;
            assert(r@ =~= self.body@.subrange(0, i as int));
        }
        assert(r@ =~= self.body@);
        r
    }

    pub fn next_head(&self, dir: Option<Direction>) -> (r: (i32, i32))
        requires
            self.wf(),
            inner_cell(self@.head()),
        ensures
            cell_of(r) == self@.next_head(dir),
    {
        let (x, y) = self.body[0];
        let d = match dir {
            Some(d) => d,
            None => self.direction,
        };
        match d {
            Direction::Up => (x, y - 1),
            Direction::Down => (x, y + 1),
            Direction::Left => (x - 1, y),
            Direction::Right => (x + 1, y),
        }
    }

    pub fn overlap_tail(&self, x: i32, y: i32) -> (r: bool)
        ensures
            r == self@.overlaps_tail((x as int, y as int)),
            self.wf() && self@.body.no_duplicates() && (x as int, y as int) == self@.head() ==> !r,
    {
        let mut i: usize = 1;
        while i < self.body.len()
            invariant
                1 <= i,
                forall|j: int| 1 <= j < i && j < self@.body.len() ==> self@.body[j] != (x as int, y as int),
            decreases self.body.len() - i,
        {
            let (px, py) = self.body[i];
            if px == x && py == y {
                assert(self@.body[i as int] == (x as int, y as int));
                return true;
            }
            i += 1;
        }
        false
    }

    pub fn move_forward(&mut self, dir: Option<Direction>)
        requires
            old(self).wf(),
            inner_cell(old(self)@.head()),
        ensures
            final(self).wf(),
            final(self)@ == old(self)@.moved(dir),
    {
        let nh = self.next_head(dir);
        if let Some(d) = dir {
            self.direction = d;
        }
        let t = self.body.pop().unwrap();
        self.body.insert(0, nh);
        self.tail = Some(t);
        assert(self@.body =~= old(self)@.moved(dir).body);
    }

    /// The cell beyond `target` in the current heading, where a portal drops
    /// the head.
    fn exit_of(&self, target: &Food) -> (r: (i32, i32))
        requires
            inner_cell(target.pos()),
        ensures
            cell_of(r) == self@.portal_exit(target.pos()),
    {
        match self.direction {
            Direction::Up => (target.x, target.y - 1),
            Direction::Down => (target.x, target.y + 1),
            Direction::Left => (target.x - 1, target.y),
            Direction::Right => (target.x + 1, target.y),
        }
    }

    /// Whether a pass through the portal whose other end is `target` keeps
    /// every cell within `i32`.
    pub fn can_pass_portal(&self, target: &Food) -> (r: bool)
        requires
            self.wf(),
            inner_cell(target.pos()),
        ensures
            r == self@.can_teleport(target.pos()),
    {
        let (hx, hy) = self.body[0];
        let (ex, ey) = self.exit_of(target);
        let ox: i64 = ex as i64 - hx as i64;
        let oy: i64 = ey as i64 - hy as i64;
        let mut i: usize = 0;
        while i < self.body.len()
            invariant
                i <= self.body.len(),
                cell_of((hx, hy)) == self@.head(),
                cell_of((ex, ey)) == self@.portal_exit(target.pos()),
                ox == ex - hx,
                oy == ey - hy,
                forall|j: int|
                    0 <= j < i ==> #[trigger] fits_cell(
                        shifted(self@.body[j], self@.head(), self@.portal_exit(target.pos())),
                    ),
            decreases self.body.len() - i,
        {
            let (px, py) = self.body[i];
            let nx: i64 = px as i64 + ox;
            let ny: i64 = py as i64 + oy;
            if nx < i32::MIN as i64 || nx > i32::MAX as i64 || ny < i32::MIN as i64 || ny
                > i32::MAX as i64 {
                assert(!fits_cell(
                    shifted(self@.body[i as int], self@.head(), self@.portal_exit(target.pos())),
                ));
                return false;
            }
            assert(fits_cell(
                shifted(self@.body[i as int], self@.head(), self@.portal_exit(target.pos())),
            ));
            i += 1;
        }
        true
    }

    /// Moves the head to the cell beyond `target` in the current heading and
    /// the rest of the body by the same offset.
    pub fn move_through_portal(&mut self, target: &Food)
        requires
            old(self).wf(),
            inner_cell(target.pos()),
            old(self)@.can_teleport(target.pos()),
        ensures
            final(self).wf(),
            final(self)@ == old(self)@.teleported(target.pos()),
    {
        let ghost v = self@;
        let (hx, hy) = self.body[0];
        let (ex, ey) = self.exit_of(target);
        let ox: i64 = ex as i64 - hx as i64;
        let oy: i64 = ey as i64 - hy as i64;
        let mut moved: Vec<(i32, i32)> = Vec::new();
        let mut i: usize = 0;
        while i < self.body.len()
            invariant
                self@ == v,
                i <= self.body.len(),
                v.can_teleport(target.pos()),
                cell_of((hx, hy)) == v.head(),
                cell_of((ex, ey)) == v.portal_exit(target.pos()),
                ox == ex - hx,
                oy == ey - hy,
                moved@.len() == i,
                forall|j: int|
                    0 <= j < i ==> cell_of(#[trigger] moved@[j]) == shifted(
                        v.body[j],
                        v.head(),
                        v.portal_exit(target.pos()),
                    ),
            decreases self.body.len() - i,
        {
            let (px, py) = self.body[i];
            assert(fits_cell(shifted(v.body[i as int], v.head(), v.portal_exit(target.pos()))));
            let nx: i64 = px as i64 + ox;
            let ny: i64 = py as i64 + oy;
            moved.push((nx as i32, ny as i32));
            i += 1;
        }
        self.body = moved;
        assert(self@.body =~= v.teleported(target.pos()).body);
    }

    pub fn restore_tail(&mut self)
        ensures
            final(self)@ == old(self)@.restored(),
            old(self).wf() ==> final(self).wf(),
    {
        if let Some(t) = self.tail {
            self.body.push(t);
            self.tail = None;
            assert(self@.body =~= old(self)@.restored().body);
        }
    }
}

} // verus!
