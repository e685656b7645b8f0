//! The snake: an ordered body of grid coordinates and a current heading.

use vstd::prelude::*;

use crate::cell::Direction;

verus! {

/// A grid coordinate as `(row, column)`.
///
/// A coordinate is not validated on its own: it must be checked against the
/// grid dimensions before it is used as an index.
pub type Coord = (u32, u32);

/// The coordinate one step from `from` in direction `dir`.
///
/// Defined only when the step neither underflows at 0 (moving Up or Left)
/// nor overflows `u32` (moving Down or Right).
pub open spec fn step_spec(from: Coord, dir: Direction) -> Coord {
    match dir {
        Direction::Right => (from.0, (from.1 + 1) as u32),
        Direction::Left => (from.0, (from.1 - 1) as u32),
        Direction::Down => ((from.0 + 1) as u32, from.1),
        Direction::Up => ((from.0 - 1) as u32, from.1),
    }
}

/// Whether stepping from `from` in direction `dir` stays representable:
/// moving Up or Left must not cross below 0, moving Down or Right must not
/// cross `u32::MAX`.
pub open spec fn step_fits(from: Coord, dir: Direction) -> bool {
    match dir {
        Direction::Right => from.1 < u32::MAX,
        Direction::Left => from.1 > 0,
        Direction::Down => from.0 < u32::MAX,
        Direction::Up => from.0 > 0,
    }
}

/// The snake: body coordinates ordered from tail (front) to head (back),
/// plus the heading the head will move next.
pub struct Snake {
    /// Body coordinates in insertion order: the front is the oldest (the
    /// tail), the back is the most recently pushed (the head).
    pub body: Vec<Coord>,
    /// The current heading.
    pub dir: Direction,
}

impl Snake {
    /// A snake is well formed when its body holds at least one coordinate,
    /// so that head and tail queries are meaningful.
    pub open spec fn wf(self) -> bool {
        self.body@.len() >= 1
    }

    /// The head: the most recently pushed (back) coordinate.
    pub open spec fn head_spec(self) -> Coord {
        self.body@.last()
    }

    /// The tail: the oldest (front) coordinate.
    pub open spec fn tail_spec(self) -> Coord {
        self.body@.first()
    }

    /// Build a snake whose body is `[tail, head]` (tail first), heading
    /// Right. The caller guarantees the two coordinates are grid-valid and
    /// adjacent per the initial Right-heading convention.
    pub fn new(head: Coord, tail: Coord) -> (s: Snake)
        ensures
            s.body@ == seq![tail, head],
            s.dir == Direction::Right,
            s.wf(),
    {
        let mut buf: Vec<Coord> = Vec::new();
        buf.push(tail);
        buf.push(head);
        assert(buf@ =~= seq![tail, head]);
        Snake { body: buf, dir: Direction::Right }
    }

    /// Return the head coordinate.
    pub fn head(&self) -> (r: Coord)
        requires
            self.wf(),
        ensures
            r == self.head_spec(),
    {
        self.body[self.body.len() - 1]
    }

    /// Return the tail coordinate.
    pub fn tail(&self) -> (r: Coord)
        requires
            self.wf(),
        ensures
            r == self.tail_spec(),
    {
        self.body[0]
    }

    /// Compute a new coordinate one unit from the current head in the
    /// current heading and append it to the body. The body grows by one;
    /// the caller retracts the tail separately when no growth is intended.
    pub fn advance_head(&mut self)
        requires
            old(self).wf(),
            step_fits(old(self).head_spec(), old(self).dir),
        ensures
            final(self).body@ == old(self).body@.push(
                step_spec(old(self).head_spec(), old(self).dir),
            ),
            final(self).dir == old(self).dir,
            final(self).wf(),
            final(self).head_spec() == step_spec(old(self).head_spec(), old(self).dir),
    {
        let dir = self.dir;
        let head = self.head();
        let new_head = match dir {
            Direction::Right => (head.0, head.1 + 1),
            Direction::Left => (head.0, head.1 - 1),
            Direction::Down => (head.0 + 1, head.1),
            Direction::Up => (head.0 - 1, head.1),
        };
        self.body.push(new_head);
    }

    /// Remove the oldest (front) coordinate. Called only while the body
    /// holds at least two coordinates, so the snake never becomes empty.
    pub fn advance_tail(&mut self)
        requires
            old(self).body@.len() >= 2,
        ensures
            final(self).body@ == old(self).body@.subrange(1, old(self).body@.len() as int),
            final(self).dir == old(self).dir,
            final(self).wf(),
    {
        self.body.remove(0);
        proof {
            assert(self.body@ =~= old(self).body@.subrange(1, old(self).body@.len() as int));
        }
    }
}

} // verus!
