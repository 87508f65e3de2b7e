//! The snake state engine: body, heading, pending tail, and the wrap rule.

use vstd::prelude::*;

verus! {

/// A heading the snake can move in.
#[derive(Copy, Clone, PartialEq, Eq, Structural, Debug)]
pub enum Direction {
    Up,
    Down,
    Left,
    Right,
}

impl Direction {
    /// The heading that points the opposite way.
    pub open spec fn opposite_spec(self) -> Direction {
        match self {
            Direction::Up => Direction::Down,
            Direction::Down => Direction::Up,
            Direction::Left => Direction::Right,
            Direction::Right => Direction::Left,
        }
    }

    pub fn opposite(&self) -> (r: Direction)
        ensures
            r == self.opposite_spec(),
    {
        match *self {
            Direction::Up => Direction::Down,
            Direction::Down => Direction::Up,
            Direction::Left => Direction::Right,
            Direction::Right => Direction::Left,
        }
    }
}

/// Taking the opposite heading twice returns the original heading.
pub proof fn lemma_opposite_involution(d: Direction)
    ensures
        d.opposite_spec().opposite_spec() == d,
{
}

/// One coordinate step toward the low edge, wrapping at the border:
/// a coordinate at or below 0 wraps to `dimension - 2`.
pub open spec fn step_low(coord: int, dimension: int) -> int {
    if coord <= 0 {
        dimension - 2
    } else {
        coord - 1
    }
}

/// One coordinate step toward the high edge, wrapping at the border:
/// a coordinate at or above `dimension - 2` wraps to 1.
pub open spec fn step_high(coord: int, dimension: int) -> int {
    if coord >= dimension - 2 {
        1
    } else {
        coord + 1
    }
}

/// The cell one step from `cell` in heading `dir` on a `width` x `height`
/// board, with wraparound at the edges.
pub open spec fn step_cell(cell: (int, int), dir: Direction, width: int, height: int) -> (int,
    int) {
    match dir {
        Direction::Up => (cell.0, step_low(cell.1, height)),
        Direction::Down => (cell.0, step_high(cell.1, height)),
        Direction::Left => (step_low(cell.0, width), cell.1),
        Direction::Right => (step_high(cell.0, width), cell.1),
    }
}

/// The heading a move resolves to: the candidate if one is given, else the
/// current heading.
pub open spec fn resolve_heading(current: Direction, candidate: Option<Direction>) -> Direction {
    match candidate {
        Some(d) => d,
        None => current,
    }
}

/// Mathematical model of the engine's state: the body as a sequence of
/// cells (head first, tail last), the current heading, and the cell most
/// recently removed from the back of the body, if any.
pub ghost struct SnakeView {
    pub body: Seq<(int, int)>,
    pub direction: Direction,
    pub tail: Option<(int, int)>,
}

impl SnakeView {
    /// The engine's invariant: the body never has fewer than two cells.
    pub open spec fn wf(self) -> bool {
        self.body.len() >= 2
    }

    /// The cell the head would occupy after a move under `candidate`.
    pub open spec fn next_head(self, candidate: Option<Direction>, width: int, height: int) -> (
        int,
        int,
    ) {
        step_cell(self.body[0], resolve_heading(self.direction, candidate), width, height)
    }

    /// The state after one advance: the new head is prepended, the back
    /// cell is removed and becomes the pending tail, and the heading is
    /// the resolved one.
    pub open spec fn advanced(self, candidate: Option<Direction>, width: int, height: int)
        -> SnakeView {
        SnakeView {
            body: seq![self.next_head(candidate, width, height)] + self.body.drop_last(),
            direction: resolve_heading(self.direction, candidate),
            tail: Some(self.body.last()),
        }
    }

    /// The state after a growth request: the pending tail cell is appended
    /// to the back of the body.
    pub open spec fn grown(self) -> SnakeView {
        SnakeView { body: self.body.push(self.tail.unwrap()), ..self }
    }

    /// Whether `(x, y)` matches a body cell other than the true tail.
    pub open spec fn overlaps_head_side(self, x: int, y: int) -> bool {
        exists|i: int| 0 <= i < self.body.len() - 1 && self.body[i] == (x, y)
    }
}

/// The state after a whole sequence of advances, one per entry of
/// `steps`, each entry giving the candidate heading and the board
/// dimensions of that advance.
pub open spec fn advanced_many(s: SnakeView, steps: Seq<(Option<Direction>, int, int)>)
    -> SnakeView
    decreases steps.len(),
{
    if steps.len() == 0 {
        s
    } else {
        advanced_many(s.advanced(steps[0].0, steps[0].1, steps[0].2), steps.drop_first())
    }
}

/// Body length invariance: any sequence of advances, with no growth in
/// between, leaves the body length exactly as it was.
pub proof fn lemma_length_invariant(s: SnakeView, steps: Seq<(Option<Direction>, int, int)>)
    requires
        s.wf(),
    ensures
        advanced_many(s, steps).body.len() == s.body.len(),
        advanced_many(s, steps).wf(),
    decreases steps.len(),
{
    if steps.len() > 0 {
        lemma_length_invariant(s.advanced(steps[0].0, steps[0].1, steps[0].2), steps.drop_first());
    }
}

/// Growth law: a growth request right after an advance lengthens the body
/// by exactly one, and the appended cell is the cell that advance removed
/// from the back.
pub proof fn lemma_growth(s: SnakeView, candidate: Option<Direction>, width: int, height: int)
    requires
        s.wf(),
    ensures
        s.advanced(candidate, width, height).grown().body.len() == s.advanced(
            candidate,
            width,
            height,
        ).body.len() + 1,
        s.advanced(candidate, width, height).grown().body.last() == s.body.last(),
{
}

/// Wrap correctness: a head on the low edge moving toward it reappears at
/// `dimension - 2`, and a head at `dimension - 2` moving toward the high
/// edge reappears at 1, on both axes.
pub proof fn lemma_wrap_correctness(x: int, y: int, width: int, height: int)
    requires
        3 <= width,
        3 <= height,
    ensures
        step_cell((0, y), Direction::Left, width, height) == (width - 2, y),
        step_cell((width - 2, y), Direction::Right, width, height) == (1int, y),
        step_cell((x, 0), Direction::Up, width, height) == (x, height - 2),
        step_cell((x, height - 2), Direction::Down, width, height) == (x, 1int),
{
}

/// Head consistency: after an advance, the head is exactly the cell that
/// `next_head` computed for the same candidate and board just before it.
pub proof fn lemma_head_consistency(s: SnakeView, candidate: Option<Direction>, width: int,
    height: int)
    requires
        s.wf(),
    ensures
        s.advanced(candidate, width, height).body[0] == s.next_head(candidate, width, height),
{
}

/// Tail exclusion: when the true tail cell appears nowhere else in the
/// body, `overlaps_head_side` does not match its coordinates, while it
/// does match the coordinates of every other body cell.
pub proof fn lemma_tail_exclusion(s: SnakeView)
    requires
        s.wf(),
        forall|i: int| 0 <= i < s.body.len() - 1 ==> s.body[i] != s.body.last(),
    ensures
        !s.overlaps_head_side(s.body.last().0, s.body.last().1),
        forall|i: int|
            0 <= i < s.body.len() - 1 ==> s.overlaps_head_side(s.body[i].0, s.body[i].1),
{
    assert forall|i: int| 0 <= i < s.body.len() - 1 implies s.overlaps_head_side(
        s.body[i].0,
        s.body[i].1,
    ) by {
        assert(s.body[i] == (s.body[i].0, s.body[i].1));
    }
}

/// The snake state engine.  Constructed once with a starting position;
/// mutated only by `move_forward` and `restore_tail`.
pub struct Snake {
    direction: Direction,
    body: Vec<(i32, i32)>,
    tail: Option<(i32, i32)>,
}

impl View for Snake {
    type V = SnakeView;

    closed spec fn view(&self) -> SnakeView {
        SnakeView {
            body: self.body@.map(|i: int, c: (i32, i32)| (c.0 as int, c.1 as int)),
            direction: self.direction,
            tail: match self.tail {
                Some(c) => Some((c.0 as int, c.1 as int)),
                None => None,
            },
        }
    }
}

impl Snake {
    /// A new engine at starting position `(x, y)`: two body cells on the
    /// starting row, head at `(x + 2, y)`, heading Right, no pending tail.
    pub fn new(x: i32, y: i32) -> (s: Snake)
        requires
            0 <= x,
            0 <= y,
            x + 2 <= i32::MAX,
        ensures
            s@.body == seq![((x + 2) as int, y as int), ((x + 1) as int, y as int)],
            s@.direction == Direction::Right,
            s@.tail is None,
            s@.wf(),
    {
        let mut body: Vec<(i32, i32)> = Vec::new();
        body.push((x + 2, y));
        body.push((x + 1, y));
        let s = Snake { direction: Direction::Right, body, tail: None };
        proof {
            assert(s@.body =~= seq![((x + 2) as int, y as int), ((x + 1) as int, y as int)]);
        }
        s
    }

    /// The front cell of the body.
    pub fn head_position(&self) -> (r: (i32, i32))
        requires
            self@.wf(),
        ensures
            (r.0 as int, r.1 as int) == self@.body[0],
    {
        let head = self.body[0];
        (head.0, head.1)
    }

    /// The current heading.
    pub fn head_direction(&self) -> (r: Direction)
        ensures
            r == self@.direction,
    {
        self.direction
    }

    /// The cell the head would occupy after advancing under `dir` (or the
    /// current heading if `dir` is None), without changing any state.
    pub fn next_head(&self, dir: Option<Direction>, width: i32, height: i32) -> (r: (i32, i32))
        requires
            self@.wf(),
            3 <= width,
            3 <= height,
        ensures
            (r.0 as int, r.1 as int) == self@.next_head(dir, width as int, height as int),
    {
        let (head_x, head_y) = self.head_position();
        let mut moving_dir = self.direction;
        match dir {
            Some(d) => moving_dir = d,
            None => {},
        }
        match moving_dir {
            Direction::Up => (head_x, if head_y <= 0 { height - 2 } else { head_y - 1 }),
            Direction::Down => (head_x, if head_y >= height - 2 { 1 } else { head_y + 1 }),
            Direction::Left => (if head_x <= 0 { width - 2 } else { head_x - 1 }, head_y),
            Direction::Right => (if head_x >= width - 2 { 1 } else { head_x + 1 }, head_y),
        }
    }

    /// Advance the body one cell.  If `dir` is given it replaces the
    /// current heading.  The new head cell (computed as in `next_head`) is
    /// prepended, the back cell is removed and stored as the pending tail,
    /// and the body length is unchanged.
    pub fn move_forward(&mut self, dir: Option<Direction>, width: i32, height: i32)
        requires
            old(self)@.wf(),
            3 <= width,
            3 <= height,
        ensures
            final(self)@ == old(self)@.advanced(dir, width as int, height as int),
            final(self)@.wf(),
    {
        let (new_x, new_y) = self.next_head(dir, width, height);
        match dir {
            Some(d) => self.direction = d,
            None => {},
        }
        self.body.insert(0, (new_x, new_y));
        let removed = self.body.pop().unwrap();
        self.tail = Some(removed);
        proof {
            assert(self@.body =~= old(self)@.advanced(dir, width as int, height as int).body);
        }
    }

    /// Re-append the pending tail cell to the back of the body, growing it
    /// by one.  There must have been a prior advance, so that a pending
    /// tail exists.
    pub fn restore_tail(&mut self)
        requires
            old(self)@.wf(),
            old(self)@.tail is Some,
        ensures
            final(self)@ == old(self)@.grown(),
            final(self)@.body.len() == old(self)@.body.len() + 1,
    {
        let blk = self.tail.unwrap();
        self.body.push(blk);
        proof {
            assert(self@.body =~= old(self)@.grown().body);
        }
    }

    /// Whether `(x, y)` matches any body cell except the true tail (the
    /// last cell in head-to-tail order).  The tail cell is about to vacate
    /// on the next tick, so it does not count as a collision.
    pub fn overlap_tail(&self, x: i32, y: i32) -> (r: bool)
        requires
            self@.wf(),
        ensures
            r == self@.overlaps_head_side(x as int, y as int),
    {
        let n = self.body.len();
        let mut i: usize = 0;
        while i < n - 1
            invariant
                self@.wf(),
                n == self.body.len(),
                i <= n - 1,
                forall|j: int| 0 <= j < i ==> self@.body[j] != (x as int, y as int),
            decreases n - 1 - i,
        {
            let block = self.body[i];
            if x == block.0 && y == block.1 {
                proof {
                    assert(self@.body[i as int] == (x as int, y as int));
                }
                return true;
            }
            i += 1;
        }
        false
    }

    /// The body cells in head-to-tail order, for a renderer to draw.
    pub fn body_cells(&self) -> (v: Vec<(i32, i32)>)
        ensures
            v@.map(|i: int, c: (i32, i32)| (c.0 as int, c.1 as int)) == self@.body,
    {
        let mut v: Vec<(i32, i32)> = Vec::new();
        let mut i: usize = 0;
        while i < self.body.len()
            invariant
                i <= self.body.len(),
                v@ == self.body@.subrange(0, i as int),
            decreases self.body.len() - i,
        {
            v.push(self.body[i]);
            i += 1;
        }
        proof {
            assert(v@ =~= self.body@);
            assert(v@.map(|i: int, c: (i32, i32)| (c.0 as int, c.1 as int)) =~= self@.body);
        }
        v
    }
}

} // verus!
