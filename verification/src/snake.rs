//! The snake: an ordered body of grid cells, head first, and the rule by
//! which it moves and grows.

use crate::coord::{adjacent, lemma_step_lands_next_door, Coord, Direction};
use std::collections::VecDeque;
use vstd::prelude::*;

verus! {

/// Why a move was fatal.
#[derive(Clone, Copy, Debug, PartialEq, Eq, Structural)]
pub enum Death {
    /// The move would have taken the head off the grid.
    BoundaryViolation,
    /// The move would have put the head on a cell of the snake's own body.
    SelfCollision,
}

/// Whether each cell of a body is a grid neighbour of the next.
pub open spec fn contiguous(body: Seq<Coord>) -> bool {
    forall|i: int| 0 <= i < body.len() - 1 ==> adjacent(#[trigger] body[i], body[i + 1])
}

/// The direction from the head towards the second segment: "backward".
pub open spec fn neckward(body: Seq<Coord>) -> Direction
    recommends
        body.len() >= 2,
{
    body[0].spec_direction_to(&body[1])
}

/// The direction a snake really takes when asked for `requested`: a request
/// to reverse straight into the neck is turned into its opposite, so the
/// snake keeps going forward; any other request is honoured.
pub open spec fn resolve(body: Seq<Coord>, requested: Direction) -> Direction
    recommends
        body.len() >= 2,
{
    if requested == neckward(body) {
        requested.spec_opposite()
    } else {
        requested
    }
}

/// The cell the head would move to, or `None` where the step would leave
/// the range of coordinates.
pub open spec fn next_head(body: Seq<Coord>, requested: Direction) -> Option<Coord>
    recommends
        body.len() >= 2,
{
    body[0].spec_step(resolve(body, requested))
}

/// One move of a snake, as a function of its body, the food and the
/// requested direction.
///
/// The move is fatal when the head would leave the range of coordinates, or
/// when the new head cell is any cell of the body as it was before the move,
/// tail included. Otherwise the new head is put in front; the tail is
/// dropped unless the new head lies on the food. The flag says whether the
/// snake ate.
pub open spec fn advance(body: Seq<Coord>, food: Coord, requested: Direction) -> Result<
    (Seq<Coord>, bool),
    Death,
>
    recommends
        body.len() >= 2,
{
    match next_head(body, requested) {
        None => Err(Death::BoundaryViolation),
        Some(head) => if body.contains(head) {
            Err(Death::SelfCollision)
        } else if head == food {
            Ok((seq![head] + body, true))
        } else {
            Ok((seq![head] + body.drop_last(), false))
        },
    }
}

/// A snake on the grid. Its view is the sequence of its cells, head first,
/// each following cell one closer to the tail.
#[derive(Clone, Debug)]
pub struct Snake(VecDeque<Coord>);

impl View for Snake {
    type V = Seq<Coord>;

    closed spec fn view(&self) -> Seq<Coord> {
        self.0@
    }
}

impl Snake {
    /// A snake has a head and a neck at least.
    pub open spec fn wf(&self) -> bool {
        self@.len() >= 2
    }

    /// A snake of three cells in one column: the head on the start cell, the
    /// other two in the rows below it.
    pub fn new(start_row: usize, start_col: usize) -> (snake: Snake)
        requires
            start_row + 2 <= usize::MAX,
        ensures
            snake.wf(),
            snake@ == seq![
                Coord(start_row, start_col),
                Coord((start_row + 1) as usize, start_col),
                Coord((start_row + 2) as usize, start_col),
            ],
            contiguous(snake@),
            snake@.no_duplicates(),
    {
        let mut cells: VecDeque<Coord> = VecDeque::new();
        cells.push_back(Coord(start_row, start_col));
        cells.push_back(Coord(start_row + 1, start_col));
        cells.push_back(Coord(start_row + 2, start_col));
        Snake(cells)
    }

    /// A snake with the given cells, head first; `None` if there are fewer
    /// than two.
    pub fn from_segments(segments: Vec<Coord>) -> (made: Option<Snake>)
        ensures
            match made {
                Some(snake) => snake.wf() && snake@ == segments@,
                None => segments@.len() < 2,
            },
    {
        let n: usize = segments.len();
        if n < 2 {
            return None;
        }
        let mut cells: VecDeque<Coord> = VecDeque::new();
        let mut i: usize = 0;
        while i < n
            invariant
                n == segments@.len(),
                i <= n,
                cells@ == segments@.subrange(0, i as int),
            decreases n - i,
        {
            cells.push_back(segments[i]);
            assert(segments@.subrange(0, i + 1) =~= segments@.subrange(0, i as int).push(
                segments@[i as int],
            ));
            i += 1;
        }
        assert(segments@.subrange(0, n as int) =~= segments@);
        Some(Snake(cells))
    }

    /// The snake's cells, head first.
    pub fn segments(&self) -> (cells: Vec<Coord>)
        ensures
            cells@ == self@,
    {
        let n: usize = self.0.len();
        let mut cells: Vec<Coord> = Vec::new();
        let mut i: usize = 0;
        while i < n
            invariant
                n == self.0@.len(),
                i <= n,
                cells@ == self.0@.subrange(0, i as int),
            decreases n - i,
        {
            cells.push(self.0[i]);
            assert(self.0@.subrange(0, i + 1) =~= self.0@.subrange(0, i as int).push(
                self.0@[i as int],
            ));
            i += 1;
        }
        assert(self.0@.subrange(0, n as int) =~= self.0@);
        cells
    }

    /// How many cells the snake covers.
    pub fn len(&self) -> (n: usize)
        ensures
            n == self@.len(),
    {
        self.0.len()
    }

    /// The cell of the head.
    pub fn head(&self) -> (cell: Coord)
        requires
            self.wf(),
        ensures
            cell == self@[0],
    {
        self.0[0]
    }

    /// The cell of segment `i`, counted from the head at 0, or `None` past
    /// the tail.
    pub fn segment(&self, i: usize) -> (cell: Option<Coord>)
        ensures
            cell == if i < self@.len() {
                Some(self@[i as int])
            } else {
                None
            },
    {
        if i < self.0.len() {
            Some(self.0[i])
        } else {
            None
        }
    }

    /// The cell the head would move to if asked for `direction`, after the
    /// correction of a reversal, or `None` where that cell does not exist.
    pub fn next_head(&self, direction: Direction) -> (cell: Option<Coord>)
        requires
            self.wf(),
        ensures
            cell == next_head(self@, direction),
    {
        let head = self.0[0];
        let neck = self.0[1];
        let to_neck = head.direction_to(&neck);
        let heading = if to_neck == direction {
            to_neck.opposite()
        } else {
            direction
        };
        head.step(heading)
    }

    /// Whether `cell` is one of the snake's cells.
    pub fn occupies(&self, cell: Coord) -> (found: bool)
        ensures
            found == self@.contains(cell),
    {
        let n: usize = self.0.len();
        let mut i: usize = 0;
        while i < n
            invariant
                n == self.0@.len(),
                i <= n,
                forall|j: int| 0 <= j < i ==> self.0@[j] != cell,
            decreases n - i,
        {
            if self.0[i] == cell {
                return true;
            }
            i += 1;
        }
        false
    }

    /// Moves the snake one cell. On `Ok` the snake has moved, and the flag
    /// says whether it ate the food and grew; on `Err` the move was fatal and
    /// the snake is left as it was.
    pub fn slither(&mut self, food: Coord, direction: Direction) -> (moved: Result<bool, Death>)
        requires
            old(self).wf(),
        ensures
            final(self).wf(),
            match moved {
                Ok(ate) => advance(old(self)@, food, direction) == Ok::<(Seq<Coord>, bool), Death>(
                    (final(self)@, ate),
                ),
                Err(death) => {
                    &&& advance(old(self)@, food, direction) == Err::<(Seq<Coord>, bool), Death>(
                        death,
                    )
                    &&& final(self)@ == old(self)@
                },
            },
            moved == Ok::<bool, Death>(true) ==> {
                &&& final(self)@.len() == old(self)@.len() + 1
                &&& final(self)@.skip(1) == old(self)@
            },
            moved == Ok::<bool, Death>(false) ==> {
                &&& final(self)@.len() == old(self)@.len()
                &&& final(self)@.skip(1) == old(self)@.drop_last()
            },
            moved == Err::<bool, Death>(Death::SelfCollision) <==> (next_head(
                old(self)@,
                direction,
            ) matches Some(head) && old(self)@.contains(head)),
    {
        let ghost before = self.0@;
        match self.next_head(direction) {
            None => Err(Death::BoundaryViolation),
            Some(new_head) => {
                if self.occupies(new_head) {
                    Err(Death::SelfCollision)
                } else {
                    self.0.push_front(new_head);
                    if new_head == food {
                        assert(self.0@.skip(1) =~= before);
                        Ok(true)
                    } else {
                        self.0.pop_back();
                        assert(self.0@ =~= seq![new_head] + before.drop_last());
                        assert(self.0@.skip(1) =~= before.drop_last());
                        Ok(false)
                    }
                }
            },
        }
    }
}

/// A request to reverse into the neck moves the snake exactly as a request
/// for the opposite direction does.
pub proof fn lemma_reversal_is_corrected(body: Seq<Coord>, food: Coord, direction: Direction)
    requires
        body.len() >= 2,
        direction == neckward(body),
    ensures
        advance(body, food, direction) == advance(body, food, direction.spec_opposite()),
{
}

/// A move that eats makes the snake one cell longer and keeps the whole old
/// body, in order, behind the new head. A move that does not eat keeps the
/// length: the old body without its tail follows the new head.
pub proof fn lemma_growth(body: Seq<Coord>, food: Coord, direction: Direction)
    requires
        body.len() >= 2,
        advance(body, food, direction) is Ok,
    ensures
        ({
            let (moved, ate) = advance(body, food, direction).unwrap();
            &&& Some(moved[0]) == next_head(body, direction)
            &&& ate == (moved[0] == food)
            &&& ate ==> moved.len() == body.len() + 1 && moved.skip(1) == body
            &&& !ate ==> moved.len() == body.len() && moved.skip(1) == body.drop_last()
        }),
{
    let (moved, ate) = advance(body, food, direction).unwrap();
    if ate {
        assert(moved.skip(1) =~= body);
    } else {
        assert(moved.skip(1) =~= body.drop_last());
    }
}

/// A move is fatal by self-collision exactly when the new head cell exists
/// and is a cell of the body as it was before the move.
pub proof fn lemma_self_collision(body: Seq<Coord>, food: Coord, direction: Direction)
    requires
        body.len() >= 2,
    ensures
        advance(body, food, direction) == Err::<(Seq<Coord>, bool), Death>(Death::SelfCollision)
            <==> (next_head(body, direction) matches Some(head) && body.contains(head)),
        advance(body, food, direction) == Err::<(Seq<Coord>, bool), Death>(
            Death::BoundaryViolation,
        ) <==> next_head(body, direction) is None,
{
}

/// A body whose cells are neighbour to neighbour stays so through a move.
pub proof fn lemma_advance_keeps_contiguous(body: Seq<Coord>, food: Coord, direction: Direction)
    requires
        body.len() >= 2,
        contiguous(body),
        advance(body, food, direction) is Ok,
    ensures
        contiguous(advance(body, food, direction).unwrap().0),
{
    let moved = advance(body, food, direction).unwrap().0;
    lemma_step_lands_next_door(body[0], resolve(body, direction));
    assert forall|i: int| 0 <= i < moved.len() - 1 implies adjacent(
        #[trigger] moved[i],
        moved[i + 1],
    ) by {
        if i > 0 {
            assert(moved[i] == body[i - 1]);
            assert(moved[i + 1] == body[i]);
        }
    }
}

/// A body that covers no cell twice stays so through a move.
pub proof fn lemma_advance_keeps_distinct(body: Seq<Coord>, food: Coord, direction: Direction)
    requires
        body.len() >= 2,
        body.no_duplicates(),
        advance(body, food, direction) is Ok,
    ensures
        advance(body, food, direction).unwrap().0.no_duplicates(),
{
    let moved = advance(body, food, direction).unwrap().0;
    assert forall|i: int, j: int|
        0 <= i < moved.len() && 0 <= j < moved.len() && i != j implies moved[i] != moved[j] by {
        if i > 0 && j > 0 {
            assert(moved[i] == body[i - 1]);
            assert(moved[j] == body[j - 1]);
        } else if i == 0 {
            assert(moved[j] == body[j - 1]);
            assert(body.contains(body[j - 1]));
        } else {
            assert(moved[i] == body[i - 1]);
            assert(body.contains(body[i - 1]));
        }
    }
}

} // verus!
