//! The game: a board, the snake on it, the food, the tick period, and one
//! step of play per tick.

use crate::board::{blank, is_square_grid, on_board, picture, Board, Square};
use crate::chance::uniform_below;
use crate::coord::{Coord, Direction};
use crate::snake::{
    advance, contiguous, lemma_advance_keeps_contiguous, lemma_advance_keeps_distinct, Death, Snake,
};
use vstd::prelude::*;

verus! {

/// The tick period a new game starts with.
pub const INITIAL_SPEED: u32 = 300;

/// By how much the tick period shrinks for each food eaten.
pub const SPEED_STEP: u32 = 20;

/// The shortest tick period the game ever asks for.
pub const MIN_SPEED: u32 = 40;

/// How one step of the game ended.
#[derive(Clone, Copy, Debug, PartialEq, Eq, Structural)]
pub enum StepOutcome {
    /// The snake moved one cell.
    Moved,
    /// The snake moved onto the food and grew: new food was placed and the
    /// tick period was shortened. This is the signal to speed up.
    Ate,
    /// The game is over, and why. Once over, a game stays over.
    GameOver(Death),
}

/// The tick period after one more food: `SPEED_STEP` less, but never under
/// `MIN_SPEED`.
pub open spec fn spec_next_speed(speed: u32) -> u32 {
    if speed - SPEED_STEP > MIN_SPEED {
        (speed - SPEED_STEP) as u32
    } else {
        MIN_SPEED
    }
}

/// Shortens the tick period by `SPEED_STEP`, with `MIN_SPEED` as the floor.
#[verifier::when_used_as_spec(spec_next_speed)]
pub fn next_speed(speed: u32) -> (faster: u32)
    ensures
        faster == spec_next_speed(speed),
{
    if speed > MIN_SPEED + SPEED_STEP {
        speed - SPEED_STEP
    } else {
        MIN_SPEED
    }
}

/// The state of a game as plain values.
pub struct GameState {
    /// What the board shows, as rows of cells.
    pub board: Seq<Seq<Square>>,
    /// The snake's cells, head first.
    pub snake: Seq<Coord>,
    /// Where the food lies.
    pub food: Coord,
    /// The current tick period.
    pub speed: u32,
    /// Why the game ended, once it has.
    pub ended: Option<Death>,
}

impl GameState {
    /// The number of rows of the board, which is also the number of its
    /// columns.
    pub open spec fn size(self) -> nat {
        self.board.len()
    }

    /// Whether `cell` is a cell of the board.
    pub open spec fn within(self, cell: Coord) -> bool {
        on_board(self.size(), cell)
    }

    /// The board is square, the snake has a neck, the snake and the food lie
    /// on the board, and the tick period is between the shortest and the
    /// first.
    pub open spec fn wf(self) -> bool {
        &&& is_square_grid(self.board)
        &&& self.size() <= usize::MAX
        &&& self.snake.len() >= 2
        &&& forall|i: int| 0 <= i < self.snake.len() ==> self.within(#[trigger] self.snake[i])
        &&& self.within(self.food)
        &&& MIN_SPEED <= self.speed <= INITIAL_SPEED
    }

    /// The board shows the snake and the food as they are now.
    pub open spec fn is_drawn(self) -> bool {
        self.board == picture(self.size(), self.snake, self.food)
    }

    /// This state with the board repainted.
    pub open spec fn redrawn(self) -> GameState {
        GameState { board: picture(self.size(), self.snake, self.food), ..self }
    }

    /// One move of the snake on this board: the snake's own rule, and death
    /// by `BoundaryViolation` where the new head would lie off the board.
    pub open spec fn attempt(self, direction: Direction) -> Result<(Seq<Coord>, bool), Death> {
        match advance(self.snake, self.food, direction) {
            Ok((body, ate)) => if self.within(body[0]) {
                Ok((body, ate))
            } else {
                Err(Death::BoundaryViolation)
            },
            Err(death) => Err(death),
        }
    }

    /// One step of the game before the board is repainted, with `next_food`
    /// as the place of the new food in case the snake eats.
    ///
    /// A game that is over stays as it is. A fatal move ends the game and
    /// leaves snake, food and speed untouched. Otherwise the snake moves;
    /// if it ate, the food moves to `next_food` and the tick period shrinks.
    pub open spec fn play(self, direction: Direction, next_food: Coord) -> (
        GameState,
        StepOutcome,
    ) {
        match self.ended {
            Some(death) => (self, StepOutcome::GameOver(death)),
            None => match self.attempt(direction) {
                Err(death) => (
                    GameState { ended: Some(death), ..self },
                    StepOutcome::GameOver(death),
                ),
                Ok((body, ate)) => if ate {
                    (
                        GameState {
                            snake: body,
                            food: next_food,
                            speed: spec_next_speed(self.speed),
                            ..self
                        },
                        StepOutcome::Ate,
                    )
                } else {
                    (GameState { snake: body, ..self }, StepOutcome::Moved)
                },
            },
        }
    }

    /// One step of the game: `play`, and then the board is repainted,
    /// whatever happened.
    pub open spec fn step(self, direction: Direction, next_food: Coord) -> (
        GameState,
        StepOutcome,
    ) {
        let (played, outcome) = self.play(direction, next_food);
        (played.redrawn(), outcome)
    }
}

/// A game of snake. Its view is its `GameState`.
#[derive(Clone, Debug)]
pub struct Game {
    board: Board,
    snake: Snake,
    food: Coord,
    speed: u32,
    ended: Option<Death>,
}

impl View for Game {
    type V = GameState;

    closed spec fn view(&self) -> GameState {
        GameState {
            board: self.board@,
            snake: self.snake@,
            food: self.food,
            speed: self.speed,
            ended: self.ended,
        }
    }
}

impl Game {
    /// The state of the game is well formed.
    pub open spec fn wf(&self) -> bool {
        self@.wf()
    }

    /// The state of a game fresh from `from_parts`.
    pub open spec fn spec_from_parts(size: usize, snake: Seq<Coord>, food: Coord) -> GameState {
        GameState {
            board: picture(size as nat, snake, food),
            snake,
            food,
            speed: INITIAL_SPEED,
            ended: None,
        }
    }

    /// A new game on a board of `size` rows and columns: a snake of three
    /// cells in the middle column, its head on the middle row and heading
    /// up; food on a random cell; the first tick period; the board painted.
    /// The board must have room for the snake below the middle row.
    pub fn new(size: usize) -> (game: Game)
        requires
            size >= 5,
        ensures
            game.wf(),
            game@.within(game@.food),
            game@ == Game::spec_from_parts(
                size,
                seq![
                    Coord(size / 2, size / 2),
                    Coord((size / 2 + 1) as usize, size / 2),
                    Coord((size / 2 + 2) as usize, size / 2),
                ],
                game@.food,
            ),
    {
        let mut game = Game {
            board: Board::new(size),
            snake: Snake::new(size / 2, size / 2),
            food: Coord(0, 0),
            speed: INITIAL_SPEED,
            ended: None,
        };
        game.spawn_food();
        game.draw();
        game
    }

    /// A game made of the given parts, at the first tick period and with the
    /// board painted; `None` unless the snake has a neck and the snake and
    /// the food lie on a board of `size` rows and columns.
    pub fn from_parts(size: usize, snake: Snake, food: Coord) -> (made: Option<Game>)
        ensures
            match made {
                Some(game) => game.wf() && game@ == Game::spec_from_parts(size, snake@, food),
                None => !Game::spec_from_parts(size, snake@, food).wf(),
            },
    {
        if snake.len() < 2 || food.0 >= size || food.1 >= size {
            return None;
        }
        let len: usize = snake.len();
        let mut i: usize = 0;
        while i < len
            invariant
                len == snake@.len(),
                i <= len,
                forall|j: int| 0 <= j < i ==> on_board(size as nat, #[trigger] snake@[j]),
            decreases len - i,
        {
            match snake.segment(i) {
                Some(cell) => {
                    if cell.0 >= size || cell.1 >= size {
                        return None;
                    }
                },
                None => {},
            }
            i += 1;
        }
        let mut game = Game {
            board: Board::new(size),
            snake,
            food,
            speed: INITIAL_SPEED,
            ended: None,
        };
        game.draw();
        Some(game)
    }

    /// The number of rows, which is also the number of columns.
    pub fn size(&self) -> (size: usize)
        ensures
            size == self@.size(),
    {
        self.board.size()
    }

    /// The board, for drawing.
    pub fn board(&self) -> (board: &Board)
        ensures
            board@ == self@.board,
    {
        &self.board
    }

    /// The snake.
    pub fn snake(&self) -> (snake: &Snake)
        ensures
            snake@ == self@.snake,
    {
        &self.snake
    }

    /// The cell the food lies on.
    pub fn food(&self) -> (cell: Coord)
        ensures
            cell == self@.food,
    {
        self.food
    }

    /// The current tick period. It changes when the snake eats, so a
    /// scheduler reads it again after every step.
    pub fn speed(&self) -> (period: u32)
        ensures
            period == self@.speed,
    {
        self.speed
    }

    /// After how long the next step is due: the current tick period, or
    /// `None` once the game is over and no further step should be taken.
    pub fn next_tick(&self) -> (due: Option<u32>)
        ensures
            due == if self@.ended is None {
                Some(self@.speed)
            } else {
                None
            },
    {
        match self.ended {
            None => Some(self.speed),
            Some(_) => None,
        }
    }

    /// Why the game is over, or `None` while it is still running.
    pub fn ended(&self) -> (cause: Option<Death>)
        ensures
            cause == self@.ended,
    {
        self.ended
    }

    /// Puts the food on `cell`. The board is not repainted.
    fn place_food(&mut self, cell: Coord)
        requires
            old(self).wf(),
            old(self)@.within(cell),
        ensures
            final(self).wf(),
            final(self)@ == (GameState { food: cell, ..old(self)@ }),
    {
        self.food = cell;
    }

    /// Puts the food on a cell drawn at random: the row and the column are
    /// drawn one after the other, each from all rows or columns of the
    /// board. Cells under the snake are not left out. The board is not
    /// repainted.
    pub fn spawn_food(&mut self)
        requires
            old(self).wf(),
        ensures
            final(self).wf(),
            final(self)@.within(final(self)@.food),
            final(self)@ == (GameState { food: final(self)@.food, ..old(self)@ }),
    {
        let size: usize = self.board.size();
        let mut rng = rand::thread_rng();
        let row: usize = uniform_below(&mut rng, size);
        let col: usize = uniform_below(&mut rng, size);
        self.place_food(Coord(row, col));
    }

    /// Sets every cell of the board to `Void`.
    pub fn clear(&mut self)
        requires
            old(self).wf(),
        ensures
            final(self).wf(),
            final(self)@ == (GameState { board: blank(old(self)@.size()), ..old(self)@ }),
    {
        self.board.clear();
    }

    /// Repaints the board from the snake and the food: every cell `Void`,
    /// then the food, then the head, then the rest of the body.
    pub fn draw(&mut self)
        requires
            old(self).wf(),
        ensures
            final(self).wf(),
            final(self)@.is_drawn(),
            final(self)@ == old(self)@.redrawn(),
    {
        self.board.paint(&self.snake, self.food);
    }

    /// Moves the snake on the board, or ends the game where the move is
    /// fatal. Food, speed and board are left alone.
    fn travel(&mut self, direction: Direction) -> (moved: Result<bool, Death>)
        requires
            old(self).wf(),
            old(self)@.ended is None,
        ensures
            final(self).wf(),
            match moved {
                Ok(ate) => {
                    &&& old(self)@.attempt(direction) == Ok::<(Seq<Coord>, bool), Death>(
                        (final(self)@.snake, ate),
                    )
                    &&& final(self)@ == (GameState { snake: final(self)@.snake, ..old(self)@ })
                },
                Err(death) => {
                    &&& old(self)@.attempt(direction) == Err::<(Seq<Coord>, bool), Death>(death)
                    &&& final(self)@ == (GameState { ended: Some(death), ..old(self)@ })
                },
            },
    {
        let size: usize = self.board.size();
        let fate = match self.snake.next_head(direction) {
            Some(cell) => {
                if cell.0 < size && cell.1 < size {
                    self.snake.slither(self.food, direction)
                } else {
                    Err(Death::BoundaryViolation)
                }
            },
            None => Err(Death::BoundaryViolation),
        };
        match fate {
            Ok(ate) => Ok(ate),
            Err(death) => {
                self.ended = Some(death);
                Err(death)
            },
        }
    }

    /// One step of the game in `direction`, with `next_food` as the cell for
    /// the new food should the snake eat. The board is repainted at the end,
    /// whatever happened.
    pub fn step_with_food(&mut self, direction: Direction, next_food: Coord) -> (outcome:
        StepOutcome)
        requires
            old(self).wf(),
            old(self)@.within(next_food),
        ensures
            final(self).wf(),
            final(self)@.is_drawn(),
            (final(self)@, outcome) == old(self)@.step(direction, next_food),
    {
        let outcome = match self.ended {
            Some(death) => StepOutcome::GameOver(death),
            None => match self.travel(direction) {
                Err(death) => StepOutcome::GameOver(death),
                Ok(true) => {
                    self.place_food(next_food);
                    self.speed = next_speed(self.speed);
                    StepOutcome::Ate
                },
                Ok(false) => StepOutcome::Moved,
            },
        };
        self.draw();
        outcome
    }

    /// One step of the game in `direction`. Should the snake eat, the new
    /// food goes to a cell drawn at random as by `spawn_food`; so the step is
    /// the one that `GameState::step` describes for the food as it lies
    /// afterwards. The board is repainted at the end, whatever happened.
    pub fn step(&mut self, direction: Direction) -> (outcome: StepOutcome)
        requires
            old(self).wf(),
        ensures
            final(self).wf(),
            final(self)@.is_drawn(),
            (final(self)@, outcome) == old(self)@.step(direction, final(self)@.food),
    {
        let outcome = match self.ended {
            Some(death) => StepOutcome::GameOver(death),
            None => match self.travel(direction) {
                Err(death) => StepOutcome::GameOver(death),
                Ok(true) => {
                    self.spawn_food();
                    self.speed = next_speed(self.speed);
                    StepOutcome::Ate
                },
                Ok(false) => StepOutcome::Moved,
            },
        };
        self.draw();
        outcome
    }
}

/// What every step of the game keeps. The state stays well formed and the
/// board keeps its size. A snake whose cells are neighbour to neighbour, or
/// that covers no cell twice, is still so after the step. The outcome is
/// `GameOver` exactly when the game is over afterwards, and a game that is
/// over changes no more, but for the repainting of its board.
pub proof fn lemma_step_keeps_shape(state: GameState, direction: Direction, next_food: Coord)
    requires
        state.wf(),
        state.within(next_food),
    ensures
        state.step(direction, next_food).0.wf(),
        state.step(direction, next_food).0.is_drawn(),
        state.step(direction, next_food).0.size() == state.size(),
        contiguous(state.snake) ==> contiguous(state.step(direction, next_food).0.snake),
        state.snake.no_duplicates() ==> state.step(direction, next_food).0.snake.no_duplicates(),
        state.step(direction, next_food).1 is GameOver <==> state.step(
            direction,
            next_food,
        ).0.ended is Some,
        state.ended is Some ==> state.step(direction, next_food).0 == state.redrawn(),
{
    let after = state.step(direction, next_food).0;
    if state.ended is None && state.attempt(direction) is Ok {
        let moved = advance(state.snake, state.food, direction).unwrap().0;
        assert(after.snake == moved);
        assert forall|i: int| 0 <= i < moved.len() implies after.within(#[trigger] moved[i]) by {
            if i > 0 {
                assert(moved[i] == state.snake[i - 1]);
            }
        }
        if contiguous(state.snake) {
            lemma_advance_keeps_contiguous(state.snake, state.food, direction);
        }
        if state.snake.no_duplicates() {
            lemma_advance_keeps_distinct(state.snake, state.food, direction);
        }
    }
}

} // verus!
