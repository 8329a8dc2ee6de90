//! The board: a square grid of cells, and the picture of a snake and its
//! food on it.

use crate::coord::Coord;
use crate::snake::Snake;
use vstd::prelude::*;

verus! {

/// What a cell of the board shows.
#[derive(Clone, Copy, Debug, PartialEq, Eq, Structural)]
pub enum Square {
    Head,
    Body,
    Food,
    Void,
}

impl Square {
    /// The name under which a cell of this kind is styled.
    pub open spec fn spec_class_name(&self) -> Seq<char> {
        match self {
            Square::Head => "head"@,
            Square::Body => "body"@,
            Square::Food => "food"@,
            Square::Void => "void"@,
        }
    }

    /// The style class of the element that stands for a cell of this kind:
    /// the kind's own name in lower case.
    pub fn class_name(&self) -> (name: &'static str)
        ensures
            name@ == self.spec_class_name(),
    {
        match self {
            Square::Head => "head",
            Square::Body => "body",
            Square::Food => "food",
            Square::Void => "void",
        }
    }
}

/// Whether `cell` lies on a board of `size` rows and columns.
pub open spec fn on_board(size: nat, cell: Coord) -> bool {
    cell.0 < size && cell.1 < size
}

/// Whether a grid has as many cells in each row as it has rows.
pub open spec fn is_square_grid(rows: Seq<Seq<Square>>) -> bool {
    forall|r: int| 0 <= r < rows.len() ==> (#[trigger] rows[r]).len() == rows.len()
}

/// A grid of `size` rows and columns with nothing on it.
pub open spec fn blank(size: nat) -> Seq<Seq<Square>> {
    Seq::new(size, |row: int| Seq::new(size, |col: int| Square::Void))
}

/// What the board shows at `cell` for a given snake and food. Food is
/// painted first, then the head, then the rest of the body, so a later
/// layer covers an earlier one on the same cell.
pub open spec fn painted(snake: Seq<Coord>, food: Coord, cell: Coord) -> Square {
    if snake.skip(1).contains(cell) {
        Square::Body
    } else if snake[0] == cell {
        Square::Head
    } else if food == cell {
        Square::Food
    } else {
        Square::Void
    }
}

/// The picture of a snake and its food on a board of `size` rows and
/// columns: each cell shows what `painted` says.
pub open spec fn picture(size: nat, snake: Seq<Coord>, food: Coord) -> Seq<Seq<Square>> {
    Seq::new(
        size,
        |row: int|
            Seq::new(size, |col: int| painted(snake, food, Coord(row as usize, col as usize))),
    )
}

/// What a grid shows at `cell`.
pub open spec fn shown_at(rows: Seq<Seq<Square>>, cell: Coord) -> Square {
    rows[cell.0 as int][cell.1 as int]
}

/// The cells of a grid that show `square`.
pub open spec fn cells_showing(rows: Seq<Seq<Square>>, square: Square) -> Set<Coord> {
    Set::new(
        |cell: Coord|
            cell.0 < rows.len() && cell.1 < rows[cell.0 as int].len() && shown_at(rows, cell)
                == square,
    )
}

/// A square grid of cells. Its view is the grid as rows of cells, top row
/// first.
#[derive(Clone, Debug)]
pub struct Board {
    cells: Vec<Vec<Square>>,
}

impl View for Board {
    type V = Seq<Seq<Square>>;

    closed spec fn view(&self) -> Seq<Seq<Square>> {
        Seq::new(self.cells@.len(), |row: int| self.cells@[row]@)
    }
}

impl Board {
    /// The grid is square.
    pub open spec fn wf(&self) -> bool {
        is_square_grid(self@)
    }

    /// A board of `size` rows and columns, every cell `Void`.
    pub fn new(size: usize) -> (board: Board)
        ensures
            board.wf(),
            board@ == blank(size as nat),
    {
        let mut cells: Vec<Vec<Square>> = Vec::new();
        let mut row: usize = 0;
        while row < size
            invariant
                row <= size,
                cells@.len() == row,
                forall|r: int| 0 <= r < row ==> (#[trigger] cells@[r])@.len() == size,
                forall|r: int, c: int|
                    0 <= r < row && 0 <= c < size ==> #[trigger] cells@[r]@[c] == Square::Void,
            decreases size - row,
        {
            let mut line: Vec<Square> = Vec::new();
            let mut col: usize = 0;
            while col < size
                invariant
                    col <= size,
                    line@.len() == col,
                    forall|c: int| 0 <= c < col ==> line@[c] == Square::Void,
                decreases size - col,
            {
                line.push(Square::Void);
                col += 1;
            }
            cells.push(line);
            row += 1;
        }
        let board = Board { cells };
        assert(board@ =~~= blank(size as nat));
        board
    }

    /// The number of rows, which is also the number of columns.
    pub fn size(&self) -> (size: usize)
        ensures
            size == self@.len(),
    {
        self.cells.len()
    }

    /// The rows of the board, top row first, for drawing.
    pub fn rows(&self) -> (rows: &Vec<Vec<Square>>)
        ensures
            rows@.len() == self@.len(),
            forall|r: int| 0 <= r < rows@.len() ==> (#[trigger] rows@[r])@ == self@[r],
    {
        &self.cells
    }

    /// What the board shows at `cell`, or `None` for a cell off the board.
    pub fn get(&self, cell: Coord) -> (shown: Option<Square>)
        requires
            self.wf(),
        ensures
            shown == if on_board(self@.len(), cell) {
                Some(shown_at(self@, cell))
            } else {
                None
            },
    {
        if cell.0 < self.cells.len() && cell.1 < self.cells.len() {
            assert(self@[cell.0 as int].len() == self@.len());
            Some(self.cells[cell.0][cell.1])
        } else {
            None
        }
    }

    /// Makes `cell` show `square` and leaves every other cell alone.
    fn set(&mut self, cell: Coord, square: Square)
        requires
            old(self).wf(),
            on_board(old(self)@.len(), cell),
        ensures
            final(self).wf(),
            final(self)@ == old(self)@.update(
                cell.0 as int,
                old(self)@[cell.0 as int].update(cell.1 as int, square),
            ),
    {
        assert(self@[cell.0 as int].len() == self@.len());
        self.cells[cell.0][cell.1] = square;
        assert(self@ =~~= old(self)@.update(
            cell.0 as int,
            old(self)@[cell.0 as int].update(cell.1 as int, square),
        ));
    }

    /// Sets every cell of the board to `Void`.
    pub fn clear(&mut self)
        requires
            old(self).wf(),
        ensures
            final(self).wf(),
            final(self)@ == blank(old(self)@.len()),
    {
        let size: usize = self.cells.len();
        let mut row: usize = 0;
        while row < size
            invariant
                self.wf(),
                size == self@.len(),
                row <= size,
                forall|r: int, c: int|
                    0 <= r < row && 0 <= c < size ==> #[trigger] self@[r][c] == Square::Void,
            decreases size - row,
        {
            let mut col: usize = 0;
            while col < size
                invariant
                    self.wf(),
                    size == self@.len(),
                    row < size,
                    col <= size,
                    forall|r: int, c: int|
                        0 <= r < row && 0 <= c < size ==> #[trigger] self@[r][c] == Square::Void,
                    forall|c: int| 0 <= c < col ==> #[trigger] self@[row as int][c] == Square::Void,
                decreases size - col,
            {
                self.set(Coord(row, col), Square::Void);
                col += 1;
            }
            row += 1;
        }
        assert(self@ =~~= blank(size as nat));
    }

    /// Repaints the board from a snake and its food: every cell `Void`, then
    /// the food, then the head, then the rest of the body.
    pub fn paint(&mut self, snake: &Snake, food: Coord)
        requires
            old(self).wf(),
            snake.wf(),
            on_board(old(self)@.len(), food),
            forall|i: int|
                0 <= i < snake@.len() ==> on_board(old(self)@.len(), #[trigger] snake@[i]),
        ensures
            final(self).wf(),
            final(self)@ == picture(old(self)@.len(), snake@, food),
    {
        let rows: usize = self.size();
        let ghost size = rows as nat;
        self.clear();
        self.set(food, Square::Food);
        let head = snake.head();
        self.set(head, Square::Head);
        let len: usize = snake.len();
        let mut i: usize = 1;
        proof {
            assert forall|cell: Coord| on_board(size, cell) implies shown_at(self@, cell)
                == painted(snake@.subrange(0, 1), food, cell) by {
                lemma_painted_head_alone(snake@.subrange(0, 1), food, cell);
            }
            lemma_is_picture(self@, size, snake@.subrange(0, 1), food);
        }
        while i < len
            invariant
                self.wf(),
                snake.wf(),
                size == self@.len(),
                size <= usize::MAX,
                len == snake@.len(),
                1 <= i <= len,
                forall|j: int| 0 <= j < snake@.len() ==> on_board(size, #[trigger] snake@[j]),
                self@ == picture(size, snake@.subrange(0, i as int), food),
            decreases len - i,
        {
            let ghost before = self@;
            match snake.segment(i) {
                Some(cell) => {
                    self.set(cell, Square::Body);
                },
                None => {},
            }
            proof {
                assert forall|cell: Coord| on_board(size, cell) implies shown_at(self@, cell)
                    == painted(snake@.subrange(0, i + 1), food, cell) by {
                    assert(shown_at(before, cell) == painted(
                        snake@.subrange(0, i as int),
                        food,
                        cell,
                    ));
                    lemma_painted_one_more(snake@, i as int, food, cell);
                }
                lemma_is_picture(self@, size, snake@.subrange(0, i + 1), food);
            }
            i += 1;
        }
        proof {
            assert(snake@.subrange(0, len as int) =~= snake@);
        }
    }
}

/// What the picture of a snake and its food shows. The body is on the cells
/// of the segments after the head, so on one fewer cells than the snake is
/// long, or on fewer still where segments share a cell. The head is on its
/// own cell unless a later segment covers it, the food on its own cell
/// unless the snake covers it, and every other cell is void. A snake that
/// covers no cell twice shows exactly one head and a body cell for each
/// later segment.
pub proof fn lemma_picture_census(size: nat, snake: Seq<Coord>, food: Coord)
    requires
        size <= usize::MAX,
        snake.len() >= 1,
        forall|i: int| 0 <= i < snake.len() ==> on_board(size, #[trigger] snake[i]),
        on_board(size, food),
    ensures
        cells_showing(picture(size, snake, food), Square::Body) == snake.skip(1).to_set(),
        cells_showing(picture(size, snake, food), Square::Body).finite(),
        cells_showing(picture(size, snake, food), Square::Body).len() <= snake.len() - 1,
        cells_showing(picture(size, snake, food), Square::Head) == if snake.skip(1).contains(
            snake[0],
        ) {
            Set::<Coord>::empty()
        } else {
            set![snake[0]]
        },
        cells_showing(picture(size, snake, food), Square::Head).len() <= 1,
        cells_showing(picture(size, snake, food), Square::Food) == if snake.contains(food) {
            Set::<Coord>::empty()
        } else {
            set![food]
        },
        forall|cell: Coord|
            on_board(size, cell) && !snake.contains(cell) && cell != food ==> #[trigger] shown_at(
                picture(size, snake, food),
                cell,
            ) == Square::Void,
        snake.no_duplicates() ==> {
            &&& cells_showing(picture(size, snake, food), Square::Head).len() == 1
            &&& cells_showing(picture(size, snake, food), Square::Body).len() == snake.len() - 1
        },
{
    let grid = picture(size, snake, food);
    let body = snake.skip(1);
    assert forall|cell: Coord| on_board(size, cell) implies shown_at(grid, cell) == painted(
        snake,
        food,
        cell,
    ) by {
        assert(Coord(cell.0 as int as usize, cell.1 as int as usize) == cell);
    }
    assert forall|cell: Coord| snake.contains(cell) <==> cell == snake[0] || body.contains(
        cell,
    ) by {
        if snake.contains(cell) {
            let i = choose|i: int| 0 <= i < snake.len() && snake[i] == cell;
            if i > 0 {
                assert(body[i - 1] == cell);
            }
        }
        if body.contains(cell) {
            let i = choose|i: int| 0 <= i < body.len() && body[i] == cell;
            assert(snake[i + 1] == cell);
        }
    }
    assert forall|cell: Coord| snake.contains(cell) implies on_board(size, cell) by {
        let i = choose|i: int| 0 <= i < snake.len() && snake[i] == cell;
        assert(on_board(size, snake[i]));
    }
    assert(cells_showing(grid, Square::Body) =~= body.to_set());
    assert(cells_showing(grid, Square::Head) =~= if body.contains(snake[0]) {
        Set::<Coord>::empty()
    } else {
        set![snake[0]]
    });
    assert(cells_showing(grid, Square::Food) =~= if snake.contains(food) {
        Set::<Coord>::empty()
    } else {
        set![food]
    });
    vstd::seq_lib::seq_to_set_is_finite(body);
    body.lemma_cardinality_of_set();
    if snake.no_duplicates() {
        assert(!body.contains(snake[0])) by {
            if body.contains(snake[0]) {
                let i = choose|i: int| 0 <= i < body.len() && body[i] == snake[0];
                assert(snake[i + 1] == snake[0]);
            }
        }
        body.unique_seq_to_set();
    }
}

/// A square grid that shows at each cell what `painted` says is the picture.
proof fn lemma_is_picture(rows: Seq<Seq<Square>>, size: nat, snake: Seq<Coord>, food: Coord)
    requires
        rows.len() == size,
        is_square_grid(rows),
        size <= usize::MAX,
        forall|cell: Coord|
            on_board(size, cell) ==> shown_at(rows, cell) == painted(snake, food, cell),
    ensures
        rows == picture(size, snake, food),
{
    let target = picture(size, snake, food);
    assert forall|r: int| 0 <= r < size implies rows[r] =~= target[r] by {
        assert forall|c: int| 0 <= c < size implies rows[r][c] == target[r][c] by {
            let cell = Coord(r as usize, c as usize);
            assert(on_board(size, cell));
            assert(shown_at(rows, cell) == painted(snake, food, cell));
        }
    }
    assert(rows =~= target);
}

/// With nothing but a head, a cell shows the head, else the food, else
/// nothing.
proof fn lemma_painted_head_alone(snake: Seq<Coord>, food: Coord, cell: Coord)
    requires
        snake.len() == 1,
    ensures
        painted(snake, food, cell) == if snake[0] == cell {
            Square::Head
        } else if food == cell {
            Square::Food
        } else {
            Square::Void
        },
{
    assert(snake.skip(1).len() == 0);
}

/// Painting one more segment of the body changes that segment's cell to
/// `Body` and no other cell.
proof fn lemma_painted_one_more(snake: Seq<Coord>, i: int, food: Coord, cell: Coord)
    requires
        1 <= i < snake.len(),
    ensures
        painted(snake.subrange(0, i + 1), food, cell) == if cell == snake[i] {
            Square::Body
        } else {
            painted(snake.subrange(0, i), food, cell)
        },
{
    let shorter = snake.subrange(0, i).skip(1);
    let longer = snake.subrange(0, i + 1).skip(1);
    assert(longer =~= shorter.push(snake[i]));
    if cell == snake[i] {
        assert(longer[i - 1] == cell);
    } else if longer.contains(cell) {
        let k = choose|k: int| 0 <= k < longer.len() && longer[k] == cell;
        assert(shorter[k] == cell);
    } else if shorter.contains(cell) {
        let k = choose|k: int| 0 <= k < shorter.len() && shorter[k] == cell;
        assert(longer[k] == cell);
    }
}

} // verus!
