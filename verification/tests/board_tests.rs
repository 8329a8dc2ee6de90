use snake_game::{Board, Coord, Snake, Square};

fn snake_on(cells: &[(usize, usize)]) -> Snake {
    Snake::from_segments(cells.iter().map(|&(r, c)| Coord(r, c)).collect()).unwrap()
}

fn tally(board: &Board, square: Square) -> usize {
    board.rows().iter().flatten().filter(|&&s| s == square).count()
}

#[test]
fn new_board_is_square_and_void() {
    let board = Board::new(7);
    assert_eq!(board.size(), 7);
    assert_eq!(board.rows().len(), 7);
    assert!(board.rows().iter().all(|row| row.len() == 7));
    assert_eq!(tally(&board, Square::Void), 49);
}

#[test]
fn empty_board_has_no_cells() {
    let board = Board::new(0);
    assert_eq!(board.size(), 0);
    assert!(board.rows().is_empty());
    assert_eq!(board.get(Coord(0, 0)), None);
}

#[test]
fn get_reads_row_then_column() {
    let mut board = Board::new(4);
    board.paint(&snake_on(&[(1, 2), (2, 2)]), Coord(3, 0));
    assert_eq!(board.get(Coord(1, 2)), Some(Square::Head));
    assert_eq!(board.get(Coord(2, 1)), Some(Square::Void));
    assert_eq!(board.get(Coord(2, 2)), Some(Square::Body));
    assert_eq!(board.get(Coord(3, 0)), Some(Square::Food));
    assert_eq!(board.get(Coord(0, 3)), Some(Square::Void));
    assert_eq!(board.rows()[1][2], Square::Head);
    assert_eq!(board.rows()[3][0], Square::Food);
}

#[test]
fn get_off_the_board_is_none() {
    let board = Board::new(4);
    assert_eq!(board.get(Coord(4, 0)), None);
    assert_eq!(board.get(Coord(0, 4)), None);
    assert_eq!(board.get(Coord(usize::MAX, usize::MAX)), None);
    assert_eq!(board.get(Coord(3, 3)), Some(Square::Void));
}

#[test]
fn paint_wipes_the_old_picture() {
    let mut board = Board::new(5);
    board.paint(&snake_on(&[(0, 0), (0, 1), (0, 2)]), Coord(4, 4));
    board.paint(&snake_on(&[(2, 2), (3, 2)]), Coord(1, 1));
    assert_eq!(tally(&board, Square::Head), 1);
    assert_eq!(tally(&board, Square::Body), 1);
    assert_eq!(tally(&board, Square::Food), 1);
    assert_eq!(tally(&board, Square::Void), 22);
    assert_eq!(board.get(Coord(0, 0)), Some(Square::Void));
    assert_eq!(board.get(Coord(4, 4)), Some(Square::Void));
    assert_eq!(board.get(Coord(2, 2)), Some(Square::Head));
}

#[test]
fn clear_wipes_everything() {
    let mut board = Board::new(5);
    board.paint(&snake_on(&[(0, 0), (0, 1), (0, 2)]), Coord(4, 4));
    assert_eq!(tally(&board, Square::Void), 21);
    board.clear();
    assert_eq!(tally(&board, Square::Void), 25);
    assert_eq!(board.size(), 5);
}

#[test]
fn later_layers_cover_earlier_ones() {
    let mut board = Board::new(5);
    // food under the head
    board.paint(&snake_on(&[(2, 2), (3, 2)]), Coord(2, 2));
    assert_eq!(board.get(Coord(2, 2)), Some(Square::Head));
    assert_eq!(tally(&board, Square::Food), 0);
    // food under the body
    board.paint(&snake_on(&[(2, 2), (3, 2)]), Coord(3, 2));
    assert_eq!(board.get(Coord(3, 2)), Some(Square::Body));
    assert_eq!(tally(&board, Square::Food), 0);
    // a later segment on the head's cell
    board.paint(&snake_on(&[(2, 2), (3, 2), (2, 2)]), Coord(0, 0));
    assert_eq!(board.get(Coord(2, 2)), Some(Square::Body));
    assert_eq!(tally(&board, Square::Head), 0);
    assert_eq!(tally(&board, Square::Body), 2);
}

#[test]
fn picture_has_one_head_and_a_cell_for_each_other_segment() {
    let bodies: [&[(usize, usize)]; 3] = [
        &[(0, 0), (0, 1)],
        &[(2, 2), (2, 3), (3, 3), (3, 2), (3, 1)],
        &[(5, 5), (4, 5), (3, 5), (2, 5), (1, 5), (0, 5)],
    ];
    for body in bodies {
        for food in [Coord(5, 0), Coord(body[1].0, body[1].1), Coord(body[0].0, body[0].1)] {
            let mut board = Board::new(6);
            board.paint(&snake_on(body), food);
            let hidden = body.iter().any(|&(r, c)| Coord(r, c) == food);
            assert_eq!(tally(&board, Square::Head), 1);
            assert_eq!(tally(&board, Square::Body), body.len() - 1);
            assert_eq!(tally(&board, Square::Food), usize::from(!hidden));
            assert_eq!(
                tally(&board, Square::Void),
                36 - body.len() - usize::from(!hidden)
            );
        }
    }
}

#[test]
fn class_names_are_the_lower_case_kinds() {
    assert_eq!(Square::Head.class_name(), "head");
    assert_eq!(Square::Body.class_name(), "body");
    assert_eq!(Square::Food.class_name(), "food");
    assert_eq!(Square::Void.class_name(), "void");
}
