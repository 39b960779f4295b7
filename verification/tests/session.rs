use lp_tetris::board::Board;
use lp_tetris::piece::{Piece, Tetromino};
use lp_tetris::session::{interval, Session, Status};
use lp_tetris::ControlEvent;

fn cells(board: &Board) -> Vec<Vec<u8>> {
    board.shadow(&Piece::new(Tetromino::O), 0, 8).as_rows()
}

#[test]
fn a_session_starts_above_the_middle() {
    let session = Session::new(Tetromino::O);
    assert_eq!(session.anchor(), (3, 5));
    assert_eq!(session.speed(), 1);
    assert_eq!(session.ticks(), 0);
    assert!(!session.dropping());
    assert!(session.running());
    assert_eq!(session.status(), Status::Running);
    assert_eq!(cells(session.board()), vec![vec![0u8; 8]; 8]);
    assert_eq!(session.piece().render(), Piece::new(Tetromino::O).render());
    assert_eq!(session.piece().color, 53);
}

#[test]
fn gravity_interval_is_pace_less_speed() {
    assert_eq!(interval(255, 0), 255);
    assert_eq!(interval(255, 1), 254);
    assert_eq!(interval(255, 200), 55);
    assert_eq!(interval(255, 254), 1);
    assert_eq!(interval(255, 255), 1);
    assert_eq!(interval(10, 20), 1);
    assert_eq!(interval(0, 0), 1);
    assert_eq!(interval(100, 40), 60);
}

#[test]
fn gravity_interval_never_grows_with_speed() {
    for pace in [0u8, 1, 17, 128, 255] {
        let mut last = interval(pace, 0);
        for speed in 1..=255u8 {
            let now = interval(pace, speed);
            assert!(now >= 1);
            assert!(now <= last);
            last = now;
        }
    }
}

#[test]
fn begin_frame_counts_and_shows_the_piece_on_the_board() {
    let mut session = Session::new(Tetromino::O);
    let grid = session.begin_frame().as_rows();
    assert_eq!(session.ticks(), 1);
    assert_eq!(grid[5], vec![0, 0, 0, 53, 53, 0, 0, 0]);
    assert_eq!(grid[6], vec![0, 0, 0, 53, 53, 0, 0, 0]);
    assert_eq!(grid[4], vec![0; 8]);
    assert_eq!(grid[7], vec![0; 8]);
    assert_eq!(session.frame().as_rows(), grid);
    assert_eq!(cells(session.board()), vec![vec![0u8; 8]; 8]);
}

#[test]
fn the_piece_falls_when_the_tick_reaches_the_interval() {
    let mut session = Session::new(Tetromino::O);
    for _ in 0..253 {
        session.begin_frame();
        assert!(!session.gravity_due());
        session.fall(Tetromino::I);
        assert_eq!(session.anchor(), (3, 5));
    }
    session.begin_frame();
    assert_eq!(session.ticks(), 254);
    assert!(session.gravity_due());
    session.fall(Tetromino::I);
    assert_eq!(session.anchor(), (3, 4));
    session.begin_frame();
    session.fall(Tetromino::I);
    assert_eq!(session.anchor(), (3, 4));
}

#[test]
fn a_shorter_pace_falls_sooner() {
    let mut session = Session::with_pace(Tetromino::O, 3);
    let mut seen = Vec::new();
    for _ in 0..6 {
        session.begin_frame();
        session.fall(Tetromino::I);
        seen.push(session.anchor().1);
    }
    assert_eq!(seen, vec![5, 4, 4, 3, 3, 2]);
}

#[test]
fn a_higher_speed_falls_sooner() {
    let mut session = Session::with_pace(Tetromino::O, 5);
    session.dispatch(ControlEvent::SpeedChange(3));
    assert_eq!(session.speed(), 3);
    let mut seen = Vec::new();
    for _ in 0..4 {
        session.begin_frame();
        session.fall(Tetromino::I);
        seen.push(session.anchor().1);
    }
    assert_eq!(seen, vec![5, 4, 4, 3]);
    session.dispatch(ControlEvent::SpeedChange(200));
    session.begin_frame();
    session.fall(Tetromino::I);
    session.begin_frame();
    session.fall(Tetromino::I);
    assert_eq!(session.anchor(), (3, 1));
}

#[test]
fn a_drop_falls_at_every_frame_until_the_piece_locks() {
    let mut session = Session::new(Tetromino::O);
    session.dispatch(ControlEvent::DropBlock);
    assert!(session.dropping());
    for y in (0..5).rev() {
        session.begin_frame();
        session.fall(Tetromino::T);
        assert_eq!(session.anchor(), (3, y));
        assert!(session.dropping());
    }
    assert!(session.landed());
    session.begin_frame();
    session.fall(Tetromino::T);
    assert!(!session.dropping());
    assert_eq!(session.anchor(), (3, 7));
    assert_eq!(session.piece().render(), Piece::new(Tetromino::T).render());
    assert_eq!(session.piece().color, 37);
    let grid = cells(session.board());
    assert_eq!(grid[0], vec![0, 0, 0, 53, 53, 0, 0, 0]);
    assert_eq!(grid[1], vec![0, 0, 0, 53, 53, 0, 0, 0]);
    assert_eq!(grid[2], vec![0; 8]);
    assert!(session.running());
    session.begin_frame();
    session.fall(Tetromino::T);
    assert_eq!(session.anchor(), (3, 7));
}

#[test]
fn a_piece_lands_on_the_stack() {
    let mut board = Board::new();
    board.place(&Piece::new(Tetromino::O), 3, 0);
    let high = Session::resume(board, Piece::new(Tetromino::O), 3, 3);
    assert!(!high.landed());
    let mut board = Board::new();
    board.place(&Piece::new(Tetromino::O), 3, 0);
    let mut low = Session::resume(board, Piece::new(Tetromino::O), 4, 2);
    assert!(low.landed());
    low.lock(Tetromino::S);
    let grid = cells(low.board());
    assert_eq!(grid[0], vec![0, 0, 0, 53, 53, 0, 0, 0]);
    assert_eq!(grid[2], vec![0, 0, 0, 0, 53, 53, 0, 0]);
    assert_eq!(grid[3], vec![0, 0, 0, 0, 53, 53, 0, 0]);
    assert_eq!(low.anchor(), (3, 7));
}

#[test]
fn locking_clears_full_rows() {
    let mut board = Board::new();
    board.place(&Piece::new(Tetromino::I).rotated_left(), 0, 0);
    board.place(&Piece::new(Tetromino::O), 6, 0);
    let mut session = Session::resume(board, Piece::new(Tetromino::O), 4, 0);
    session.dispatch(ControlEvent::DropBlock);
    session.begin_frame();
    session.fall(Tetromino::L);
    let grid = cells(session.board());
    assert_eq!(grid[0], vec![0, 0, 0, 0, 53, 53, 53, 53]);
    for y in 1..8 {
        assert_eq!(grid[y], vec![0; 8]);
    }
    assert!(session.running());
    assert_eq!(session.anchor(), (3, 7));
}

#[test]
fn the_game_is_over_when_a_column_reaches_the_ceiling() {
    let mut board = Board::new();
    board.place(&Piece::new(Tetromino::I), 3, 0);
    board.place(&Piece::new(Tetromino::O), 3, 4);
    let mut session = Session::resume(board, Piece::new(Tetromino::O), 3, 6);
    assert!(session.landed());
    session.dispatch(ControlEvent::DropBlock);
    session.begin_frame();
    session.fall(Tetromino::J);
    assert_eq!(session.status(), Status::GameOver);
    assert!(!session.running());
    assert!(session.board().finished());
    let ticks = session.ticks();
    session.begin_frame();
    assert_eq!(session.ticks(), ticks);
    session.dispatch(ControlEvent::SpeedChange(9));
    assert_eq!(session.speed(), 1);
    session.dispatch(ControlEvent::MoveLeft);
    session.dispatch(ControlEvent::DropBlock);
    session.fall(Tetromino::J);
    assert_eq!(session.anchor(), (3, 7));
    assert!(!session.dropping());
    assert_eq!(session.status(), Status::GameOver);
}

#[test]
fn exit_stops_the_session_without_game_over() {
    let mut session = Session::new(Tetromino::Z);
    session.dispatch(ControlEvent::ExitGame);
    assert_eq!(session.status(), Status::Stopped);
    assert!(!session.running());
    assert!(!session.board().finished());
    session.dispatch(ControlEvent::MoveRight);
    assert_eq!(session.anchor(), (3, 5));
}

#[test]
fn moves_stop_at_the_walls() {
    let mut session = Session::new(Tetromino::O);
    for x in (0..3).rev() {
        session.dispatch(ControlEvent::MoveLeft);
        assert_eq!(session.anchor(), (x, 5));
    }
    session.dispatch(ControlEvent::MoveLeft);
    assert_eq!(session.anchor(), (0, 5));
    for x in 1..7 {
        session.dispatch(ControlEvent::MoveRight);
        assert_eq!(session.anchor(), (x, 5));
    }
    session.dispatch(ControlEvent::MoveRight);
    assert_eq!(session.anchor(), (6, 5));
}

#[test]
fn moves_stop_at_the_stack() {
    let mut board = Board::new();
    board.place(&Piece::new(Tetromino::I), 2, 0);
    board.place(&Piece::new(Tetromino::I), 6, 0);
    let mut session = Session::resume(board, Piece::new(Tetromino::O), 3, 0);
    session.dispatch(ControlEvent::MoveLeft);
    assert_eq!(session.anchor(), (3, 0));
    session.dispatch(ControlEvent::MoveRight);
    assert_eq!(session.anchor(), (4, 0));
    session.dispatch(ControlEvent::MoveRight);
    assert_eq!(session.anchor(), (4, 0));
}

#[test]
fn up_and_down_do_nothing() {
    let mut session = Session::new(Tetromino::S);
    session.dispatch(ControlEvent::MoveUp);
    session.dispatch(ControlEvent::MoveDown);
    assert_eq!(session.anchor(), (3, 5));
    assert_eq!(session.ticks(), 0);
    assert!(!session.dropping());
    assert!(session.running());
}

#[test]
fn a_turn_that_fits_keeps_the_anchor() {
    let mut session = Session::new(Tetromino::J);
    session.dispatch(ControlEvent::RotateLeft);
    assert_eq!(session.anchor(), (3, 5));
    assert_eq!(
        session.piece().render().as_rows(),
        vec![vec![true, false, false], vec![true, true, true]]
    );
    session.dispatch(ControlEvent::RotateRight);
    session.dispatch(ControlEvent::RotateRight);
    assert_eq!(session.anchor(), (3, 5));
    assert_eq!(
        session.piece().render().as_rows(),
        vec![vec![true, true, true], vec![false, false, true]]
    );
}

#[test]
fn a_turn_at_the_right_wall_is_kicked_to_the_left() {
    let mut session = Session::resume(Board::new(), Piece::new(Tetromino::I), 6, 0);
    session.dispatch(ControlEvent::RotateLeft);
    assert_eq!(session.anchor(), (4, 0));
    assert_eq!(session.piece().render().as_rows(), vec![vec![true, true, true, true]]);
}

#[test]
fn a_turn_next_to_the_stack_is_kicked_one_column() {
    let mut board = Board::new();
    board.place(&Piece::new(Tetromino::O), 5, 0);
    let mut session = Session::resume(board, Piece::new(Tetromino::I), 2, 0);
    session.dispatch(ControlEvent::RotateRight);
    assert_eq!(session.anchor(), (1, 0));
    assert_eq!(session.piece().render().as_rows(), vec![vec![true, true, true, true]]);
}

#[test]
fn a_turn_that_fits_nowhere_is_taken_back() {
    let mut board = Board::new();
    board.place(&Piece::new(Tetromino::O), 5, 0);
    board.place(&Piece::new(Tetromino::I), 1, 0);
    let mut session = Session::resume(board, Piece::new(Tetromino::I), 2, 0);
    let before = session.piece().render();
    session.dispatch(ControlEvent::RotateLeft);
    assert_eq!(session.anchor(), (2, 0));
    assert_eq!(session.piece().render(), before);
    session.dispatch(ControlEvent::RotateRight);
    assert_eq!(session.anchor(), (2, 0));
    assert_eq!(session.piece().render(), before);
    session.dispatch(ControlEvent::MoveRight);
    assert_eq!(session.anchor(), (3, 0));
}

#[test]
fn a_random_piece_follows_a_lock() {
    let mut session = Session::resume(Board::new(), Piece::new(Tetromino::O), 3, 0);
    session.dispatch(ControlEvent::DropBlock);
    session.begin_frame();
    session.fall_random();
    assert_eq!(session.anchor(), (3, 7));
    assert!(!session.dropping());
    assert!(session.running());
    assert_eq!(cells(session.board())[0], vec![0, 0, 0, 53, 53, 0, 0, 0]);
    let color = session.piece().color;
    assert!([5u8, 13, 21, 3, 37, 45, 53].contains(&color));
    let render = session.piece().render();
    assert!(render.num_rows() >= 1 && render.num_rows() <= 4);
    assert!(render.num_columns() >= 1 && render.num_columns() <= 4);
}

#[test]
fn fall_random_only_falls_when_gravity_is_due() {
    let mut session = Session::new(Tetromino::L);
    session.begin_frame();
    session.fall_random();
    assert_eq!(session.anchor(), (3, 5));
    session.dispatch(ControlEvent::DropBlock);
    session.begin_frame();
    session.fall_random();
    assert_eq!(session.anchor(), (3, 4));
    assert_eq!(session.piece().render(), Piece::new(Tetromino::L).render());
}

#[test]
fn a_session_that_has_ended_cannot_be_locked() {
    let mut stopped = Session::resume(Board::new(), Piece::new(Tetromino::O), 3, 0);
    stopped.dispatch(ControlEvent::ExitGame);
    stopped.lock(Tetromino::T);
    assert_eq!(stopped.status(), Status::Stopped);
    assert_eq!(stopped.anchor(), (3, 0));
    assert_eq!(cells(stopped.board()), vec![vec![0u8; 8]; 8]);
    assert_eq!(stopped.piece().render(), Piece::new(Tetromino::O).render());

    let mut board = Board::new();
    board.place(&Piece::new(Tetromino::I), 3, 0);
    board.place(&Piece::new(Tetromino::O), 3, 4);
    let mut over = Session::resume(board, Piece::new(Tetromino::O), 3, 6);
    over.lock(Tetromino::J);
    assert_eq!(over.status(), Status::GameOver);
    let grid = cells(over.board());
    over.lock(Tetromino::L);
    assert_eq!(over.status(), Status::GameOver);
    assert_eq!(cells(over.board()), grid);
    assert_eq!(over.piece().render(), Piece::new(Tetromino::J).render());
}
