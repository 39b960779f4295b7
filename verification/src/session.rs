//! The game session: a board, the falling piece and its anchor, the tick
//! counter and the speed. One frame of the game is a tick, a gravity step
//! when one is due, and at most one control event.
//!
//! The session decides; it neither sleeps, draws nor listens. Its caller
//! shows the grid that `begin_frame` returns, lets the piece fall, and hands
//! over the control event that it received, if any.

use crate::board::{
    cleared, collision, is_board, kicked, painted, topped_out, Board, CollisionResult, MAX_COLOR,
};
use crate::control::ControlEvent;
use crate::grid::{byte_rows, rectangular, width};
use crate::piece::{turned, Piece, Rotation, Tetromino};
use array2d::Array2D;
use vstd::prelude::*;

verus! {

/// Whether a session goes on, and if not, how it ended.
#[derive(Debug, Clone, Copy, PartialEq, Eq, Structural)]
pub enum Status {
    /// The game goes on.
    Running,
    /// A column reached the ceiling.
    GameOver,
    /// The player left the game.
    Stopped,
}

/// The column at which every piece starts.
pub const SPAWN_X: usize = 3;

/// The row at which the first piece of a session starts.
pub const START_Y: usize = 5;

/// The row at which every later piece starts.
pub const SPAWN_Y: usize = 7;

/// The speed at which a session starts.
pub const START_SPEED: u8 = 1;

/// The pace of a session unless another is asked for: the number of ticks
/// between two gravity steps at speed 0.
pub const DEFAULT_PACE: u8 = 255;

/// The number of ticks between two gravity steps: the pace less the speed,
/// and never less than one tick.
pub open spec fn gravity_interval(pace: u8, speed: u8) -> int {
    if pace - speed >= 1 {
        pace - speed
    } else {
        1
    }
}

/// What a session holds, as plain values.
pub struct SessionView {
    /// The cells of the board, from the floor up.
    pub cells: Seq<Seq<u8>>,
    /// The layout of the falling piece in orientation zero.
    pub layout: Seq<Seq<bool>>,
    /// The colour of the falling piece.
    pub color: u8,
    /// The orientation of the falling piece.
    pub rotation: Rotation,
    /// The column of the anchor.
    pub x: int,
    /// The row of the anchor.
    pub y: int,
    /// The number of frames begun, modulo 2^32.
    pub tick: u32,
    /// The speed level.
    pub speed: u8,
    /// The pace.
    pub pace: u8,
    /// Whether the piece drops at every frame until it locks.
    pub drop_down: bool,
    /// Whether the game goes on.
    pub status: Status,
}

impl SessionView {
    /// The board is a board and the piece a piece.
    pub open spec fn wf(self) -> bool {
        &&& is_board(self.cells)
        &&& rectangular(self.layout)
        &&& 1 <= self.layout.len() <= 4
        &&& 1 <= width(self.layout) <= 4
        &&& 1 <= self.color <= MAX_COLOR
        &&& 0 <= self.x <= usize::MAX
        &&& 0 <= self.y <= usize::MAX
    }

    /// The occupancy grid of the falling piece.
    pub open spec fn occupancy(self) -> Seq<Seq<bool>> {
        turned(self.layout, self.rotation)
    }

    /// The grid to show: the board with the falling piece painted on it.
    pub open spec fn frame(self) -> Seq<Seq<u8>> {
        painted(self.cells, self.occupancy(), self.color, self.x, self.y)
    }

    /// The session at its start, with `first` as the falling piece.
    pub open spec fn start(first: Tetromino, pace: u8) -> SessionView {
        SessionView {
            cells: crate::board::empty_cells(),
            layout: first.layout(),
            color: first.color(),
            rotation: Rotation::Zero,
            x: SPAWN_X as int,
            y: START_Y as int,
            tick: 0,
            speed: START_SPEED,
            pace,
            drop_down: false,
            status: Status::Running,
        }
    }

    /// The session after the tick that begins a frame. A session that has
    /// ended counts no further.
    pub open spec fn ticked(self) -> SessionView {
        if self.status == Status::Running {
            SessionView { tick: ((self.tick + 1) % 0x1_0000_0000) as u32, ..self }
        } else {
            self
        }
    }

    /// Whether a gravity step is due: the tick is a multiple of the gravity
    /// interval, or the piece is dropping.
    pub open spec fn gravity_due(self) -> bool {
        self.tick as int % gravity_interval(self.pace, self.speed) == 0 || self.drop_down
    }

    /// Whether the piece cannot fall further: it stands on the floor, or
    /// something is in its way one row down.
    pub open spec fn landed(self) -> bool {
        self.y == 0 || collision(self.cells, self.occupancy(), self.x, self.y - 1)
            != CollisionResult::Unobstructed
    }

    /// The session after the piece was locked: the piece is written into
    /// the board and full rows are cleared; the game is over if a column
    /// then reaches the ceiling; the piece stops dropping, and `next` starts
    /// at the spawn anchor. A session that has ended stays as it is.
    pub open spec fn locked(self, next: Tetromino) -> SessionView {
        let cells = cleared(painted(self.cells, self.occupancy(), self.color, self.x, self.y));
        if self.status != Status::Running {
            self
        } else {
            SessionView {
                cells,
                layout: next.layout(),
                color: next.color(),
                rotation: Rotation::Zero,
                x: SPAWN_X as int,
                y: SPAWN_Y as int,
                drop_down: false,
                status: if topped_out(cells) {
                    Status::GameOver
                } else {
                    Status::Running
                },
                ..self
            }
        }
    }

    /// The session after the gravity step of a frame: nothing happens
    /// unless the game goes on and a step is due; then a piece that has
    /// landed is locked, and any other falls by one row.
    pub open spec fn fallen(self, next: Tetromino) -> SessionView {
        if self.status != Status::Running || !self.gravity_due() {
            self
        } else if self.landed() {
            self.locked(next)
        } else {
            SessionView { y: self.y - 1, ..self }
        }
    }

    /// The session after the piece was asked to move to column `x`: it
    /// moves if nothing is in its way there.
    pub open spec fn moved(self, x: int) -> SessionView {
        if collision(self.cells, self.occupancy(), x, self.y) == CollisionResult::Unobstructed {
            SessionView { x, ..self }
        } else {
            self
        }
    }

    /// The session after the piece was asked to turn into orientation
    /// `rotation`: it turns and takes the anchor that the kick gives it, or
    /// stays as it is when the kick finds none.
    pub open spec fn turned_to(self, rotation: Rotation) -> SessionView {
        match kicked(self.cells, turned(self.layout, rotation), self.x, self.y) {
            Some((x, y)) => SessionView { rotation, x, y, ..self },
            None => self,
        }
    }

    /// The session after a control event. A session that has ended takes
    /// none.
    pub open spec fn dispatched(self, event: ControlEvent) -> SessionView {
        if self.status != Status::Running {
            self
        } else {
            match event {
                ControlEvent::MoveLeft => self.moved(
                    if self.x >= 1 {
                        self.x - 1
                    } else {
                        0
                    },
                ),
                ControlEvent::MoveRight => self.moved(
                    if self.x < usize::MAX {
                        self.x + 1
                    } else {
                        self.x
                    },
                ),
                ControlEvent::RotateLeft => self.turned_to(self.rotation.left()),
                ControlEvent::RotateRight => self.turned_to(self.rotation.right()),
                ControlEvent::DropBlock => SessionView { drop_down: true, ..self },
                ControlEvent::SpeedChange(speed) => SessionView { speed, ..self },
                ControlEvent::ExitGame => SessionView { status: Status::Stopped, ..self },
                ControlEvent::MoveUp => self,
                ControlEvent::MoveDown => self,
            }
        }
    }
}

/// A session that has ended, by game over or by the player's leave, stays as
/// it is: no tick, gravity step, lock or control event changes it.
pub proof fn lemma_ended_session_stays(session: SessionView, next: Tetromino, event: ControlEvent)
    requires
        session.status != Status::Running,
    ensures
        session.ticked() == session,
        session.fallen(next) == session,
        session.locked(next) == session,
        session.dispatched(event) == session,
{
}

/// A game in progress.
#[derive(Debug)]
pub struct Session {
    board: Board,
    piece: Piece,
    x: usize,
    y: usize,
    tick: u32,
    speed: u8,
    pace: u8,
    drop_down: bool,
    status: Status,
}

impl View for Session {
    type V = SessionView;

    closed spec fn view(&self) -> SessionView {
        SessionView {
            cells: self.board.cells(),
            layout: self.piece.layout(),
            color: self.piece.color_id(),
            rotation: self.piece.rotation(),
            x: self.x as int,
            y: self.y as int,
            tick: self.tick,
            speed: self.speed,
            pace: self.pace,
            drop_down: self.drop_down,
            status: self.status,
        }
    }
}

/// A higher speed never makes the gravity interval longer, and no speed
/// makes it shorter than one tick.
pub proof fn lemma_interval_monotonic(pace: u8, slow: u8, fast: u8)
    requires
        slow <= fast,
    ensures
        1 <= gravity_interval(pace, fast) <= gravity_interval(pace, slow) <= u8::MAX,
{
}

/// The number of ticks between two gravity steps.
pub fn interval(pace: u8, speed: u8) -> (ticks: u32)
    ensures
        ticks == gravity_interval(pace, speed),
        ticks >= 1,
{
    let ticks = pace.saturating_sub(speed);
    if ticks == 0 {
        1
    } else {
        ticks as u32
    }
}

impl Session {
    /// The board is a board and the piece a piece.
    pub open spec fn wf(&self) -> bool {
        self@.wf()
    }

    /// Starts a session at the default pace, with `first` as the falling
    /// piece.
    pub fn new(first: Tetromino) -> (session: Session)
        ensures
            session.wf(),
            session@ == SessionView::start(first, DEFAULT_PACE),
    {
        Session::with_pace(first, DEFAULT_PACE)
    }

    /// Starts a session at the given pace, with `first` as the falling
    /// piece.
    pub fn with_pace(first: Tetromino, pace: u8) -> (session: Session)
        ensures
            session.wf(),
            session@ == SessionView::start(first, pace),
    {
        Session {
            board: Board::new(),
            piece: Piece::new(first),
            x: SPAWN_X,
            y: START_Y,
            tick: 0,
            speed: START_SPEED,
            pace,
            drop_down: false,
            status: Status::Running,
        }
    }

    /// Takes a game up from a board, a piece and its anchor, at the start
    /// speed and the default pace.
    pub fn resume(board: Board, piece: Piece, x: usize, y: usize) -> (session: Session)
        requires
            board.wf(),
            piece.wf(),
        ensures
            session.wf(),
            session@ == (SessionView {
                cells: board.cells(),
                layout: piece.layout(),
                color: piece.color_id(),
                rotation: piece.rotation(),
                x: x as int,
                y: y as int,
                tick: 0,
                speed: START_SPEED,
                pace: DEFAULT_PACE,
                drop_down: false,
                status: Status::Running,
            }),
    {
        Session {
            board,
            piece,
            x,
            y,
            tick: 0,
            speed: START_SPEED,
            pace: DEFAULT_PACE,
            drop_down: false,
            status: Status::Running,
        }
    }

    /// Returns whether the game goes on, and if not, how it ended.
    pub fn status(&self) -> (status: Status)
        ensures
            status == self@.status,
    {
        self.status
    }

    /// Returns whether the game goes on.
    pub fn running(&self) -> (running: bool)
        ensures
            running == (self@.status == Status::Running),
    {
        match self.status {
            Status::Running => true,
            _ => false,
        }
    }

    /// Returns the anchor of the falling piece, column first.
    pub fn anchor(&self) -> (anchor: (usize, usize))
        ensures
            anchor.0 == self@.x,
            anchor.1 == self@.y,
    {
        (self.x, self.y)
    }

    /// Returns the speed level.
    pub fn speed(&self) -> (speed: u8)
        ensures
            speed == self@.speed,
    {
        self.speed
    }

    /// Returns the number of frames begun.
    pub fn ticks(&self) -> (ticks: u32)
        ensures
            ticks == self@.tick,
    {
        self.tick
    }

    /// Returns whether the piece is dropping.
    pub fn dropping(&self) -> (dropping: bool)
        ensures
            dropping == self@.drop_down,
    {
        self.drop_down
    }

    /// Returns the board.
    pub fn board(&self) -> (board: &Board)
        ensures
            board.wf() == is_board(self@.cells),
            board.cells() == self@.cells,
    {
        &self.board
    }

    /// Returns the falling piece.
    pub fn piece(&self) -> (piece: &Piece)
        ensures
            piece.layout() == self@.layout,
            piece.color_id() == self@.color,
            piece.rotation() == self@.rotation,
    {
        &self.piece
    }

    /// Returns the grid to show: the board with the falling piece on it.
    pub fn frame(&self) -> (grid: Array2D<u8>)
        requires
            self.wf(),
        ensures
            byte_rows(grid) == self@.frame(),
            is_board(byte_rows(grid)),
    {
        self.board.shadow(&self.piece, self.x, self.y)
    }

    /// Begins a frame: counts the tick and returns the grid to show.
    pub fn begin_frame(&mut self) -> (grid: Array2D<u8>)
        requires
            old(self).wf(),
        ensures
            final(self).wf(),
            final(self)@ == old(self)@.ticked(),
            byte_rows(grid) == final(self)@.frame(),
            is_board(byte_rows(grid)),
    {
        if self.running() {
            self.tick = self.tick.wrapping_add(1);
        }
        self.frame()
    }

    /// Returns whether a gravity step is due in this frame.
    pub fn gravity_due(&self) -> (due: bool)
        ensures
            due == self@.gravity_due(),
    {
        self.drop_down || self.tick % interval(self.pace, self.speed) == 0
    }

    /// Returns whether the piece cannot fall further.
    pub fn landed(&self) -> (landed: bool)
        requires
            self.wf(),
        ensures
            landed == self@.landed(),
    {
        if self.y == 0 {
            true
        } else {
            match self.board.collides(&self.piece, self.x, self.y - 1) {
                CollisionResult::Unobstructed => false,
                _ => true,
            }
        }
    }

    /// Locks the piece into the board, clears full rows, ends the game if a
    /// column reaches the ceiling, and lets `next` start at the spawn
    /// anchor. A session that has ended stays as it is.
    pub fn lock(&mut self, next: Tetromino)
        requires
            old(self).wf(),
        ensures
            final(self).wf(),
            final(self)@ == old(self)@.locked(next),
    {
        if !self.running() {
            return ;
        }
        self.board.place(&self.piece, self.x, self.y);
        self.board.clear_rows();
        if self.board.finished() {
            self.status = Status::GameOver;
        }
        self.piece = Piece::new(next);
        self.x = SPAWN_X;
        self.y = SPAWN_Y;
        self.drop_down = false;
    }

    /// The gravity step of a frame, with the shape that comes next if the
    /// piece locks.
    pub fn fall(&mut self, next: Tetromino)
        requires
            old(self).wf(),
        ensures
            final(self).wf(),
            final(self)@ == old(self)@.fallen(next),
    {
        if self.running() && self.gravity_due() {
            if self.landed() {
                self.lock(next);
            } else {
                self.y = self.y - 1;
            }
        }
    }

    /// The gravity step of a frame. If the piece locks, the shape that comes
    /// next is drawn at random.
    pub fn fall_random(&mut self)
        requires
            old(self).wf(),
        ensures
            final(self).wf(),
            exists|next: Tetromino| final(self)@ == #[trigger] old(self)@.fallen(next),
    {
        if self.running() && self.gravity_due() && self.landed() {
            let next = Tetromino::random();
            self.lock(next);
            assert(self@ == old(self)@.fallen(next));
        } else {
            self.fall(Tetromino::O);
            assert(self@ == old(self)@.fallen(Tetromino::O));
        }
    }

    fn move_to(&mut self, x: usize)
        requires
            old(self).wf(),
        ensures
            final(self).wf(),
            final(self)@ == old(self)@.moved(x as int),
    {
        match self.board.collides(&self.piece, x, self.y) {
            CollisionResult::Unobstructed => {
                self.x = x;
            },
            _ => (),
        }
    }

    /// Carries out a control event: a move or a turn if the board allows
    /// it, a drop, a change of speed, or the end of the game.
    pub fn dispatch(&mut self, event: ControlEvent)
        requires
            old(self).wf(),
        ensures
            final(self).wf(),
            final(self)@ == old(self)@.dispatched(event),
    {
        if !self.running() {
            return ;
        }
        match event {
            ControlEvent::MoveLeft => {
                self.move_to(self.x.saturating_sub(1));
            },
            ControlEvent::MoveRight => {
                self.move_to(self.x.saturating_add(1));
            },
            ControlEvent::RotateLeft => {
                self.piece.rotate_left();
                match self.board.try_rotation(&self.piece, self.x, self.y) {
                    Some((new_x, new_y)) => {
                        self.x = new_x;
                        self.y = new_y;
                    },
                    None => {
                        self.piece.rotate_right();
                    },
                }
            },
            ControlEvent::RotateRight => {
                self.piece.rotate_right();
                match self.board.try_rotation(&self.piece, self.x, self.y) {
                    Some((new_x, new_y)) => {
                        self.x = new_x;
                        self.y = new_y;
                    },
                    None => {
                        self.piece.rotate_left();
                    },
                }
            },
            ControlEvent::DropBlock => {
                self.drop_down = true;
            },
            ControlEvent::SpeedChange(speed) => {
                self.speed = speed;
            },
            ControlEvent::ExitGame => {
                self.status = Status::Stopped;
            },
            ControlEvent::MoveUp => (),
            ControlEvent::MoveDown => (),
        }
    }
}

} // verus!
