//! The display: an 8×8 grid of pads that is painted with system-exclusive
//! MIDI messages. This module numbers the pads and frames the messages;
//! sending them is the caller's business.

use crate::board::SIDE;
use crate::grid::{byte_grid_get, byte_rows};
use array2d::Array2D;
use vstd::prelude::*;

verus! {

/// The message type that lights pads.
pub const LIGHT_PADS: u8 = 0x0A;

/// The message type that sets every pad to one colour.
pub const LIGHT_ALL: u8 = 0x0E;

/// Represents a pad of the grid. `x` counts columns from the left and `y`
/// rows from the bottom.
#[derive(Copy, Clone, PartialEq, Eq, Structural, Debug)]
pub struct Pad {
    pub x: u8,
    pub y: u8,
}

impl Pad {
    /// The number of the pad's note: the row plus one in the tens and the
    /// column plus one in the ones.
    pub open spec fn note_number(self) -> int {
        10 * (self.y + 1) + (self.x + 1)
    }

    /// The pad of a note: the ones less one give the column and the tens
    /// less one the row, and neither goes below 0.
    pub open spec fn of_note(note: u8) -> Pad {
        Pad {
            x: if note % 10 >= 1 {
                (note % 10 - 1) as u8
            } else {
                0
            },
            y: if note / 10 >= 1 {
                (note / 10 - 1) as u8
            } else {
                0
            },
        }
    }

    /// Returns the MIDI note corresponding to the pad. This is the inverse
    /// of `from_note`.
    pub fn note(&self) -> (note: u8)
        requires
            self.note_number() <= u8::MAX,
        ensures
            note == self.note_number(),
    {
        10 * (self.y + 1) + (self.x + 1)
    }

    /// Returns a Pad corresponding to the given MIDI note. This is the
    /// inverse of `note`.
    pub fn from_note(note: u8) -> (pad: Pad)
        ensures
            pad == Pad::of_note(note),
    {
        let ones = note % 10;
        let tens = (note.saturating_sub(ones)) / 10;
        let x = ones.saturating_sub(1);
        let y = tens.saturating_sub(1);
        Pad { x, y }
    }
}

/// A pad in one of the first nine columns whose note fits in a byte is the
/// pad of its note.
pub proof fn lemma_pad_of_its_note(pad: Pad)
    requires
        pad.x <= 8,
        pad.note_number() <= u8::MAX,
    ensures
        Pad::of_note(pad.note_number() as u8) == pad,
{
}

/// A note from 10 up whose ones are not 0 is the note of its pad.
pub proof fn lemma_note_of_its_pad(note: u8)
    requires
        note >= 10,
        note % 10 != 0,
    ensures
        Pad::of_note(note).note_number() == note,
{
}

/// A system-exclusive message of the given type: the header of the
/// device, the type, the data and the closing byte.
pub open spec fn sysex(msg_type: u8, data: Seq<u8>) -> Seq<u8> {
    seq![0xF0u8, 0x00u8, 0x20u8, 0x29u8, 0x02u8, 0x18u8, msg_type] + data + seq![0xF7u8]
}

/// The data of the message that paints a whole grid: for each pad, row
/// after row from the bottom, its note and then its colour.
pub open spec fn matrix_data(cells: Seq<Seq<u8>>) -> Seq<u8> {
    Seq::new(
        (2 * SIDE * SIDE) as nat,
        |i: int|
            if i % 2 == 0 {
                (Pad { x: ((i / 2) % 8) as u8, y: ((i / 2) / 8) as u8 }).note_number() as u8
            } else {
                cells[(i / 2) / 8][(i / 2) % 8]
            },
    )
}

/// Frames a system-exclusive message.
pub fn sysex_message(msg_type: u8, data: &[u8]) -> (msg: Vec<u8>)
    ensures
        msg@ == sysex(msg_type, data@),
{
    let mut msg_data: Vec<u8> = vec![0xF0, 0x00, 0x20, 0x29, 0x02, 0x18, msg_type];
    let ghost head = msg_data@;
    for i in 0..data.len()
        invariant
            msg_data@ == head + data@.take(i as int),
    {
        msg_data.push(data[i]);
        assert(data@.take(i + 1) =~= data@.take(i as int).push(data@[i as int]));
        assert(msg_data@ =~= head + data@.take(i + 1));
    }
    msg_data.push(0xF7);
    assert(data@.take(data@.len() as int) =~= data@);
    assert(msg_data@ =~= sysex(msg_type, data@));
    msg_data
}

/// The message that switches every pad off.
pub fn clear_message() -> (msg: Vec<u8>)
    ensures
        msg@ == sysex(LIGHT_ALL, seq![0u8]),
{
    let data: [u8; 1] = [0];
    assert(data@ =~= seq![0u8]);
    sysex_message(LIGHT_ALL, &data)
}

/// The message that lights the pad of `note` in the colour `velocity`.
pub fn note_message(note: u8, velocity: u8) -> (msg: Vec<u8>)
    ensures
        msg@ == sysex(LIGHT_PADS, seq![note, velocity]),
{
    let data: [u8; 2] = [note, velocity];
    assert(data@ =~= seq![note, velocity]);
    sysex_message(LIGHT_PADS, &data)
}

/// The message that paints the pads with the lowest eight rows and the
/// first eight columns of a grid. The grid has to have that many.
pub fn matrix_message(matrix: &Array2D<u8>) -> (msg: Vec<u8>)
    requires
        byte_rows(*matrix).len() >= SIDE,
        forall|r: int| 0 <= r < SIDE ==> (#[trigger] byte_rows(*matrix)[r]).len() >= SIDE,
    ensures
        msg@ == sysex(LIGHT_PADS, matrix_data(byte_rows(*matrix))),
{
    let ghost cells = byte_rows(*matrix);
    let mut msg: Vec<u8> = Vec::new();
    for y in 0..8u8
        invariant
            cells == byte_rows(*matrix),
            cells.len() >= SIDE,
            forall|r: int| 0 <= r < SIDE ==> (#[trigger] cells[r]).len() >= SIDE,
            msg@ == matrix_data(cells).take(16 * y),
    {
        for x in 0..8u8
            invariant
                y < 8,
                cells == byte_rows(*matrix),
                cells.len() >= SIDE,
                forall|r: int| 0 <= r < SIDE ==> (#[trigger] cells[r]).len() >= SIDE,
                msg@ == matrix_data(cells).take(16 * y + 2 * x),
        {
            let pad = Pad { x, y };
            msg.push(pad.note());
            msg.push(byte_grid_get(matrix, y as usize, x as usize).unwrap());
            assert(msg@ =~= matrix_data(cells).take(16 * y + 2 * x + 2));
        }
    }
    assert(matrix_data(cells).take(128) =~= matrix_data(cells));
    sysex_message(LIGHT_PADS, msg.as_slice())
}

} // verus!
