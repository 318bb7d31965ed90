//! The keypad grid: its dimensions, the key at each cell, and the integer
//! message that carries a cell from the scanner to the application.

use crate::key::Key;
use vstd::prelude::*;

verus! {

/// Number of row lines of the keypad matrix.
pub const ROWS: usize = 4;

/// Number of column lines of the keypad matrix.
pub const COLS: usize = 5;

/// A message holds the row above this many low bits and the column in them.
pub const ROW_SHIFT: u32 = 16;

/// The value of the lowest row bit of a message.
pub const ROW_UNIT: u32 = 0x1_0000;

/// A cell of the keypad matrix.
#[derive(Debug, Copy, Clone, PartialEq, Eq, Structural)]
pub struct Coordinate {
    pub row: usize,
    pub col: usize,
}

/// Whether `(row, col)` names a cell of the grid.
pub open spec fn in_grid(row: int, col: int) -> bool {
    0 <= row < ROWS && 0 <= col < COLS
}

/// The legends of the keypad, row by row.
pub open spec fn layout_rows() -> Seq<Seq<Key>> {
    seq![
        seq![Key::D7, Key::D8, Key::D9, Key::Backspace, Key::Dot],
        seq![Key::D4, Key::D5, Key::D6, Key::Add, Key::Sub],
        seq![Key::D1, Key::D2, Key::D3, Key::Mul, Key::Div],
        seq![Key::Left, Key::D0, Key::Right, Key::Eq, Key::Fn],
    ]
}

/// The key at a cell of the grid.
pub open spec fn key_layout(row: int, col: int) -> Key
    recommends
        in_grid(row, col),
{
    layout_rows()[row][col]
}

/// The cell at which a key sits.
pub open spec fn cell_of(key: Key) -> (int, int) {
    match key {
        Key::D7 => (0, 0),
        Key::D8 => (0, 1),
        Key::D9 => (0, 2),
        Key::Backspace => (0, 3),
        Key::Dot => (0, 4),
        Key::D4 => (1, 0),
        Key::D5 => (1, 1),
        Key::D6 => (1, 2),
        Key::Add => (1, 3),
        Key::Sub => (1, 4),
        Key::D1 => (2, 0),
        Key::D2 => (2, 1),
        Key::D3 => (2, 2),
        Key::Mul => (2, 3),
        Key::Div => (2, 4),
        Key::Left => (3, 0),
        Key::D0 => (3, 1),
        Key::Right => (3, 2),
        Key::Eq => (3, 3),
        Key::Fn => (3, 4),
    }
}

/// The message that carries the cell `(row, col)`: the row in the high bits,
/// the column in the low sixteen.
pub open spec fn message_of(row: int, col: int) -> int {
    row * ROW_UNIT + col
}

/// The row that a message carries.
pub open spec fn message_row(msg: int) -> int {
    msg / (ROW_UNIT as int)
}

/// The column that a message carries.
pub open spec fn message_col(msg: int) -> int {
    msg % (ROW_UNIT as int)
}

/// Whether a message carries a cell of the grid.
pub open spec fn legal_message(msg: int) -> bool {
    in_grid(message_row(msg), message_col(msg))
}

/// The key that a legal message stands for.
pub open spec fn message_key(msg: int) -> Key
    recommends
        legal_message(msg),
{
    key_layout(message_row(msg), message_col(msg))
}

impl Coordinate {
    /// Whether the coordinate names a cell of the grid.
    pub open spec fn valid(self) -> bool {
        in_grid(self.row as int, self.col as int)
    }

    /// The coordinate `(row, col)`, if it lies in the grid.
    pub fn new(row: usize, col: usize) -> (c: Option<Coordinate>)
        ensures
            c is Some <==> in_grid(row as int, col as int),
            c is Some ==> c == Some(Coordinate { row, col }),
    {
        if row < ROWS && col < COLS {
            Some(Coordinate { row, col })
        } else {
            None
        }
    }

    /// The key at this coordinate, if it lies in the grid.
    pub fn key(&self) -> (k: Option<Key>)
        ensures
            k is Some <==> self.valid(),
            self.valid() ==> k == Some(key_layout(self.row as int, self.col as int)),
    {
        key_at(self.row, self.col)
    }

    /// The message that carries this coordinate, if it lies in the grid.
    pub fn encode(&self) -> (m: Option<u32>)
        ensures
            m is Some <==> self.valid(),
            self.valid() ==> m == Some(message_of(self.row as int, self.col as int) as u32),
    {
        encode(self.row, self.col)
    }
}

/// The key at `(row, col)`: defined exactly on the cells of the grid.
pub fn key_at(row: usize, col: usize) -> (k: Option<Key>)
    ensures
        k is Some <==> in_grid(row as int, col as int),
        in_grid(row as int, col as int) ==> k == Some(key_layout(row as int, col as int)),
{
    match (row, col) {
        (0, 0) => Some(Key::D7),
        (0, 1) => Some(Key::D8),
        (0, 2) => Some(Key::D9),
        (0, 3) => Some(Key::Backspace),
        (0, 4) => Some(Key::Dot),
        (1, 0) => Some(Key::D4),
        (1, 1) => Some(Key::D5),
        (1, 2) => Some(Key::D6),
        (1, 3) => Some(Key::Add),
        (1, 4) => Some(Key::Sub),
        (2, 0) => Some(Key::D1),
        (2, 1) => Some(Key::D2),
        (2, 2) => Some(Key::D3),
        (2, 3) => Some(Key::Mul),
        (2, 4) => Some(Key::Div),
        (3, 0) => Some(Key::Left),
        (3, 1) => Some(Key::D0),
        (3, 2) => Some(Key::Right),
        (3, 3) => Some(Key::Eq),
        (3, 4) => Some(Key::Fn),
        _ => None,
    }
}

/// The coordinate at which a key sits.
pub fn coordinate_of(key: Key) -> (c: Coordinate)
    ensures
        c.valid(),
        (c.row as int, c.col as int) == cell_of(key),
        key_layout(c.row as int, c.col as int) == key,
{
    match key {
        Key::D7 => Coordinate { row: 0, col: 0 },
        Key::D8 => Coordinate { row: 0, col: 1 },
        Key::D9 => Coordinate { row: 0, col: 2 },
        Key::Backspace => Coordinate { row: 0, col: 3 },
        Key::Dot => Coordinate { row: 0, col: 4 },
        Key::D4 => Coordinate { row: 1, col: 0 },
        Key::D5 => Coordinate { row: 1, col: 1 },
        Key::D6 => Coordinate { row: 1, col: 2 },
        Key::Add => Coordinate { row: 1, col: 3 },
        Key::Sub => Coordinate { row: 1, col: 4 },
        Key::D1 => Coordinate { row: 2, col: 0 },
        Key::D2 => Coordinate { row: 2, col: 1 },
        Key::D3 => Coordinate { row: 2, col: 2 },
        Key::Mul => Coordinate { row: 2, col: 3 },
        Key::Div => Coordinate { row: 2, col: 4 },
        Key::Left => Coordinate { row: 3, col: 0 },
        Key::D0 => Coordinate { row: 3, col: 1 },
        Key::Right => Coordinate { row: 3, col: 2 },
        Key::Eq => Coordinate { row: 3, col: 3 },
        Key::Fn => Coordinate { row: 3, col: 4 },
    }
}

/// The message for `(row, col)`: defined exactly on the cells of the grid.
pub fn encode(row: usize, col: usize) -> (m: Option<u32>)
    ensures
        m is Some <==> in_grid(row as int, col as int),
        in_grid(row as int, col as int) ==> m == Some(message_of(row as int, col as int) as u32),
        m is Some ==> legal_message(m->0 as int),
{
    if row < ROWS && col < COLS {
        let r: u32 = row as u32;
        let c: u32 = col as u32;
        assert(c | (r << 16) == r * 0x1_0000 + c) by (bit_vector)
            requires
                r < 4,
                c < 5,
        ;
        proof {
            lemma_round_trip(row as int, col as int);
        }
        Some(c | (r << ROW_SHIFT))
    } else {
        None
    }
}

/// The coordinate that a message carries, if it is a cell of the grid.
pub fn decode(msg: u32) -> (c: Option<Coordinate>)
    ensures
        c is Some <==> legal_message(msg as int),
        legal_message(msg as int) ==> c == Some(
            Coordinate { row: message_row(msg as int) as usize, col: message_col(msg as int) as usize },
        ),
{
    assert(msg >> 16 == msg / 0x1_0000) by (bit_vector);
    assert(msg & 0xFFFF == msg % 0x1_0000) by (bit_vector);
    let row: usize = (msg >> ROW_SHIFT) as usize;
    let col: usize = (msg & 0xFFFF) as usize;
    Coordinate::new(row, col)
}

/// The key that a message stands for, if the message is legal.
pub fn decode_key(msg: u32) -> (k: Option<Key>)
    ensures
        k is Some <==> legal_message(msg as int),
        legal_message(msg as int) ==> k == Some(message_key(msg as int)),
{
    match decode(msg) {
        Some(c) => key_at(c.row, c.col),
        None => None,
    }
}

/// Encoding a cell of the grid and decoding the message gives the cell back.
pub proof fn lemma_round_trip(row: int, col: int)
    requires
        in_grid(row, col),
    ensures
        0 <= message_of(row, col) <= u32::MAX,
        legal_message(message_of(row, col)),
        message_row(message_of(row, col)) == row,
        message_col(message_of(row, col)) == col,
{
}

/// A legal message is the encoding of the cell that it decodes to, so no two
/// messages stand for one cell.
pub proof fn lemma_decode_then_encode(msg: int)
    requires
        legal_message(msg),
    ensures
        message_of(message_row(msg), message_col(msg)) == msg,
{
}

/// The layout is total and one to one: every cell holds a key, and every key
/// sits at exactly one cell.
pub proof fn lemma_layout_one_to_one(row: int, col: int, key: Key)
    ensures
        in_grid(cell_of(key).0, cell_of(key).1),
        key_layout(cell_of(key).0, cell_of(key).1) == key,
        in_grid(row, col) ==> cell_of(key_layout(row, col)) == (row, col),
        in_grid(row, col) && key_layout(row, col) == key ==> cell_of(key) == (row, col),
{
}

} // verus!
