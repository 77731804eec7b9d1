use vstd::prelude::*;

verus! {

/// The seven tetrominoes, in the order of their numeric codes 0..=6.
#[derive(Debug, Clone, Copy, PartialEq, Eq, Structural)]
pub enum Piece {
    I,
    O,
    T,
    S,
    Z,
    J,
    L,
}

/// Rotation states, in the order of their numeric codes 0..=3.
#[derive(Debug, Clone, Copy, PartialEq, Eq, Structural)]
pub enum Rot {
    R0,
    R90,
    R180,
    R270,
}

#[derive(Debug, Clone, Copy)]
pub struct Vec2 {
    pub x: i8,
    pub y: i8,
}

/// Numeric code of a piece (0..=6).
pub open spec fn piece_code(p: Piece) -> nat {
    match p {
        Piece::I => 0,
        Piece::O => 1,
        Piece::T => 2,
        Piece::S => 3,
        Piece::Z => 4,
        Piece::J => 5,
        Piece::L => 6,
    }
}

/// The piece with a given numeric code; codes outside 0..=6 denote `I`.
pub open spec fn piece_of_code(v: int) -> Piece {
    if v == 1 {
        Piece::O
    } else if v == 2 {
        Piece::T
    } else if v == 3 {
        Piece::S
    } else if v == 4 {
        Piece::Z
    } else if v == 5 {
        Piece::J
    } else if v == 6 {
        Piece::L
    } else {
        Piece::I
    }
}

/// Numeric code of a rotation (0..=3).
pub open spec fn rot_code(r: Rot) -> nat {
    match r {
        Rot::R0 => 0,
        Rot::R90 => 1,
        Rot::R180 => 2,
        Rot::R270 => 3,
    }
}

/// The rotation with a given code, taken modulo 4.
pub open spec fn rot_of_code(v: int) -> Rot {
    let m = v % 4;
    if m == 1 {
        Rot::R90
    } else if m == 2 {
        Rot::R180
    } else if m == 3 {
        Rot::R270
    } else {
        Rot::R0
    }
}

impl Piece {
    /// The numeric code of this piece.
    pub fn to_u8(self) -> (r: u8)
        ensures
            r == piece_code(self),
    {
        match self {
            Piece::I => 0,
            Piece::O => 1,
            Piece::T => 2,
            Piece::S => 3,
            Piece::Z => 4,
            Piece::J => 5,
            Piece::L => 6,
        }
    }

    /// Decodes a numeric piece code; unknown codes give `I`.
    pub fn from_u8(v: u8) -> (r: Piece)
        ensures
            r == piece_of_code(v as int),
            v < 7 ==> piece_code(r) == v,
    {
        match v {
            0 => Piece::I,
            1 => Piece::O,
            2 => Piece::T,
            3 => Piece::S,
            4 => Piece::Z,
            5 => Piece::J,
            6 => Piece::L,
            _ => Piece::I,
        }
    }
}

impl Rot {
    /// The numeric code of this rotation.
    pub fn to_u8(self) -> (r: u8)
        ensures
            r == rot_code(self),
    {
        match self {
            Rot::R0 => 0,
            Rot::R90 => 1,
            Rot::R180 => 2,
            Rot::R270 => 3,
        }
    }
}

/// Decoding a piece's own code gives the piece back.
pub proof fn lemma_piece_code_round_trip(p: Piece)
    ensures
        piece_of_code(piece_code(p) as int) == p,
        piece_code(p) < 7,
{
}

/// Decoding a rotation's own code gives the rotation back.
pub proof fn lemma_rot_code_round_trip(r: Rot)
    ensures
        rot_of_code(rot_code(r) as int) == r,
        rot_code(r) < 4,
{
}

} // verus!
