use vstd::prelude::*;

verus! {

/// The seven piece identities.
#[derive(Clone, Copy, Debug, PartialEq, Eq, Structural)]
pub enum TetrominoType {
    I,
    O,
    T,
    S,
    Z,
    J,
    L,
}

/// Every identity, in catalog order.
pub open spec fn all_types() -> Seq<TetrominoType> {
    seq![
        TetrominoType::I,
        TetrominoType::O,
        TetrominoType::T,
        TetrominoType::S,
        TetrominoType::Z,
        TetrominoType::J,
        TetrominoType::L,
    ]
}

/// The spawn orientation of each identity, as rows of occupancy flags.
pub open spec fn shape_of(t: TetrominoType) -> Seq<Seq<bool>> {
    match t {
        TetrominoType::I => seq![seq![true, true, true, true]],
        TetrominoType::O => seq![seq![true, true], seq![true, true]],
        TetrominoType::T => seq![seq![false, true, false], seq![true, true, true]],
        TetrominoType::S => seq![seq![false, true, true], seq![true, true, false]],
        TetrominoType::Z => seq![seq![true, true, false], seq![false, true, true]],
        TetrominoType::J => seq![seq![true, false, false], seq![true, true, true]],
        TetrominoType::L => seq![seq![false, false, true], seq![true, true, true]],
    }
}

/// The rows of a matrix of flags, each row viewed as a sequence.
pub open spec fn matrix_view(m: Seq<Vec<bool>>) -> Seq<Seq<bool>> {
    m.map_values(|row: Vec<bool>| row@)
}

impl TetrominoType {
    /// The seven identities in catalog order.
    pub fn all() -> (r: [TetrominoType; 7])
        ensures
            r@ == all_types(),
    {
        let r = [
            TetrominoType::I,
            TetrominoType::O,
            TetrominoType::T,
            TetrominoType::S,
            TetrominoType::Z,
            TetrominoType::J,
            TetrominoType::L,
        ];
        assert(r@ =~= all_types());
        r
    }

    /// A fresh copy of this identity's spawn orientation.
    pub fn get_shape(&self) -> (r: Vec<Vec<bool>>)
        ensures
            matrix_view(r@) == shape_of(*self),
    {
        let r = match self {
            TetrominoType::I => vec![vec![true, true, true, true]],
            TetrominoType::O => vec![vec![true, true], vec![true, true]],
            TetrominoType::T => vec![vec![false, true, false], vec![true, true, true]],
            TetrominoType::S => vec![vec![false, true, true], vec![true, true, false]],
            TetrominoType::Z => vec![vec![true, true, false], vec![false, true, true]],
            TetrominoType::J => vec![vec![true, false, false], vec![true, true, true]],
            TetrominoType::L => vec![vec![false, false, true], vec![true, true, true]],
        };
        assert(matrix_view(r@) =~= shape_of(*self));
        r
    }
}

} // verus!
