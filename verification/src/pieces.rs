//! Static piece definitions: the seven tetromino types, their per-rotation
//! cell offsets relative to the pivot, and the SRS wall-kick tables.

use vstd::prelude::*;

verus! {

/// The seven tetromino types.
#[derive(Clone, Copy, Debug, PartialEq, Eq, Structural)]
pub enum TetrominoType {
    I,
    J,
    L,
    O,
    S,
    T,
    Z,
}

/// The four cell offsets, relative to the pivot, of a piece of type `t` in
/// rotation state `rot` (meaningful for `rot` in 0..4).
pub open spec fn spec_offsets(t: TetrominoType, rot: int) -> Seq<(i32, i32)> {
    match t {
        TetrominoType::I => {
            if rot == 0 {
                seq![(-1i32, 0i32), (0i32, 0i32), (1i32, 0i32), (2i32, 0i32)]
            } else if rot == 1 {
                seq![(1i32, 1i32), (1i32, 0i32), (1i32, -1i32), (1i32, -2i32)]
            } else if rot == 2 {
                seq![(-1i32, -1i32), (0i32, -1i32), (1i32, -1i32), (2i32, -1i32)]
            } else {
                seq![(0i32, 1i32), (0i32, 0i32), (0i32, -1i32), (0i32, -2i32)]
            }
        },
        TetrominoType::J => {
            if rot == 0 {
                seq![(-1i32, 1i32), (-1i32, 0i32), (0i32, 0i32), (1i32, 0i32)]
            } else if rot == 1 {
                seq![(1i32, 1i32), (0i32, 1i32), (0i32, 0i32), (0i32, -1i32)]
            } else if rot == 2 {
                seq![(-1i32, 0i32), (0i32, 0i32), (1i32, 0i32), (1i32, -1i32)]
            } else {
                seq![(0i32, 1i32), (0i32, 0i32), (0i32, -1i32), (-1i32, -1i32)]
            }
        },
        TetrominoType::L => {
            if rot == 0 {
                seq![(-1i32, 0i32), (0i32, 0i32), (1i32, 0i32), (1i32, 1i32)]
            } else if rot == 1 {
                seq![(0i32, 1i32), (0i32, 0i32), (0i32, -1i32), (1i32, -1i32)]
            } else if rot == 2 {
                seq![(-1i32, -1i32), (-1i32, 0i32), (0i32, 0i32), (1i32, 0i32)]
            } else {
                seq![(-1i32, 1i32), (0i32, 1i32), (0i32, 0i32), (0i32, -1i32)]
            }
        },
        TetrominoType::O => seq![(0i32, 0i32), (1i32, 0i32), (0i32, 1i32), (1i32, 1i32)],
        TetrominoType::S => {
            if rot == 0 {
                seq![(-1i32, 0i32), (0i32, 0i32), (0i32, 1i32), (1i32, 1i32)]
            } else if rot == 1 {
                seq![(0i32, 1i32), (0i32, 0i32), (1i32, 0i32), (1i32, -1i32)]
            } else if rot == 2 {
                seq![(-1i32, -1i32), (0i32, -1i32), (0i32, 0i32), (1i32, 0i32)]
            } else {
                seq![(-1i32, 1i32), (-1i32, 0i32), (0i32, 0i32), (0i32, -1i32)]
            }
        },
        TetrominoType::T => {
            if rot == 0 {
                seq![(-1i32, 0i32), (0i32, 0i32), (1i32, 0i32), (0i32, 1i32)]
            } else if rot == 1 {
                seq![(0i32, 1i32), (0i32, 0i32), (0i32, -1i32), (1i32, 0i32)]
            } else if rot == 2 {
                seq![(-1i32, 0i32), (0i32, 0i32), (1i32, 0i32), (0i32, -1i32)]
            } else {
                seq![(0i32, 1i32), (0i32, 0i32), (0i32, -1i32), (-1i32, 0i32)]
            }
        },
        TetrominoType::Z => {
            if rot == 0 {
                seq![(-1i32, 1i32), (0i32, 1i32), (0i32, 0i32), (1i32, 0i32)]
            } else if rot == 1 {
                seq![(1i32, 1i32), (1i32, 0i32), (0i32, 0i32), (0i32, -1i32)]
            } else if rot == 2 {
                seq![(-1i32, 0i32), (0i32, 0i32), (0i32, -1i32), (1i32, -1i32)]
            } else {
                seq![(0i32, 1i32), (0i32, 0i32), (-1i32, 0i32), (-1i32, -1i32)]
            }
        },
    }
}

/// The spawn-orientation offsets used for piece previews (the same cells as
/// rotation state 0, in a fixed listing order).
pub open spec fn spec_default_offsets(t: TetrominoType) -> Seq<(i32, i32)> {
    match t {
        TetrominoType::I => seq![(0i32, 0i32), (-1i32, 0i32), (1i32, 0i32), (2i32, 0i32)],
        TetrominoType::J => seq![(0i32, 0i32), (-1i32, 0i32), (1i32, 0i32), (-1i32, 1i32)],
        TetrominoType::L => seq![(0i32, 0i32), (-1i32, 0i32), (1i32, 0i32), (1i32, 1i32)],
        TetrominoType::O => seq![(0i32, 0i32), (1i32, 0i32), (0i32, 1i32), (1i32, 1i32)],
        TetrominoType::S => seq![(0i32, 0i32), (-1i32, 0i32), (0i32, 1i32), (1i32, 1i32)],
        TetrominoType::T => seq![(0i32, 0i32), (-1i32, 0i32), (1i32, 0i32), (0i32, 1i32)],
        TetrominoType::Z => seq![(0i32, 0i32), (1i32, 0i32), (0i32, 1i32), (-1i32, 1i32)],
    }
}

/// The SRS kick table: the ordered pivot corrections to try when rotating a
/// piece of type `t` from rotation state `from` to `to`. The first candidate
/// is always `(0, 0)`.
pub open spec fn spec_kicks(t: TetrominoType, from: int, to: int) -> Seq<(i32, i32)> {
    match t {
        TetrominoType::O => seq![(0i32, 0i32)],
        TetrominoType::I => {
            if from == 0 && to == 1 {
                seq![(0i32, 0i32), (-2i32, 0i32), (1i32, 0i32), (-2i32, -1i32), (1i32, 2i32)]
            } else if from == 1 && to == 0 {
                seq![(0i32, 0i32), (2i32, 0i32), (-1i32, 0i32), (2i32, 1i32), (-1i32, -2i32)]
            } else if from == 1 && to == 2 {
                seq![(0i32, 0i32), (-1i32, 0i32), (2i32, 0i32), (-1i32, 2i32), (2i32, -1i32)]
            } else if from == 2 && to == 1 {
                seq![(0i32, 0i32), (1i32, 0i32), (-2i32, 0i32), (1i32, -2i32), (-2i32, 1i32)]
            } else if from == 2 && to == 3 {
                seq![(0i32, 0i32), (2i32, 0i32), (-1i32, 0i32), (2i32, 1i32), (-1i32, -2i32)]
            } else if from == 3 && to == 2 {
                seq![(0i32, 0i32), (-2i32, 0i32), (1i32, 0i32), (-2i32, -1i32), (1i32, 2i32)]
            } else if from == 3 && to == 0 {
                seq![(0i32, 0i32), (1i32, 0i32), (-2i32, 0i32), (1i32, -2i32), (-2i32, 1i32)]
            } else if from == 0 && to == 3 {
                seq![(0i32, 0i32), (-1i32, 0i32), (2i32, 0i32), (-1i32, 2i32), (2i32, -1i32)]
            } else {
                seq![(0i32, 0i32)]
            }
        },
        _ => {
            if from == 0 && to == 1 {
                seq![(0i32, 0i32), (-1i32, 0i32), (-1i32, 1i32), (0i32, -2i32), (-1i32, -2i32)]
            } else if from == 1 && to == 0 {
                seq![(0i32, 0i32), (1i32, 0i32), (1i32, -1i32), (0i32, 2i32), (1i32, 2i32)]
            } else if from == 1 && to == 2 {
                seq![(0i32, 0i32), (1i32, 0i32), (1i32, -1i32), (0i32, 2i32), (1i32, 2i32)]
            } else if from == 2 && to == 1 {
                seq![(0i32, 0i32), (-1i32, 0i32), (-1i32, 1i32), (0i32, -2i32), (-1i32, -2i32)]
            } else if from == 2 && to == 3 {
                seq![(0i32, 0i32), (1i32, 0i32), (1i32, 1i32), (0i32, -2i32), (1i32, -2i32)]
            } else if from == 3 && to == 2 {
                seq![(0i32, 0i32), (-1i32, 0i32), (-1i32, -1i32), (0i32, 2i32), (-1i32, 2i32)]
            } else if from == 3 && to == 0 {
                seq![(0i32, 0i32), (-1i32, 0i32), (-1i32, -1i32), (0i32, 2i32), (-1i32, 2i32)]
            } else if from == 0 && to == 3 {
                seq![(0i32, 0i32), (1i32, 0i32), (1i32, 1i32), (0i32, -2i32), (1i32, -2i32)]
            } else {
                seq![(0i32, 0i32)]
            }
        },
    }
}

impl TetrominoType {
    /// The offsets of this piece in rotation state `rotation % 4`.
    pub fn get_offsets_for_rotation(&self, rotation: usize) -> (r: Vec<(i32, i32)>)
        ensures
            r@ == spec_offsets(*self, (rotation % 4) as int),
    {
        let rot = rotation % 4;
        match self {
            TetrominoType::I => {
                if rot == 0 {
                    quad((-1, 0), (0, 0), (1, 0), (2, 0))
                } else if rot == 1 {
                    quad((1, 1), (1, 0), (1, -1), (1, -2))
                } else if rot == 2 {
                    quad((-1, -1), (0, -1), (1, -1), (2, -1))
                } else {
                    quad((0, 1), (0, 0), (0, -1), (0, -2))
                }
            },
            TetrominoType::J => {
                if rot == 0 {
                    quad((-1, 1), (-1, 0), (0, 0), (1, 0))
                } else if rot == 1 {
                    quad((1, 1), (0, 1), (0, 0), (0, -1))
                } else if rot == 2 {
                    quad((-1, 0), (0, 0), (1, 0), (1, -1))
                } else {
                    quad((0, 1), (0, 0), (0, -1), (-1, -1))
                }
            },
            TetrominoType::L => {
                if rot == 0 {
                    quad((-1, 0), (0, 0), (1, 0), (1, 1))
                } else if rot == 1 {
                    quad((0, 1), (0, 0), (0, -1), (1, -1))
                } else if rot == 2 {
                    quad((-1, -1), (-1, 0), (0, 0), (1, 0))
                } else {
                    quad((-1, 1), (0, 1), (0, 0), (0, -1))
                }
            },
            TetrominoType::O => quad((0, 0), (1, 0), (0, 1), (1, 1)),
            TetrominoType::S => {
                if rot == 0 {
                    quad((-1, 0), (0, 0), (0, 1), (1, 1))
                } else if rot == 1 {
                    quad((0, 1), (0, 0), (1, 0), (1, -1))
                } else if rot == 2 {
                    quad((-1, -1), (0, -1), (0, 0), (1, 0))
                } else {
                    quad((-1, 1), (-1, 0), (0, 0), (0, -1))
                }
            },
            TetrominoType::T => {
                if rot == 0 {
                    quad((-1, 0), (0, 0), (1, 0), (0, 1))
                } else if rot == 1 {
                    quad((0, 1), (0, 0), (0, -1), (1, 0))
                } else if rot == 2 {
                    quad((-1, 0), (0, 0), (1, 0), (0, -1))
                } else {
                    quad((0, 1), (0, 0), (0, -1), (-1, 0))
                }
            },
            TetrominoType::Z => {
                if rot == 0 {
                    quad((-1, 1), (0, 1), (0, 0), (1, 0))
                } else if rot == 1 {
                    quad((1, 1), (1, 0), (0, 0), (0, -1))
                } else if rot == 2 {
                    quad((-1, 0), (0, 0), (0, -1), (1, -1))
                } else {
                    quad((0, 1), (0, 0), (-1, 0), (-1, -1))
                }
            },
        }
    }

    /// The spawn-orientation offsets used for piece previews.
    pub fn get_offsets(&self) -> (r: Vec<(i32, i32)>)
        ensures
            r@ == spec_default_offsets(*self),
    {
        match self {
            TetrominoType::I => quad((0, 0), (-1, 0), (1, 0), (2, 0)),
            TetrominoType::J => quad((0, 0), (-1, 0), (1, 0), (-1, 1)),
            TetrominoType::L => quad((0, 0), (-1, 0), (1, 0), (1, 1)),
            TetrominoType::O => quad((0, 0), (1, 0), (0, 1), (1, 1)),
            TetrominoType::S => quad((0, 0), (-1, 0), (0, 1), (1, 1)),
            TetrominoType::T => quad((0, 0), (-1, 0), (1, 0), (0, 1)),
            TetrominoType::Z => quad((0, 0), (1, 0), (0, 1), (-1, 1)),
        }
    }

    /// The ordered kick candidates for rotating this piece from rotation
    /// state `old_rot % 4` to `new_rot % 4`.
    pub fn get_srs_kicks(&self, old_rot: usize, new_rot: usize) -> (r: Vec<(i32, i32)>)
        ensures
            r@ == spec_kicks(*self, (old_rot % 4) as int, (new_rot % 4) as int),
    {
        let ko = old_rot % 4;
        let kn = new_rot % 4;
        match self {
            TetrominoType::O => single((0, 0)),
            TetrominoType::I => {
                if ko == 0 && kn == 1 {
                    quint((0, 0), (-2, 0), (1, 0), (-2, -1), (1, 2))
                } else if ko == 1 && kn == 0 {
                    quint((0, 0), (2, 0), (-1, 0), (2, 1), (-1, -2))
                } else if ko == 1 && kn == 2 {
                    quint((0, 0), (-1, 0), (2, 0), (-1, 2), (2, -1))
                } else if ko == 2 && kn == 1 {
                    quint((0, 0), (1, 0), (-2, 0), (1, -2), (-2, 1))
                } else if ko == 2 && kn == 3 {
                    quint((0, 0), (2, 0), (-1, 0), (2, 1), (-1, -2))
                } else if ko == 3 && kn == 2 {
                    quint((0, 0), (-2, 0), (1, 0), (-2, -1), (1, 2))
                } else if ko == 3 && kn == 0 {
                    quint((0, 0), (1, 0), (-2, 0), (1, -2), (-2, 1))
                } else if ko == 0 && kn == 3 {
                    quint((0, 0), (-1, 0), (2, 0), (-1, 2), (2, -1))
                } else {
                    single((0, 0))
                }
            },
            _ => {
                if ko == 0 && kn == 1 {
                    quint((0, 0), (-1, 0), (-1, 1), (0, -2), (-1, -2))
                } else if ko == 1 && kn == 0 {
                    quint((0, 0), (1, 0), (1, -1), (0, 2), (1, 2))
                } else if ko == 1 && kn == 2 {
                    quint((0, 0), (1, 0), (1, -1), (0, 2), (1, 2))
                } else if ko == 2 && kn == 1 {
                    quint((0, 0), (-1, 0), (-1, 1), (0, -2), (-1, -2))
                } else if ko == 2 && kn == 3 {
                    quint((0, 0), (1, 0), (1, 1), (0, -2), (1, -2))
                } else if ko == 3 && kn == 2 {
                    quint((0, 0), (-1, 0), (-1, -1), (0, 2), (-1, 2))
                } else if ko == 3 && kn == 0 {
                    quint((0, 0), (-1, 0), (-1, -1), (0, 2), (-1, 2))
                } else if ko == 0 && kn == 3 {
                    quint((0, 0), (1, 0), (1, 1), (0, -2), (1, -2))
                } else {
                    single((0, 0))
                }
            },
        }
    }
}

/// Builds a one-element offset list.
fn single(a: (i32, i32)) -> (r: Vec<(i32, i32)>)
    ensures
        r@ == seq![a],
{
    let mut v: Vec<(i32, i32)> = Vec::new();
    v.push(a);
    proof {
        assert(v@ =~= seq![a]);
    }
    v
}

/// Builds a four-element offset list.
fn quad(a: (i32, i32), b: (i32, i32), c: (i32, i32), d: (i32, i32)) -> (r: Vec<(i32, i32)>)
    ensures
        r@ == seq![a, b, c, d],
{
    let mut v: Vec<(i32, i32)> = Vec::new();
    v.push(a);
    v.push(b);
    v.push(c);
    v.push(d);
    proof {
        assert(v@ =~= seq![a, b, c, d]);
    }
    v
}

/// Builds a five-element kick list.
fn quint(a: (i32, i32), b: (i32, i32), c: (i32, i32), d: (i32, i32), e: (i32, i32)) -> (r: Vec<
    (i32, i32),
>)
    ensures
        r@ == seq![a, b, c, d, e],
{
    let mut v: Vec<(i32, i32)> = Vec::new();
    v.push(a);
    v.push(b);
    v.push(c);
    v.push(d);
    v.push(e);
    proof {
        assert(v@ =~= seq![a, b, c, d, e]);
    }
    v
}

/// Every cell offset lies within two cells of the pivot, in both axes.
pub proof fn lemma_offsets_in_range(t: TetrominoType, rot: int)
    ensures
        spec_offsets(t, rot).len() == 4,
        forall|i: int|
            0 <= i < 4 ==> {
                let off = #[trigger] spec_offsets(t, rot)[i];
                -2 <= off.0 <= 2 && -2 <= off.1 <= 2
            },
{
}

/// The four cell offsets of every rotation state are pairwise distinct, so a
/// piece always occupies four distinct cells.
pub proof fn lemma_offsets_distinct(t: TetrominoType, rot: int)
    ensures
        forall|i: int, j: int|
            #![trigger spec_offsets(t, rot)[i], spec_offsets(t, rot)[j]]
            0 <= i < j < 4 ==> spec_offsets(t, rot)[i] != spec_offsets(t, rot)[j],
{
}

/// Every kick table is non-empty, starts with the identity correction
/// `(0, 0)`, and corrects the pivot by at most two cells in each axis.
pub proof fn lemma_kicks_shape(t: TetrominoType, from: int, to: int)
    ensures
        spec_kicks(t, from, to).len() >= 1,
        spec_kicks(t, from, to)[0] == (0i32, 0i32),
        forall|i: int|
            0 <= i < spec_kicks(t, from, to).len() ==> {
                let kick = #[trigger] spec_kicks(t, from, to)[i];
                -2 <= kick.0 <= 2 && -2 <= kick.1 <= 2
            },
{
}

} // verus!
