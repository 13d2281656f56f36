//! The piece catalog: the seven tetronimo kinds, the four rotation states,
//! and the occupied-cell bitmask of every (kind, rotation) pair.

use vstd::prelude::*;

verus! {

/// One of the seven tetronimo kinds.
#[derive(Clone, Copy, Debug, PartialEq, Eq, Structural)]
pub enum TetronimoShape {
    IShape,
    JShape,
    LShape,
    OShape,
    SShape,
    TShape,
    ZShape,
}

/// A rotation state; `clockwise` cycles North -> East -> South -> West -> North.
#[derive(Clone, Copy, Debug, PartialEq, Eq, Structural)]
pub enum TetronimoRotation {
    North,
    East,
    South,
    West,
}

impl TetronimoRotation {
    pub open spec fn spec_clockwise(self) -> TetronimoRotation {
        match self {
            TetronimoRotation::North => TetronimoRotation::East,
            TetronimoRotation::East => TetronimoRotation::South,
            TetronimoRotation::South => TetronimoRotation::West,
            TetronimoRotation::West => TetronimoRotation::North,
        }
    }

    /// The next rotation state in clockwise order.
    pub fn clockwise(&self) -> (r: TetronimoRotation)
        ensures
            r == self.spec_clockwise(),
    {
        match self {
            TetronimoRotation::North => TetronimoRotation::East,
            TetronimoRotation::East => TetronimoRotation::South,
            TetronimoRotation::South => TetronimoRotation::West,
            TetronimoRotation::West => TetronimoRotation::North,
        }
    }
}

/// The occupied cells of a (kind, rotation) pair, row-major over a bounding
/// box of `spec_shape_width` columns.
pub open spec fn spec_shape_cells(shape: TetronimoShape, rotation: TetronimoRotation) -> Seq<bool> {
    match shape {
        TetronimoShape::IShape => match rotation {
            TetronimoRotation::North | TetronimoRotation::South => seq![true, true, true, true],
            TetronimoRotation::East | TetronimoRotation::West => seq![true, true, true, true],
        },
        TetronimoShape::JShape => match rotation {
            TetronimoRotation::North => seq![true, true, true, false, false, true],
            TetronimoRotation::East => seq![false, true, false, true, true, true],
            TetronimoRotation::South => seq![true, false, false, true, true, true],
            TetronimoRotation::West => seq![true, true, true, false, true, false],
        },
        TetronimoShape::LShape => match rotation {
            TetronimoRotation::North => seq![false, false, true, true, true, true],
            TetronimoRotation::East => seq![true, false, true, false, true, true],
            TetronimoRotation::South => seq![true, true, true, true, false, false],
            TetronimoRotation::West => seq![true, true, false, true, false, true],
        },
        TetronimoShape::OShape => seq![true, true, true, true],
        TetronimoShape::SShape => match rotation {
            TetronimoRotation::North | TetronimoRotation::South => seq![
                false,
                true,
                true,
                true,
                true,
                false,
            ],
            TetronimoRotation::East | TetronimoRotation::West => seq![
                true,
                false,
                true,
                true,
                false,
                true,
            ],
        },
        TetronimoShape::TShape => match rotation {
            TetronimoRotation::North => seq![false, true, false, true, true, true],
            TetronimoRotation::East => seq![true, false, true, true, true, false],
            TetronimoRotation::South => seq![true, true, true, false, true, false],
            TetronimoRotation::West => seq![false, true, true, true, false, true],
        },
        TetronimoShape::ZShape => match rotation {
            TetronimoRotation::North | TetronimoRotation::South => seq![
                true,
                true,
                false,
                false,
                true,
                true,
            ],
            TetronimoRotation::East | TetronimoRotation::West => seq![
                false,
                true,
                true,
                true,
                true,
                false,
            ],
        },
    }
}

/// The bounding-box width of a (kind, rotation) pair.
pub open spec fn spec_shape_width(shape: TetronimoShape, rotation: TetronimoRotation) -> int {
    match shape {
        TetronimoShape::IShape => match rotation {
            TetronimoRotation::North | TetronimoRotation::South => 1,
            TetronimoRotation::East | TetronimoRotation::West => 4,
        },
        TetronimoShape::OShape => 2,
        _ => match rotation {
            TetronimoRotation::North | TetronimoRotation::South => 3,
            TetronimoRotation::East | TetronimoRotation::West => 2,
        },
    }
}

/// The bounding-box height of a (kind, rotation) pair.
pub open spec fn spec_shape_height(shape: TetronimoShape, rotation: TetronimoRotation) -> int {
    spec_shape_cells(shape, rotation).len() as int / spec_shape_width(shape, rotation)
}

/// Basic facts about every shape table entry: the bounding box is at most
/// 4 by 4, the bitmask fills the box exactly, and the box is tight (its
/// leftmost column, rightmost column and bottom row each hold an occupied
/// cell).
pub proof fn lemma_shape_wf(s: TetronimoShape, r: TetronimoRotation)
    ensures
        1 <= spec_shape_width(s, r) <= 4,
        1 <= spec_shape_height(s, r) <= 4,
        spec_shape_cells(s, r).len() == spec_shape_width(s, r) * spec_shape_height(s, r),
        spec_shape_cells(s, r).len() <= 6,
        exists|o: int|
            0 <= o < spec_shape_cells(s, r).len() && #[trigger] spec_shape_cells(s, r)[o] && o
                % spec_shape_width(s, r) == 0,
        exists|o: int|
            0 <= o < spec_shape_cells(s, r).len() && #[trigger] spec_shape_cells(s, r)[o] && o
                % spec_shape_width(s, r) == spec_shape_width(s, r) - 1,
        exists|o: int|
            0 <= o < spec_shape_cells(s, r).len() && #[trigger] spec_shape_cells(s, r)[o] && o
                / spec_shape_width(s, r) == spec_shape_height(s, r) - 1,
{
    let cells = spec_shape_cells(s, r);
    let w = spec_shape_width(s, r);
    match (s, r) {
        (TetronimoShape::IShape, TetronimoRotation::North)
        | (TetronimoShape::IShape, TetronimoRotation::South) => {
            assert(cells[0] && 0int % w == 0 && 0int % w == w - 1);
            assert(cells[3] && 3int / w == spec_shape_height(s, r) - 1);
        },
        (TetronimoShape::IShape, TetronimoRotation::East)
        | (TetronimoShape::IShape, TetronimoRotation::West) => {
            assert(cells[0] && 0int % w == 0 && 0int / w == spec_shape_height(s, r) - 1);
            assert(cells[3] && 3int % w == w - 1);
        },
        (TetronimoShape::JShape, TetronimoRotation::North) => {
            assert(cells[0] && 0int % w == 0);
            assert(cells[2] && 2int % w == w - 1);
            assert(cells[5] && 5int / w == spec_shape_height(s, r) - 1);
        },
        (TetronimoShape::JShape, TetronimoRotation::East) => {
            assert(cells[4] && 4int % w == 0 && 4int / w == spec_shape_height(s, r) - 1);
            assert(cells[1] && 1int % w == w - 1);
        },
        (TetronimoShape::JShape, TetronimoRotation::South) => {
            assert(cells[0] && 0int % w == 0);
            assert(cells[5] && 5int % w == w - 1);
            assert(cells[3] && 3int / w == spec_shape_height(s, r) - 1);
        },
        (TetronimoShape::JShape, TetronimoRotation::West) => {
            assert(cells[0] && 0int % w == 0);
            assert(cells[1] && 1int % w == w - 1);
            assert(cells[4] && 4int / w == spec_shape_height(s, r) - 1);
        },
        (TetronimoShape::LShape, TetronimoRotation::North) => {
            assert(cells[3] && 3int % w == 0 && 3int / w == spec_shape_height(s, r) - 1);
            assert(cells[2] && 2int % w == w - 1);
        },
        (TetronimoShape::LShape, TetronimoRotation::East) => {
            assert(cells[0] && 0int % w == 0);
            assert(cells[5] && 5int % w == w - 1);
            assert(cells[4] && 4int / w == spec_shape_height(s, r) - 1);
        },
        (TetronimoShape::LShape, TetronimoRotation::South) => {
            assert(cells[0] && 0int % w == 0);
            assert(cells[2] && 2int % w == w - 1);
            assert(cells[3] && 3int / w == spec_shape_height(s, r) - 1);
        },
        (TetronimoShape::LShape, TetronimoRotation::West) => {
            assert(cells[0] && 0int % w == 0);
            assert(cells[1] && 1int % w == w - 1);
            assert(cells[5] && 5int / w == spec_shape_height(s, r) - 1);
        },
        (TetronimoShape::OShape, _) => {
            assert(cells[0] && 0int % w == 0);
            assert(cells[1] && 1int % w == w - 1);
            assert(cells[2] && 2int / w == spec_shape_height(s, r) - 1);
        },
        (TetronimoShape::SShape, TetronimoRotation::North)
        | (TetronimoShape::SShape, TetronimoRotation::South) => {
            assert(cells[3] && 3int % w == 0 && 3int / w == spec_shape_height(s, r) - 1);
            assert(cells[2] && 2int % w == w - 1);
        },
        (TetronimoShape::SShape, TetronimoRotation::East)
        | (TetronimoShape::SShape, TetronimoRotation::West) => {
            assert(cells[0] && 0int % w == 0);
            assert(cells[3] && 3int % w == w - 1);
            assert(cells[5] && 5int / w == spec_shape_height(s, r) - 1);
        },
        (TetronimoShape::TShape, TetronimoRotation::North) => {
            assert(cells[3] && 3int % w == 0 && 3int / w == spec_shape_height(s, r) - 1);
            assert(cells[5] && 5int % w == w - 1);
        },
        (TetronimoShape::TShape, TetronimoRotation::East) => {
            assert(cells[0] && 0int % w == 0);
            assert(cells[3] && 3int % w == w - 1);
            assert(cells[4] && 4int / w == spec_shape_height(s, r) - 1);
        },
        (TetronimoShape::TShape, TetronimoRotation::South) => {
            assert(cells[0] && 0int % w == 0);
            assert(cells[2] && 2int % w == w - 1);
            assert(cells[4] && 4int / w == spec_shape_height(s, r) - 1);
        },
        (TetronimoShape::TShape, TetronimoRotation::West) => {
            assert(cells[2] && 2int % w == 0);
            assert(cells[1] && 1int % w == w - 1);
            assert(cells[5] && 5int / w == spec_shape_height(s, r) - 1);
        },
        (TetronimoShape::ZShape, TetronimoRotation::North)
        | (TetronimoShape::ZShape, TetronimoRotation::South) => {
            assert(cells[0] && 0int % w == 0);
            assert(cells[5] && 5int % w == w - 1);
            assert(cells[4] && 4int / w == spec_shape_height(s, r) - 1);
        },
        (TetronimoShape::ZShape, TetronimoRotation::East)
        | (TetronimoShape::ZShape, TetronimoRotation::West) => {
            assert(cells[2] && 2int % w == 0);
            assert(cells[1] && 1int % w == w - 1);
            assert(cells[4] && 4int / w == spec_shape_height(s, r) - 1);
        },
    }
}

/// The kind drawn for a uniformly random index below 7.
pub open spec fn spec_shape_from_index(i: u8) -> TetronimoShape {
    if i == 0 {
        TetronimoShape::IShape
    } else if i == 1 {
        TetronimoShape::JShape
    } else if i == 2 {
        TetronimoShape::LShape
    } else if i == 3 {
        TetronimoShape::OShape
    } else if i == 4 {
        TetronimoShape::SShape
    } else if i == 5 {
        TetronimoShape::TShape
    } else {
        TetronimoShape::ZShape
    }
}

/// The inverse of `spec_shape_from_index` on indices below 7.
pub open spec fn spec_index_of_shape(s: TetronimoShape) -> u8 {
    match s {
        TetronimoShape::IShape => 0,
        TetronimoShape::JShape => 1,
        TetronimoShape::LShape => 2,
        TetronimoShape::OShape => 3,
        TetronimoShape::SShape => 4,
        TetronimoShape::TShape => 5,
        TetronimoShape::ZShape => 6,
    }
}

/// Law: the index-to-kind table used for random spawning is a bijection
/// between the indices 0 through 6 and the seven kinds, so a uniformly drawn
/// index yields each kind with probability exactly one in seven.
pub proof fn lemma_shape_from_index_bijective()
    ensures
        forall|i: u8|
            i < 7 ==> spec_index_of_shape(#[trigger] spec_shape_from_index(i)) == i,
        forall|s: TetronimoShape|
            spec_shape_from_index(#[trigger] spec_index_of_shape(s)) == s && spec_index_of_shape(s)
                < 7,
{
}

/// Relies on rand::Rng::gen_range over the range 0..7: a sample from the
/// uniform distribution over that range, so the result is below 7 and each
/// value has equal probability.
#[verifier::external_body]
fn random_index() -> (r: u8)
    ensures
        r < 7,
{
    rand::Rng::gen_range(&mut rand::thread_rng(), 0..7u8)
}

/// The kind a random index selects, per `spec_shape_from_index`.
pub fn shape_from_index(i: u8) -> (s: TetronimoShape)
    requires
        i < 7,
    ensures
        s == spec_shape_from_index(i),
{
    if i == 0 {
        TetronimoShape::IShape
    } else if i == 1 {
        TetronimoShape::JShape
    } else if i == 2 {
        TetronimoShape::LShape
    } else if i == 3 {
        TetronimoShape::OShape
    } else if i == 4 {
        TetronimoShape::SShape
    } else if i == 5 {
        TetronimoShape::TShape
    } else {
        TetronimoShape::ZShape
    }
}

/// A uniformly random kind for the next-piece lookahead. Which kind comes
/// back is chance; every kind is possible.
pub fn random_shape() -> (s: TetronimoShape) {
    shape_from_index(random_index())
}

/// An active piece: an immutable kind plus a mutable rotation state.
#[derive(Clone, Copy, Debug, PartialEq, Eq, Structural)]
pub struct Tetronimo {
    pub shape: TetronimoShape,
    pub rotation: TetronimoRotation,
}

impl Tetronimo {
    /// A freshly spawned piece of the given kind, facing north.
    pub fn new(shape: TetronimoShape) -> (r: Tetronimo)
        ensures
            r.shape == shape,
            r.rotation == TetronimoRotation::North,
    {
        Tetronimo { shape, rotation: TetronimoRotation::North }
    }

    /// A freshly spawned piece of a uniformly random kind, facing north.
    /// Which kind comes back is chance; every kind is possible.
    pub fn random() -> (r: Tetronimo)
        ensures
            r.rotation == TetronimoRotation::North,
    {
        Tetronimo { shape: shape_from_index(random_index()), rotation: TetronimoRotation::North }
    }

    /// The occupied-cell bitmask and bounding-box width of this piece in its
    /// current rotation state.
    pub fn get_chars(&self) -> (r: (Vec<bool>, usize))
        ensures
            r.0@ == spec_shape_cells(self.shape, self.rotation),
            r.1 as int == spec_shape_width(self.shape, self.rotation),
    {
        let r = match self.shape {
            TetronimoShape::IShape => match self.rotation {
                TetronimoRotation::North | TetronimoRotation::South => (
                    vec![true, true, true, true],
                    1,
                ),
                TetronimoRotation::East | TetronimoRotation::West => (
                    vec![true, true, true, true],
                    4,
                ),
            },
            TetronimoShape::JShape => match self.rotation {
                TetronimoRotation::North => (vec![true, true, true, false, false, true], 3),
                TetronimoRotation::East => (vec![false, true, false, true, true, true], 2),
                TetronimoRotation::South => (vec![true, false, false, true, true, true], 3),
                TetronimoRotation::West => (vec![true, true, true, false, true, false], 2),
            },
            TetronimoShape::LShape => match self.rotation {
                TetronimoRotation::North => (vec![false, false, true, true, true, true], 3),
                TetronimoRotation::East => (vec![true, false, true, false, true, true], 2),
                TetronimoRotation::South => (vec![true, true, true, true, false, false], 3),
                TetronimoRotation::West => (vec![true, true, false, true, false, true], 2),
            },
            TetronimoShape::OShape => (vec![true, true, true, true], 2),
            TetronimoShape::SShape => match self.rotation {
                TetronimoRotation::North | TetronimoRotation::South => (
                    vec![false, true, true, true, true, false],
                    3,
                ),
                TetronimoRotation::East | TetronimoRotation::West => (
                    vec![true, false, true, true, false, true],
                    2,
                ),
            },
            TetronimoShape::TShape => match self.rotation {
                TetronimoRotation::North => (vec![false, true, false, true, true, true], 3),
                TetronimoRotation::East => (vec![true, false, true, true, true, false], 2),
                TetronimoRotation::South => (vec![true, true, true, false, true, false], 3),
                TetronimoRotation::West => (vec![false, true, true, true, false, true], 2),
            },
            TetronimoShape::ZShape => match self.rotation {
                TetronimoRotation::North | TetronimoRotation::South => (
                    vec![true, true, false, false, true, true],
                    3,
                ),
                TetronimoRotation::East | TetronimoRotation::West => (
                    vec![false, true, true, true, true, false],
                    2,
                ),
            },
        };
        proof {
            assert(r.0@ =~= spec_shape_cells(self.shape, self.rotation));
        }
        r
    }

    /// Advances the rotation state clockwise; the kind never changes.
    pub fn rotate(&mut self)
        ensures
            final(self).shape == old(self).shape,
            final(self).rotation == old(self).rotation.spec_clockwise(),
    {
        self.rotation = self.rotation.clockwise();
    }

    /// The single letter naming this piece's kind.
    pub fn letter(&self) -> (c: char)
        ensures
            c == spec_shape_letter(self.shape),
    {
        shape_letter(&self.shape)
    }
}

/// The single letter naming a kind.
pub open spec fn spec_shape_letter(s: TetronimoShape) -> char {
    match s {
        TetronimoShape::IShape => 'I',
        TetronimoShape::JShape => 'J',
        TetronimoShape::LShape => 'L',
        TetronimoShape::OShape => 'O',
        TetronimoShape::SShape => 'S',
        TetronimoShape::TShape => 'T',
        TetronimoShape::ZShape => 'Z',
    }
}

/// The single letter naming a kind, for display layers.
pub fn shape_letter(s: &TetronimoShape) -> (c: char)
    ensures
        c == spec_shape_letter(*s),
{
    match s {
        TetronimoShape::IShape => 'I',
        TetronimoShape::JShape => 'J',
        TetronimoShape::LShape => 'L',
        TetronimoShape::OShape => 'O',
        TetronimoShape::SShape => 'S',
        TetronimoShape::TShape => 'T',
        TetronimoShape::ZShape => 'Z',
    }
}

} // verus!
