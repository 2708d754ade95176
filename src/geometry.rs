use vstd::prelude::*;

verus! {

/// A cell position in a grid, in `[0, width) x [0, height)`.
#[derive(Clone, Copy, Debug, PartialEq, Eq, Structural, Hash)]
pub struct Coord {
    pub x: u32,
    pub y: u32,
}

impl Coord {
    pub fn new(x: u32, y: u32) -> (r: Coord)
        ensures
            r.x == x,
            r.y == y,
    {
        Coord { x, y }
    }
}

/// The extent of a grid.
#[derive(Clone, Copy, Debug, PartialEq, Eq, Structural, Hash)]
pub struct Size {
    pub width: u32,
    pub height: u32,
}

impl Size {
    pub fn new(width: u32, height: u32) -> (r: Size)
        ensures
            r.width == width,
            r.height == height,
    {
        Size { width, height }
    }

    pub open spec fn count(self) -> nat {
        self.width as nat * self.height as nat
    }
}

/// The axis a direction moves along.
#[derive(Clone, Copy, Debug, PartialEq, Eq, Structural, Hash)]
pub enum Axis {
    X,
    Y,
}

/// One of the four neighbours of a cell. North is towards smaller `y`,
/// east towards larger `x`.
#[derive(Clone, Copy, Debug, PartialEq, Eq, Structural, Hash)]
pub enum CardinalDirection {
    North,
    East,
    South,
    West,
}

pub open spec fn axis_of(d: CardinalDirection) -> Axis {
    match d {
        CardinalDirection::North | CardinalDirection::South => Axis::Y,
        CardinalDirection::East | CardinalDirection::West => Axis::X,
    }
}

pub open spec fn opposite_of(d: CardinalDirection) -> CardinalDirection {
    match d {
        CardinalDirection::North => CardinalDirection::South,
        CardinalDirection::East => CardinalDirection::West,
        CardinalDirection::South => CardinalDirection::North,
        CardinalDirection::West => CardinalDirection::East,
    }
}

/// Position of a direction in `CardinalDirection::all()`.
pub open spec fn direction_index(d: CardinalDirection) -> nat {
    match d {
        CardinalDirection::North => 0,
        CardinalDirection::East => 1,
        CardinalDirection::South => 2,
        CardinalDirection::West => 3,
    }
}

impl CardinalDirection {
    pub fn axis(self) -> (r: Axis)
        ensures
            r == axis_of(self),
    {
        match self {
            CardinalDirection::North | CardinalDirection::South => Axis::Y,
            CardinalDirection::East | CardinalDirection::West => Axis::X,
        }
    }

    pub fn opposite(self) -> (r: CardinalDirection)
        ensures
            r == opposite_of(self),
    {
        match self {
            CardinalDirection::North => CardinalDirection::South,
            CardinalDirection::East => CardinalDirection::West,
            CardinalDirection::South => CardinalDirection::North,
            CardinalDirection::West => CardinalDirection::East,
        }
    }

    /// The four directions, in the order North, East, South, West.
    pub fn all() -> (r: Vec<CardinalDirection>)
        ensures
            r@ == seq![
                CardinalDirection::North,
                CardinalDirection::East,
                CardinalDirection::South,
                CardinalDirection::West,
            ],
    {
        vec![
            CardinalDirection::North,
            CardinalDirection::East,
            CardinalDirection::South,
            CardinalDirection::West,
        ]
    }
}

/// One of the eight symmetries of a square: the identity, three rotations,
/// and the same four applied after a flip along the main diagonal.
#[derive(Clone, Copy, Debug, PartialEq, Eq, Structural, Hash)]
pub enum Orientation {
    Original,
    Clockwise90,
    Clockwise180,
    Clockwise270,
    DiagonallyFlipped,
    DiagonallyFlippedClockwise90,
    DiagonallyFlippedClockwise180,
    DiagonallyFlippedClockwise270,
}

/// Where logical cell `(i, j)` of an `n` by `n` square is read from once
/// the square is seen through orientation `o`.
pub open spec fn transform(o: Orientation, n: int, i: int, j: int) -> (int, int) {
    match o {
        Orientation::Original => (i, j),
        Orientation::Clockwise90 => (j, n - 1 - i),
        Orientation::Clockwise180 => (n - 1 - i, n - 1 - j),
        Orientation::Clockwise270 => (n - 1 - j, i),
        Orientation::DiagonallyFlipped => (j, i),
        Orientation::DiagonallyFlippedClockwise90 => (n - 1 - i, j),
        Orientation::DiagonallyFlippedClockwise180 => (n - 1 - j, n - 1 - i),
        Orientation::DiagonallyFlippedClockwise270 => (i, n - 1 - j),
    }
}

/// The eight orientations, in declaration order.
pub open spec fn all_orientations() -> Seq<Orientation> {
    seq![
        Orientation::Original,
        Orientation::Clockwise90,
        Orientation::Clockwise180,
        Orientation::Clockwise270,
        Orientation::DiagonallyFlipped,
        Orientation::DiagonallyFlippedClockwise90,
        Orientation::DiagonallyFlippedClockwise180,
        Orientation::DiagonallyFlippedClockwise270,
    ]
}

impl Orientation {
    /// All eight orientations, the original first.
    pub fn all() -> (r: Vec<Orientation>)
        ensures
            r@ == all_orientations(),
            forall|o: Orientation| r@.contains(o),
    {
        let r = vec![
            Orientation::Original,
            Orientation::Clockwise90,
            Orientation::Clockwise180,
            Orientation::Clockwise270,
            Orientation::DiagonallyFlipped,
            Orientation::DiagonallyFlippedClockwise90,
            Orientation::DiagonallyFlippedClockwise180,
            Orientation::DiagonallyFlippedClockwise270,
        ];
        assert forall|o: Orientation| r@.contains(o) by {
            match o {
                Orientation::Original => assert(r@[0] == o),
                Orientation::Clockwise90 => assert(r@[1] == o),
                Orientation::Clockwise180 => assert(r@[2] == o),
                Orientation::Clockwise270 => assert(r@[3] == o),
                Orientation::DiagonallyFlipped => assert(r@[4] == o),
                Orientation::DiagonallyFlippedClockwise90 => assert(r@[5] == o),
                Orientation::DiagonallyFlippedClockwise180 => assert(r@[6] == o),
                Orientation::DiagonallyFlippedClockwise270 => assert(r@[7] == o),
            }
        }
        r
    }

    /// Reads logical cell `(i, j)` of an `n` by `n` square through this
    /// orientation; the result stays inside the square.
    pub fn transform_coord(self, n: u32, i: u32, j: u32) -> (r: (u32, u32))
        requires
            i < n,
            j < n,
        ensures
            r.0 as int == transform(self, n as int, i as int, j as int).0,
            r.1 as int == transform(self, n as int, i as int, j as int).1,
            r.0 < n,
            r.1 < n,
    {
        match self {
            Orientation::Original => (i, j),
            Orientation::Clockwise90 => (j, n - 1 - i),
            Orientation::Clockwise180 => (n - 1 - i, n - 1 - j),
            Orientation::Clockwise270 => (n - 1 - j, i),
            Orientation::DiagonallyFlipped => (j, i),
            Orientation::DiagonallyFlippedClockwise90 => (n - 1 - i, j),
            Orientation::DiagonallyFlippedClockwise180 => (n - 1 - j, n - 1 - i),
            Orientation::DiagonallyFlippedClockwise270 => (i, n - 1 - j),
        }
    }
}

} // verus!
