use vstd::prelude::*;

verus! {

/// A heading on the grid; `Up` decreases `y`, `Left` decreases `x`.
#[derive(Clone, Copy, Debug, PartialEq, Eq, Structural)]
pub enum Direction {
    Up,
    Down,
    Left,
    Right,
}

/// A cell of the board; `(0, 0)` is the top-left corner.
#[derive(Clone, Copy, Debug, PartialEq, Eq, Structural)]
pub struct Point {
    pub x: u16,
    pub y: u16,
}

pub open spec fn opposite_spec(d: Direction) -> Direction {
    match d {
        Direction::Up => Direction::Down,
        Direction::Down => Direction::Up,
        Direction::Left => Direction::Right,
        Direction::Right => Direction::Left,
    }
}

impl Direction {
    /// The heading that points the other way.
    pub fn opposite(self) -> (r: Direction)
        ensures
            r == opposite_spec(self),
    {
        match self {
            Direction::Up => Direction::Down,
            Direction::Down => Direction::Up,
            Direction::Left => Direction::Right,
            Direction::Right => Direction::Left,
        }
    }
}

/// `p` lies on a `width` x `height` board.
pub open spec fn in_board(p: Point, width: u16, height: u16) -> bool {
    p.x < width && p.y < height
}

/// `p` lies on the board and off its outermost ring.
pub open spec fn interior(p: Point, width: u16, height: u16) -> bool {
    1 <= p.x && p.x + 1 < width && 1 <= p.y && p.y + 1 < height
}

/// The cell one step from `p` towards `d`. With `border` the edges are walls and a
/// step across one gives `None`; without it the board wraps round.
pub open spec fn step_spec(p: Point, d: Direction, border: bool, width: u16, height: u16) -> Option<
    Point,
> {
    match d {
        Direction::Up => if p.y == 0 {
            if border {
                None
            } else {
                Some(Point { x: p.x, y: (height - 1) as u16 })
            }
        } else {
            Some(Point { x: p.x, y: (p.y - 1) as u16 })
        },
        Direction::Down => if p.y + 1 >= height {
            if border {
                None
            } else {
                Some(Point { x: p.x, y: 0 })
            }
        } else {
            Some(Point { x: p.x, y: (p.y + 1) as u16 })
        },
        Direction::Left => if p.x == 0 {
            if border {
                None
            } else {
                Some(Point { x: (width - 1) as u16, y: p.y })
            }
        } else {
            Some(Point { x: (p.x - 1) as u16, y: p.y })
        },
        Direction::Right => if p.x + 1 >= width {
            if border {
                None
            } else {
                Some(Point { x: 0, y: p.y })
            }
        } else {
            Some(Point { x: (p.x + 1) as u16, y: p.y })
        },
    }
}

/// Computes the cell one step from `p` towards `d` (see `step_spec`).
pub fn next_head(p: Point, d: Direction, border: bool, width: u16, height: u16) -> (r: Option<
    Point,
>)
    requires
        in_board(p, width, height),
    ensures
        r == step_spec(p, d, border, width, height),
        r matches Some(q) ==> in_board(q, width, height),
        !border ==> r is Some,
{
    match d {
        Direction::Up => {
            if p.y == 0 {
                if border {
                    None
                } else {
                    Some(Point { x: p.x, y: height - 1 })
                }
            } else {
                Some(Point { x: p.x, y: p.y - 1 })
            }
        },
        Direction::Down => {
            if p.y + 1 >= height {
                if border {
                    None
                } else {
                    Some(Point { x: p.x, y: 0 })
                }
            } else {
                Some(Point { x: p.x, y: p.y + 1 })
            }
        },
        Direction::Left => {
            if p.x == 0 {
                if border {
                    None
                } else {
                    Some(Point { x: width - 1, y: p.y })
                }
            } else {
                Some(Point { x: p.x - 1, y: p.y })
            }
        },
        Direction::Right => {
            if p.x + 1 >= width {
                if border {
                    None
                } else {
                    Some(Point { x: 0, y: p.y })
                }
            } else {
                Some(Point { x: p.x + 1, y: p.y })
            }
        },
    }
}

} // verus!
