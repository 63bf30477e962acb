use vstd::prelude::*;
use crate::model::class::Class;
use crate::model::impact::Impact;
use crate::model::occupation::Occupation;
use crate::model::orientation::Orientation;
use crate::model::point::Point;
use crate::model::range::Range;
use crate::messaging::translate::TranslationError;

verus! {

/// A ship on a board: the cell of its origin, the axis along which it lies
/// from there towards larger coordinates, and its kind with the hit flags.
#[derive(Debug, Clone, Copy, PartialEq, Eq)]
pub struct Ship {
    pub coordinates: Point,
    pub orientation: Orientation,
    pub class: Class,
}

/// The coordinate of a cell along an axis.
pub open spec fn along(p: Point, axis: Orientation) -> int {
    match axis {
        Orientation::Horizontal => p.x as int,
        Orientation::Vertical => p.y as int,
    }
}

/// The coordinate of a cell across an axis.
pub open spec fn across(p: Point, axis: Orientation) -> int {
    match axis {
        Orientation::Horizontal => p.y as int,
        Orientation::Vertical => p.x as int,
    }
}

impl Ship {
    /// Where the ship begins on its own axis.
    pub open spec fn origin(self) -> int {
        along(self.coordinates, self.orientation)
    }

    /// The row of a horizontal ship, the column of a vertical one.
    pub open spec fn lane(self) -> int {
        across(self.coordinates, self.orientation)
    }

    /// Where the ship ends on its own axis: its last cell.
    pub open spec fn tail(self) -> int {
        self.origin() + self.class.length() - 1
    }

    /// The ship lies on the cell.
    pub open spec fn covers(self, p: Point) -> bool {
        &&& across(p, self.orientation) == self.lane()
        &&& self.origin() <= along(p, self.orientation) <= self.tail()
    }

    /// The index of a cell counted from the ship's origin.
    pub open spec fn local(self, p: Point) -> int {
        along(p, self.orientation) - self.origin()
    }

    /// Two ships collide: lying along the same axis they share the lane and
    /// their extents meet; lying across each other, each crosses the other's
    /// lane within its own extent.
    pub open spec fn collides(self, other: Ship) -> bool {
        if self.orientation == other.orientation {
            &&& self.lane() == other.lane()
            &&& self.origin() <= other.tail()
            &&& other.origin() <= self.tail()
        } else {
            &&& self.origin() <= other.lane() <= self.tail()
            &&& other.origin() <= self.lane() <= other.tail()
        }
    }

    /// The ship as seen with the board mirrored at its main diagonal, where
    /// that is needed to make it lie along the given axis.
    pub open spec fn turned(self, orientation: Orientation) -> Ship {
        if orientation == self.orientation {
            self
        } else {
            Ship {
                coordinates: self.coordinates.flipped(),
                orientation: self.orientation.flipped(),
                class: self.class,
            }
        }
    }

    /// The ship with the flag of the cell `p` set and nothing else changed.
    pub open spec fn struck(self, p: Point) -> Ship {
        Ship { class: self.class.marked(self.local(p)), ..self }
    }

    /// A ship by origin, axis and kind.
    pub fn new(coordinates: Point, orientation: Orientation, class: Class) -> (s: Ship)
        ensures
            s == (Ship { coordinates, orientation, class }),
    {
        Ship { coordinates, orientation, class }
    }

    /// The ship that a placement asks for: what was read from its JSON, of
    /// the kind that the topic names. The kind that the JSON may give does not
    /// count. What could not be read stays an error.
    pub fn from_json(json: Result<Ship, TranslationError>, class: Class) -> (r: Result<
        Ship,
        TranslationError,
    >)
        ensures
            match json {
                Ok(read) => r == Ok::<Ship, TranslationError>(Ship { class, ..read }),
                Err(error) => r == Err::<Ship, TranslationError>(error),
            },
    {
        match json {
            Ok(read) => Ok(Ship { coordinates: read.coordinates, orientation: read.orientation, class }),
            Err(error) => Err(error),
        }
    }

    /// The ship as seen with the board mirrored at its main diagonal, where
    /// that is needed to make it lie along the given axis.
    pub fn transposed_to(self, orientation: Orientation) -> (s: Ship)
        ensures
            s == self.turned(orientation),
    {
        if orientation == self.orientation {
            self
        } else {
            Ship::new(self.coordinates.transposed(), self.orientation.transposed(), self.class)
        }
    }

    fn axis_origin(&self) -> (n: u8)
        ensures
            n == self.origin(),
    {
        match self.orientation {
            Orientation::Horizontal => self.coordinates.x,
            Orientation::Vertical => self.coordinates.y,
        }
    }

    fn axis_lane(&self) -> (n: u8)
        ensures
            n == self.lane(),
    {
        match self.orientation {
            Orientation::Horizontal => self.coordinates.y,
            Orientation::Vertical => self.coordinates.x,
        }
    }

    /// The last cell's coordinate, in a type wide enough for any ship.
    pub fn far_end(&self) -> (n: u16)
        ensures
            n == self.tail(),
    {
        self.axis_origin() as u16 + self.class.size() as u16 - 1
    }

    /// The coordinate of the ship's last cell on its own axis. The ship must
    /// end within the range of the coordinates.
    pub fn tail_end(&self) -> (n: u8)
        requires
            self.tail() <= u8::MAX,
        ensures
            n == self.tail(),
    {
        self.class.size() - 1 + self.axis_origin()
    }

    /// The extent of the ship on its own axis, from its origin to its last
    /// cell. The ship must end within the range of the coordinates.
    pub fn range(&self) -> (r: Range)
        requires
            self.tail() <= u8::MAX,
        ensures
            r.min == self.origin(),
            r.max == self.tail(),
    {
        let min = self.axis_origin();
        Range::new(min, min + (self.class.size() - 1))
    }

    /// Whether the two ships share a cell.
    pub fn overlap(&self, other: &Ship) -> (b: bool)
        ensures
            b == self.collides(*other),
    {
        let own_from = self.axis_origin() as u16;
        let own_to = self.far_end();
        let other_from = other.axis_origin() as u16;
        let other_to = other.far_end();
        if self.orientation == other.orientation {
            self.axis_lane() == other.axis_lane() && own_from <= other_to && other_from <= own_to
        } else {
            let own_lane = self.axis_lane() as u16;
            let other_lane = other.axis_lane() as u16;
            own_from <= other_lane && other_lane <= own_to && other_from <= own_lane && own_lane
                <= other_to
        }
    }

    /// Whether the ship lies on the cell.
    pub fn is_hit(&self, coordinates: &Point) -> (b: bool)
        ensures
            b == self.covers(*coordinates),
    {
        let (at, lane) = match self.orientation {
            Orientation::Horizontal => (coordinates.x, coordinates.y),
            Orientation::Vertical => (coordinates.y, coordinates.x),
        };
        lane == self.axis_lane() && self.axis_origin() <= at && at as u16 <= self.far_end()
    }

    /// What a look at a cell shows of this ship.
    pub fn probe(&self, coordinates: &Point) -> (o: Occupation)
        ensures
            o == if self.covers(*coordinates) {
                self.class.sight(self.local(*coordinates))
            } else {
                Occupation::Empty
            },
    {
        if self.is_hit(coordinates) {
            self.class.probe(self.global_to_local(coordinates) as usize)
        } else {
            Occupation::Empty
        }
    }

    /// The index of a cell counted from the ship's origin along its axis. The
    /// cell must not lie before the origin.
    pub fn global_to_local(&self, coordinates: &Point) -> (n: u8)
        requires
            self.origin() <= along(*coordinates, self.orientation),
        ensures
            n == self.local(*coordinates),
    {
        match self.orientation {
            Orientation::Horizontal => coordinates.x - self.coordinates.x,
            Orientation::Vertical => coordinates.y - self.coordinates.y,
        }
    }

    /// Shoots at a cell: a hit where the ship lies on it, with the ship as it
    /// is after the hit.
    pub fn shoot(&self, coordinates: &Point) -> (r: Impact<Ship>)
        ensures
            r == if self.covers(*coordinates) {
                Impact::Hit(self.struck(*coordinates))
            } else {
                Impact::Miss
            },
    {
        if self.is_hit(coordinates) {
            Impact::Hit(
                Ship::new(
                    self.coordinates,
                    self.orientation,
                    self.class.shoot(self.global_to_local(coordinates)),
                ),
            )
        } else {
            Impact::Miss
        }
    }

    /// Whether every cell of the ship has been hit.
    pub fn is_sunk(&self) -> (b: bool)
        ensures
            b == self.class.sunk(),
    {
        self.class.is_sunk()
    }
}

/// Whether two ships collide does not depend on which of them is asked.
pub proof fn collision_is_mutual(a: Ship, b: Ship)
    ensures
        a.collides(b) == b.collides(a),
{
}

/// Two ships collide exactly when some cell lies under both.
pub proof fn collision_is_a_shared_cell(a: Ship, b: Ship)
    ensures
        a.collides(b) <==> exists|p: Point| a.covers(p) && b.covers(p),
{
    a.class.flags_len();
    b.class.flags_len();
    if a.collides(b) {
        let p = if a.orientation == b.orientation {
            if a.origin() >= b.origin() {
                a.coordinates
            } else {
                b.coordinates
            }
        } else {
            match a.orientation {
                Orientation::Horizontal => Point { x: b.coordinates.x, y: a.coordinates.y },
                Orientation::Vertical => Point { x: a.coordinates.x, y: b.coordinates.y },
            }
        };
        assert(a.covers(p) && b.covers(p));
    }
}

/// A ship covers its own origin, so two ships with one origin collide.
pub proof fn shared_origin_collides(a: Ship, b: Ship)
    requires
        a.coordinates == b.coordinates,
    ensures
        a.collides(b),
{
    a.class.flags_len();
    b.class.flags_len();
}

/// Mirroring the board keeps what a ship covers: the turned ship covers the
/// mirrored cell exactly when the ship covers the cell.
pub proof fn turning_keeps_cells(s: Ship, p: Point)
    ensures
        s.turned(s.orientation.flipped()).covers(p.flipped()) == s.covers(p),
        s.turned(s.orientation) == s,
        s.turned(s.orientation.flipped()).turned(s.orientation) == s,
{
}

/// A shot at a cell under the ship that was not hit before sets exactly one
/// more flag, one at a cell hit before sets none, and neither changes where
/// the ship lies.
pub proof fn hit_sets_one_more_flag(s: Ship, p: Point)
    requires
        s.covers(p),
    ensures
        0 <= s.local(p) < s.class.length(),
        s.struck(p).class.hits() == s.class.hits() + if s.class.flags()[s.local(p)] {
            0nat
        } else {
            1nat
        },
        s.struck(p).coordinates == s.coordinates,
        s.struck(p).orientation == s.orientation,
        forall|q: Point| s.struck(p).covers(q) == s.covers(q),
{
    s.class.flags_len();
    s.struck(p).class.flags_len();
    crate::model::class::shot_sets_at_most_one_flag(s.class, s.local(p));
}

} // verus!
