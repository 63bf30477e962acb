use vstd::prelude::*;
use vstd::string::*;
use crate::model::class::Class;
use crate::model::gameerror::GameError;
use crate::model::impact::Impact;
use crate::model::occupation::Occupation;
use crate::model::orientation::Orientation;
use crate::model::point::Point;
use crate::model::ship::Ship;
use crate::model::size::Size;
use crate::model::status::Status;
use crate::text::{decimal, decimal_digits};

verus! {

/// A player: a name, an advisory secret, a fleet of up to five ships in five
/// ordered slots, a status and the extent of the board the fleet stands on.
#[derive(Debug, PartialEq)]
pub struct Player {
    pub name: String,
    pub secret: String,
    pub fleet: [Option<Ship>; 5],
    pub status: Status,
    pub field_size: Size,
}

/// What a player is, as plain values.
pub struct PlayerView {
    pub name: Seq<char>,
    pub secret: Seq<char>,
    pub fleet: Seq<Option<Ship>>,
    pub status: Status,
    pub field_size: Size,
}

/// Some slot of the fleet holds a ship of the kind of `class`.
pub open spec fn holds_kind(fleet: Seq<Option<Ship>>, class: Class) -> bool {
    exists|i: int|
        0 <= i < fleet.len() && (#[trigger] fleet[i]) is Some && fleet[i]->0.class.same_kind(class)
}

/// Every cell of the ship lies on a board of the given extent.
pub open spec fn inside(field: Size, ship: Ship) -> bool {
    &&& ship.coordinates.x < field.width
    &&& ship.coordinates.y < field.height
    &&& ship.tail() < match ship.orientation {
        Orientation::Horizontal => field.width as int,
        Orientation::Vertical => field.height as int,
    }
}

/// The first slot from `from` on whose ship collides with `ship`.
pub open spec fn first_collision_from(fleet: Seq<Option<Ship>>, ship: Ship, from: int) -> Option<
    int,
>
    decreases fleet.len() - from,
{
    if from < 0 || from >= fleet.len() {
        None
    } else if fleet[from] is Some && ship.collides(fleet[from]->0) {
        Some(from)
    } else {
        first_collision_from(fleet, ship, from + 1)
    }
}

/// The first ship of the fleet, in slot order, that collides with `ship`.
pub open spec fn first_collision(fleet: Seq<Option<Ship>>, ship: Ship) -> Option<Ship> {
    match first_collision_from(fleet, ship, 0) {
        Some(i) => fleet[i],
        None => None,
    }
}

/// The first slot from `from` on whose ship lies on the cell.
pub open spec fn first_covering_from(fleet: Seq<Option<Ship>>, p: Point, from: int) -> Option<int>
    decreases fleet.len() - from,
{
    if from < 0 || from >= fleet.len() {
        None
    } else if fleet[from] is Some && fleet[from]->0.covers(p) {
        Some(from)
    } else {
        first_covering_from(fleet, p, from + 1)
    }
}

/// The first slot from `from` on that holds no ship.
pub open spec fn first_free_from(fleet: Seq<Option<Ship>>, from: int) -> Option<int>
    decreases fleet.len() - from,
{
    if from < 0 || from >= fleet.len() {
        None
    } else if fleet[from] is None {
        Some(from)
    } else {
        first_free_from(fleet, from + 1)
    }
}

/// No ship of the fleet collides with `ship`.
pub open spec fn collides_with_none(fleet: Seq<Option<Ship>>, ship: Ship) -> bool {
    forall|i: int|
        0 <= i < fleet.len() ==> !((#[trigger] fleet[i]) is Some && ship.collides(fleet[i]->0))
}

/// The number of slots that hold a ship.
pub open spec fn placed_count(fleet: Seq<Option<Ship>>) -> nat
    decreases fleet.len(),
{
    if fleet.len() == 0 {
        0
    } else {
        placed_count(fleet.drop_last()) + if fleet.last() is Some {
            1nat
        } else {
            0nat
        }
    }
}

/// The number of ships that are not sunk.
pub open spec fn afloat_count(fleet: Seq<Option<Ship>>) -> nat
    decreases fleet.len(),
{
    if fleet.len() == 0 {
        0
    } else {
        afloat_count(fleet.drop_last()) + if fleet.last() is Some && !fleet.last()->0.class.sunk() {
            1nat
        } else {
            0nat
        }
    }
}

/// The fleet is one that the rules allow: no kind twice, every ship on the
/// board, no two ships on one cell.
pub open spec fn fleet_sound(fleet: Seq<Option<Ship>>, field: Size) -> bool {
    &&& forall|i: int| 0 <= i < fleet.len() && (#[trigger] fleet[i]) is Some ==> inside(field, fleet[i]->0)
    &&& forall|i: int, j: int|
        0 <= i < j < fleet.len() && (#[trigger] fleet[i]) is Some && (#[trigger] fleet[j]) is Some ==> {
            &&& !fleet[i]->0.class.same_kind(fleet[j]->0.class)
            &&& !fleet[i]->0.collides(fleet[j]->0)
        }
}

impl PlayerView {
    /// Whether a ship may join the fleet. The kind is looked at first, then
    /// the board, then the other ships.
    pub open spec fn verdict(self, ship: Ship) -> Result<(), GameError> {
        if holds_kind(self.fleet, ship.class) {
            Err(GameError::ShipAlreadyPlaced(ship.class))
        } else if !inside(self.field_size, ship) {
            Err(
                GameError::ShipOutOfBounds(
                    ship.coordinates,
                    ship.orientation,
                    ship.class.length() as u8,
                ),
            )
        } else {
            match first_collision(self.fleet, ship) {
                Some(other) => Err(GameError::ShipOverlaps(other)),
                None => Ok(()),
            }
        }
    }

    /// The player after an attempt to place a ship: the ship stands in the
    /// first free slot where the verdict allows it and a slot is free.
    pub open spec fn placing(self, ship: Ship) -> Result<PlayerView, GameError> {
        match self.verdict(ship) {
            Err(error) => Err(error),
            Ok(_) => match first_free_from(self.fleet, 0) {
                None => Err(GameError::ShipAlreadyPlaced(ship.class)),
                Some(slot) => Ok(PlayerView { fleet: self.fleet.update(slot, Some(ship)), ..self }),
            },
        }
    }

    /// The player after a hit that left the ship in `slot` as `hit`: a player
    /// with no ship afloat is defeated.
    pub open spec fn struck(self, slot: int, hit: Ship) -> PlayerView {
        let fleet = self.fleet.update(slot, Some(hit));
        PlayerView {
            fleet,
            status: if afloat_count(fleet) == 0 {
                Status::Defeated
            } else {
                self.status
            },
            ..self
        }
    }

    /// What a shot at a cell does: it hits the first ship lying there, and
    /// leaves the player with that ship struck; where no ship lies it misses.
    pub open spec fn shot_at(self, p: Point) -> Impact<(PlayerView, Ship)> {
        match first_covering_from(self.fleet, p, 0) {
            None => Impact::Miss,
            Some(slot) => {
                let hit = self.fleet[slot]->0.struck(p);
                Impact::Hit((self.struck(slot, hit), hit))
            },
        }
    }

    /// What a look at a cell shows: the first ship lying there, else water.
    pub open spec fn sight(self, p: Point) -> Occupation {
        match first_covering_from(self.fleet, p, 0) {
            Some(slot) => self.fleet[slot]->0.class.sight(self.fleet[slot]->0.local(p)),
            None => Occupation::Empty,
        }
    }
}

impl View for Player {
    type V = PlayerView;

    open spec fn view(&self) -> PlayerView {
        PlayerView {
            name: self.name@,
            secret: self.secret@,
            fleet: self.fleet@,
            status: self.status,
            field_size: self.field_size,
        }
    }
}

impl Clone for Player {
    fn clone(&self) -> (p: Player)
        ensures
            p@ == self@,
    {
        Player {
            name: self.name.clone(),
            secret: self.secret.clone(),
            fleet: self.fleet,
            status: self.status,
            field_size: self.field_size,
        }
    }
}

/// A fleet with every slot free.
pub fn default_fleet() -> (fleet: [Option<Ship>; 5])
    ensures
        forall|i: int| 0 <= i < 5 ==> fleet@[i] is None,
{
    broadcast use vstd::array::group_array_axioms;

    [None;5]
}

/// The found slot is the first of its kind: no slot before it collides.
pub proof fn first_collision_is_first(fleet: Seq<Option<Ship>>, ship: Ship, from: int)
    requires
        0 <= from,
    ensures
        match first_collision_from(fleet, ship, from) {
            Some(i) => {
                &&& from <= i < fleet.len()
                &&& fleet[i] is Some
                &&& ship.collides(fleet[i]->0)
                &&& forall|j: int| from <= j < i ==> !(fleet[j] is Some && ship.collides(fleet[j]->0))
            },
            None => forall|j: int|
                from <= j < fleet.len() ==> !(fleet[j] is Some && ship.collides(fleet[j]->0)),
        },
    decreases fleet.len() - from,
{
    if from < fleet.len() && !(fleet[from] is Some && ship.collides(fleet[from]->0)) {
        first_collision_is_first(fleet, ship, from + 1);
    }
}

/// The found slot is the first whose ship lies on the cell.
pub proof fn first_covering_is_first(fleet: Seq<Option<Ship>>, p: Point, from: int)
    requires
        0 <= from,
    ensures
        match first_covering_from(fleet, p, from) {
            Some(i) => {
                &&& from <= i < fleet.len()
                &&& fleet[i] is Some
                &&& fleet[i]->0.covers(p)
                &&& forall|j: int| from <= j < i ==> !(fleet[j] is Some && fleet[j]->0.covers(p))
            },
            None => forall|j: int|
                from <= j < fleet.len() ==> !(fleet[j] is Some && fleet[j]->0.covers(p)),
        },
    decreases fleet.len() - from,
{
    if from < fleet.len() && !(fleet[from] is Some && fleet[from]->0.covers(p)) {
        first_covering_is_first(fleet, p, from + 1);
    }
}

/// The found slot is the first free one.
pub proof fn first_free_is_first(fleet: Seq<Option<Ship>>, from: int)
    requires
        0 <= from,
    ensures
        match first_free_from(fleet, from) {
            Some(i) => {
                &&& from <= i < fleet.len()
                &&& fleet[i] is None
                &&& forall|j: int| from <= j < i ==> fleet[j] is Some
            },
            None => forall|j: int| from <= j < fleet.len() ==> fleet[j] is Some,
        },
    decreases fleet.len() - from,
{
    if from < fleet.len() && fleet[from] is Some {
        first_free_is_first(fleet, from + 1);
    }
}

impl Player {
    /// A player with the given fleet, which is taken as it is.
    pub fn new(name: String, secret: String, fleet: [Option<Ship>; 5], status: Status, field_size: Size) -> (p: Player)
        ensures
            p@ == (PlayerView {
                name: name@,
                secret: secret@,
                fleet: fleet@,
                status,
                field_size,
            }),
    {
        Player { name, secret, fleet, status, field_size }
    }

    /// A fleet has five slots.
    pub proof fn five_slots(&self)
        ensures
            self@.fleet.len() == 5,
    {
        broadcast use vstd::array::group_array_axioms;

    }

    /// Whether the fleet holds a ship of the kind of `class`, whatever its
    /// flags.
    pub fn placed(&self, class: &Class) -> (b: bool)
        ensures
            b == holds_kind(self@.fleet, *class),
    {
        broadcast use vstd::array::group_array_axioms;

        let mut index: usize = 0;
        while index < 5
            invariant
                index <= 5,
                self.fleet@.len() == 5,
                forall|i: int|
                    0 <= i < index ==> !((#[trigger] self.fleet@[i]) is Some
                        && self.fleet@[i]->0.class.same_kind(*class)),
            decreases 5 - index,
        {
            if let Some(ship) = self.fleet[index] {
                if ship.class.is_kind_of(class) {
                    return true;
                }
            }
            index += 1;
        }
        false
    }

    /// Whether every cell of the ship lies on the player's board.
    pub fn inside_field(&self, ship: &Ship) -> (b: bool)
        ensures
            b == inside(self@.field_size, *ship),
    {
        if ship.coordinates.x >= self.field_size.width {
            false
        } else if ship.coordinates.y >= self.field_size.height {
            false
        } else {
            let limit = match ship.orientation {
                Orientation::Horizontal => self.field_size.width,
                Orientation::Vertical => self.field_size.height,
            };
            ship.far_end() <= (limit - 1) as u16
        }
    }

    /// The first ship of the fleet, in slot order, that collides with `ship`.
    pub fn overlap(&self, ship: &Ship) -> (r: Option<Ship>)
        ensures
            r == first_collision(self@.fleet, *ship),
            r is None <==> collides_with_none(self@.fleet, *ship),
            r matches Some(other) ==> ship.collides(other),
    {
        broadcast use vstd::array::group_array_axioms;

        proof {
            first_collision_is_first(self@.fleet, *ship, 0);
        }

        let mut index: usize = 0;
        while index < 5
            invariant
                index <= 5,
                self.fleet@.len() == 5,
                first_collision_from(self.fleet@, *ship, 0) == first_collision_from(
                    self.fleet@,
                    *ship,
                    index as int,
                ),
            decreases 5 - index,
        {
            if let Some(other) = self.fleet[index] {
                if ship.overlap(&other) {
                    return Some(other);
                }
            }
            index += 1;
        }
        None
    }

    /// Whether a ship may join the fleet: its kind must be new to the fleet,
    /// it must lie on the board, and it must not collide with a ship of the
    /// fleet, and the first of these that fails is the error.
    pub fn check_placement(&self, ship: &Ship) -> (r: Result<(), GameError>)
        ensures
            r == self@.verdict(*ship),
            r is Ok <==> !holds_kind(self@.fleet, ship.class) && inside(self@.field_size, *ship)
                && collides_with_none(self@.fleet, *ship),
    {
        proof {
            first_collision_is_first(self@.fleet, *ship, 0);
        }
        if self.placed(&ship.class) {
            Err(GameError::ShipAlreadyPlaced(ship.class))
        } else if !self.inside_field(ship) {
            Err(GameError::ShipOutOfBounds(ship.coordinates, ship.orientation, ship.class.size()))
        } else if let Some(other) = self.overlap(ship) {
            Err(GameError::ShipOverlaps(other))
        } else {
            Ok(())
        }
    }

    /// The first slot that holds no ship.
    pub fn find_empty_spot(&self) -> (r: Option<usize>)
        ensures
            match r {
                Some(slot) => first_free_from(self@.fleet, 0) == Some(slot as int),
                None => first_free_from(self@.fleet, 0) is None,
            },
    {
        broadcast use vstd::array::group_array_axioms;

        let mut index: usize = 0;
        while index < 5
            invariant
                index <= 5,
                self.fleet@.len() == 5,
                first_free_from(self.fleet@, 0) == first_free_from(self.fleet@, index as int),
            decreases 5 - index,
        {
            if self.fleet[index].is_none() {
                return Some(index);
            }
            index += 1;
        }
        None
    }

    /// The player with the ship in the first free slot, where the ship may
    /// join the fleet.
    pub fn place_ship(&self, ship: Ship) -> (r: Result<Player, GameError>)
        ensures
            match r {
                Ok(player) => self@.placing(ship) == Ok::<PlayerView, GameError>(player@),
                Err(error) => self@.placing(ship) == Err::<PlayerView, GameError>(error),
            },
    {
        broadcast use vstd::array::group_array_axioms;

        match self.check_placement(&ship) {
            Err(error) => Err(error),
            Ok(_) => {
                let mut player = self.clone();
                match self.find_empty_spot() {
                    None => Err(GameError::ShipAlreadyPlaced(ship.class)),
                    Some(empty_spot) => {
                        proof {
                            first_free_is_first(self@.fleet, 0);
                        }
                        let mut fleet = player.fleet;
                        fleet[empty_spot] = Some(ship);
                        player.fleet = fleet;
                        assert(player@.fleet =~= self@.fleet.update(empty_spot as int, Some(ship)));
                        Ok(player)
                    },
                }
            },
        }
    }

    /// The number of ships placed.
    pub fn fleet_size(&self) -> (n: usize)
        ensures
            n == placed_count(self@.fleet),
            n <= 5,
            n == 0 <==> (forall|i: int| 0 <= i < 5 ==> self@.fleet[i] is None),
            n == 5 <==> (forall|i: int| 0 <= i < 5 ==> self@.fleet[i] is Some),
    {
        broadcast use vstd::array::group_array_axioms;

        proof {
            placed_count_counts(self@.fleet);
        }

        let mut count: usize = 0;
        let mut index: usize = 0;
        while index < 5
            invariant
                index <= 5,
                self.fleet@.len() == 5,
                count <= index,
                count == placed_count(self.fleet@.take(index as int)),
            decreases 5 - index,
        {
            assert(self.fleet@.take(index + 1).drop_last() =~= self.fleet@.take(index as int));
            if self.fleet[index].is_some() {
                count += 1;
            }
            index += 1;
        }
        assert(self.fleet@.take(5) =~= self.fleet@);
        count
    }

    /// Whether all five ships are placed.
    pub fn is_fleet_complete(&self) -> (b: bool)
        ensures
            b == (placed_count(self@.fleet) == 5),
            b == (forall|i: int| 0 <= i < 5 ==> self@.fleet[i] is Some),
    {
        self.fleet_size() == 5
    }

    /// What a look at a cell shows: the first ship lying there, else open
    /// water.
    pub fn probe(&self, coordinates: &Point) -> (o: Occupation)
        ensures
            o == self@.sight(*coordinates),
    {
        broadcast use vstd::array::group_array_axioms;

        let mut index: usize = 0;
        while index < 5
            invariant
                index <= 5,
                self.fleet@.len() == 5,
                first_covering_from(self.fleet@, *coordinates, 0) == first_covering_from(
                    self.fleet@,
                    *coordinates,
                    index as int,
                ),
            decreases 5 - index,
        {
            if let Some(ship) = self.fleet[index] {
                if ship.is_hit(coordinates) {
                    return ship.probe(coordinates);
                }
            }
            index += 1;
        }
        Occupation::Empty
    }

    /// The number of ships that are not sunk.
    pub fn active_ships(&self) -> (n: usize)
        ensures
            n == afloat_count(self@.fleet),
            n <= 5,
            n <= placed_count(self@.fleet),
    {
        proof {
            defeated_when_all_sunk(self@.fleet);
        }
        active_ships(self.fleet)
    }

    /// Whether no ship is afloat.
    pub fn is_defeated(&self) -> (b: bool)
        ensures
            b == (afloat_count(self@.fleet) == 0),
            b == (forall|i: int|
                0 <= i < 5 && (#[trigger] self@.fleet[i]) is Some ==> self@.fleet[i]->0.class.sunk()),
    {
        broadcast use vstd::array::group_array_axioms;

        proof {
            defeated_when_all_sunk(self@.fleet);
        }
        is_defeated(self.fleet)
    }

    /// Shoots at a cell: a hit leaves the player with the first ship lying
    /// there struck, and defeated once no ship is afloat, and returns that
    /// player with the ship as it is after the hit.
    pub fn shoot(&self, coordinates: &Point) -> (r: Impact<(Player, Ship)>)
        ensures
            match r {
                Impact::Miss => self@.shot_at(*coordinates) is Miss,
                Impact::Hit((player, hit)) => self@.shot_at(*coordinates) == Impact::Hit(
                    (player@, hit),
                ),
            },
    {
        broadcast use vstd::array::group_array_axioms;

        let mut index: usize = 0;
        while index < 5
            invariant
                index <= 5,
                self.fleet@.len() == 5,
                first_covering_from(self.fleet@, *coordinates, 0) == first_covering_from(
                    self.fleet@,
                    *coordinates,
                    index as int,
                ),
            decreases 5 - index,
        {
            if let Some(ship) = self.fleet[index] {
                match ship.shoot(coordinates) {
                    Impact::Hit(hit_ship) => {
                        let mut new_fleet = self.fleet;
                        new_fleet[index] = Some(hit_ship);
                        assert(new_fleet@ =~= self.fleet@.update(index as int, Some(hit_ship)));
                        let status = if is_defeated(new_fleet) {
                            Status::Defeated
                        } else {
                            self.status
                        };
                        return Impact::Hit(
                            (
                                Player::new(
                                    self.name.clone(),
                                    self.secret.clone(),
                                    new_fleet,
                                    status,
                                    self.field_size,
                                ),
                                hit_ship,
                            ),
                        );
                    },
                    Impact::Miss => {},
                }
            }
            index += 1;
        }
        Impact::Miss
    }
}

/// Counts the ships of a fleet that are not sunk.
pub fn active_ships(fleet: [Option<Ship>; 5]) -> (n: usize)
    ensures
        n == afloat_count(fleet@),
        n <= 5,
{
    broadcast use vstd::array::group_array_axioms;

    let mut count: usize = 0;
    let mut index: usize = 0;
    while index < 5
        invariant
            index <= 5,
            fleet@.len() == 5,
            count <= index,
            count == afloat_count(fleet@.take(index as int)),
        decreases 5 - index,
    {
        assert(fleet@.take(index + 1).drop_last() =~= fleet@.take(index as int));
        if let Some(ship) = fleet[index] {
            if !ship.is_sunk() {
                count += 1;
            }
        }
        index += 1;
    }
    assert(fleet@.take(5) =~= fleet@);
    count
}

/// A fleet is defeated when none of its ships is afloat.
pub fn is_defeated(fleet: [Option<Ship>; 5]) -> (b: bool)
    ensures
        b == (afloat_count(fleet@) == 0),
{
    active_ships(fleet) == 0
}

/// No ship is counted exactly when every slot is free, and as many ships as
/// there are slots exactly when none is.
pub proof fn placed_count_counts(fleet: Seq<Option<Ship>>)
    ensures
        placed_count(fleet) <= fleet.len(),
        placed_count(fleet) == 0 <==> (forall|i: int| 0 <= i < fleet.len() ==> fleet[i] is None),
        placed_count(fleet) == fleet.len() <==> (forall|i: int|
            0 <= i < fleet.len() ==> fleet[i] is Some),
    decreases fleet.len(),
{
    if fleet.len() > 0 {
        let front = fleet.drop_last();
        placed_count_counts(front);
        if placed_count(fleet) == 0 {
            assert forall|i: int| 0 <= i < fleet.len() implies fleet[i] is None by {
                if i < fleet.len() - 1 {
                    assert(front[i] is None);
                }
            }
        }
        if placed_count(fleet) == fleet.len() {
            assert forall|i: int| 0 <= i < fleet.len() implies fleet[i] is Some by {
                if i < fleet.len() - 1 {
                    assert(front[i] is Some);
                }
            }
        }
        if forall|i: int| 0 <= i < fleet.len() ==> fleet[i] is None {
            assert forall|i: int| 0 <= i < front.len() implies front[i] is None by {
                assert(fleet[i] is None);
            }
        }
        if forall|i: int| 0 <= i < fleet.len() ==> fleet[i] is Some {
            assert forall|i: int| 0 <= i < front.len() implies front[i] is Some by {
                assert(fleet[i] is Some);
            }
        }
    }
}

/// No ship is afloat exactly when every placed ship is sunk.
pub proof fn defeated_when_all_sunk(fleet: Seq<Option<Ship>>)
    ensures
        afloat_count(fleet) == 0 <==> (forall|i: int|
            0 <= i < fleet.len() && (#[trigger] fleet[i]) is Some ==> fleet[i]->0.class.sunk()),
        afloat_count(fleet) <= placed_count(fleet) <= fleet.len(),
    decreases fleet.len(),
{
    if fleet.len() > 0 {
        let front = fleet.drop_last();
        defeated_when_all_sunk(front);
        if afloat_count(fleet) == 0 {
            assert forall|i: int| 0 <= i < fleet.len() && (#[trigger] fleet[i]) is Some implies fleet[i]->0.class.sunk() by {
                if i < fleet.len() - 1 {
                    assert(front[i] is Some);
                }
            }
        } else if afloat_count(front) != 0 {
            let i = choose|i: int|
                0 <= i < front.len() && (#[trigger] front[i]) is Some && !front[i]->0.class.sunk();
            assert(fleet[i] is Some && !fleet[i]->0.class.sunk());
        }
    }
}

/// Putting a ship into a free slot adds one to the number of placed ships.
pub proof fn placing_adds_one(fleet: Seq<Option<Ship>>, slot: int, ship: Ship)
    requires
        0 <= slot < fleet.len(),
        fleet[slot] is None,
    ensures
        placed_count(fleet.update(slot, Some(ship))) == placed_count(fleet) + 1,
    decreases fleet.len(),
{
    let after = fleet.update(slot, Some(ship));
    if slot == fleet.len() - 1 {
        assert(after.drop_last() =~= fleet.drop_last());
    } else {
        placing_adds_one(fleet.drop_last(), slot, ship);
        assert(after.drop_last() =~= fleet.drop_last().update(slot, Some(ship)));
    }
}

/// Replacing a ship by another changes the number afloat by the difference
/// between the two.
pub proof fn replacing_changes_afloat(fleet: Seq<Option<Ship>>, slot: int, after: Ship)
    requires
        0 <= slot < fleet.len(),
        fleet[slot] is Some,
    ensures
        afloat_count(fleet.update(slot, Some(after))) + if fleet[slot]->0.class.sunk() {
            0nat
        } else {
            1nat
        } == afloat_count(fleet) + if after.class.sunk() {
            0nat
        } else {
            1nat
        },
        placed_count(fleet.update(slot, Some(after))) == placed_count(fleet),
    decreases fleet.len(),
{
    let changed = fleet.update(slot, Some(after));
    if slot == fleet.len() - 1 {
        assert(changed.drop_last() =~= fleet.drop_last());
    } else {
        replacing_changes_afloat(fleet.drop_last(), slot, after);
        assert(changed.drop_last() =~= fleet.drop_last().update(slot, Some(after)));
    }
}

/// A hit never raises the number of ships afloat. It lowers that number by
/// one exactly when it sinks a ship that was afloat, and a ship is sunk by the
/// hit that sets its last flag.
pub proof fn hit_lowers_afloat_by_at_most_one(player: PlayerView, p: Point)
    requires
        player.shot_at(p) is Hit,
    ensures
        ({
            let slot = first_covering_from(player.fleet, p, 0)->0;
            let before = player.fleet[slot]->0;
            let after = player.shot_at(p)->Hit_0.0;
            let hit = player.shot_at(p)->Hit_0.1;
            &&& hit == before.struck(p)
            &&& before.class.sunk() ==> hit.class.sunk()
            &&& hit.class.sunk() <==> hit.class.hits() == hit.class.length()
            &&& afloat_count(after.fleet) == afloat_count(player.fleet) - if !before.class.sunk()
                && hit.class.sunk() {
                1int
            } else {
                0int
            }
            &&& placed_count(after.fleet) == placed_count(player.fleet)
            &&& after.status == Status::Defeated <==> afloat_count(after.fleet) == 0
                || player.status == Status::Defeated
        }),
{
    first_covering_is_first(player.fleet, p, 0);
    let slot = first_covering_from(player.fleet, p, 0)->0;
    let before = player.fleet[slot]->0;
    let hit = before.struck(p);
    replacing_changes_afloat(player.fleet, slot, hit);
    crate::model::class::shot_sets_at_most_one_flag(before.class, before.local(p));
    crate::model::class::sunk_when_all_cells_hit(hit.class);
}

/// A hit leaves a sound fleet sound: the ship that was struck lies where it
/// lay and is of the kind it was.
pub proof fn hit_keeps_fleet_sound(player: PlayerView, p: Point)
    requires
        player.shot_at(p) is Hit,
        fleet_sound(player.fleet, player.field_size),
    ensures
        fleet_sound(player.shot_at(p)->Hit_0.0.fleet, player.field_size),
        player.shot_at(p)->Hit_0.0.field_size == player.field_size,
        player.shot_at(p)->Hit_0.0.name == player.name,
{
    first_covering_is_first(player.fleet, p, 0);
    let slot = first_covering_from(player.fleet, p, 0)->0;
    let before = player.fleet[slot]->0;
    let hit = before.struck(p);
    before.class.marked_flags(before.local(p));
    before.class.flags_len();
    hit.class.flags_len();
    let after = player.fleet.update(slot, Some(hit));
    assert(hit.class.length() == before.class.length());
    assert forall|i: int| 0 <= i < after.len() && (#[trigger] after[i]) is Some implies inside(
        player.field_size,
        after[i]->0,
    ) by {
        if i != slot {
            assert(player.fleet[i] is Some);
        } else {
            assert(player.fleet[slot] is Some);
        }
    }
    assert forall|i: int, j: int|
        0 <= i < j < after.len() && (#[trigger] after[i]) is Some && (#[trigger] after[j]) is Some implies {
        &&& !after[i]->0.class.same_kind(after[j]->0.class)
        &&& !after[i]->0.collides(after[j]->0)
    } by {
        assert(player.fleet[i] is Some && player.fleet[j] is Some);
    }
}

/// A ship that passes the verdict and finds a free slot leaves a sound fleet
/// sound, with one ship more.
pub proof fn placing_keeps_fleet_sound(player: PlayerView, ship: Ship)
    requires
        fleet_sound(player.fleet, player.field_size),
        player.placing(ship) is Ok,
    ensures
        fleet_sound(player.placing(ship)->Ok_0.fleet, player.field_size),
        placed_count(player.placing(ship)->Ok_0.fleet) == placed_count(player.fleet) + 1,
        player.placing(ship)->Ok_0.field_size == player.field_size,
{
    let fleet = player.fleet;
    first_collision_is_first(fleet, ship, 0);
    first_free_is_first(fleet, 0);
    let slot = first_free_from(fleet, 0)->0;
    placing_adds_one(fleet, slot, ship);
    let after = fleet.update(slot, Some(ship));
    assert forall|i: int, j: int|
        0 <= i < j < after.len() && (#[trigger] after[i]) is Some && (#[trigger] after[j]) is Some implies {
        &&& !after[i]->0.class.same_kind(after[j]->0.class)
        &&& !after[i]->0.collides(after[j]->0)
    } by {
        if i == slot {
            assert(fleet[j] is Some);
        } else if j == slot {
            assert(fleet[i] is Some);
        } else {
            assert(fleet[i] is Some && fleet[j] is Some);
        }
    }
    assert forall|i: int| 0 <= i < after.len() && (#[trigger] after[i]) is Some implies inside(
        player.field_size,
        after[i]->0,
    ) by {
        if i != slot {
            assert(fleet[i] is Some);
        }
    }
}

/// A ship that does not lie within the board is refused for that reason
/// whether or not it collides with another, unless its kind has been placed
/// already.
pub proof fn out_of_bounds_comes_before_collision(player: PlayerView, ship: Ship)
    requires
        !holds_kind(player.fleet, ship.class),
        !inside(player.field_size, ship),
    ensures
        player.verdict(ship) == Err::<(), GameError>(
            GameError::ShipOutOfBounds(
                ship.coordinates,
                ship.orientation,
                ship.class.length() as u8,
            ),
        ),
        player.placing(ship) is Err,
{
}

/// The player after placing the ships of a sequence one after another, where
/// every one of them is accepted.
pub open spec fn placing_all(player: PlayerView, ships: Seq<Ship>) -> Option<PlayerView>
    decreases ships.len(),
{
    if ships.len() == 0 {
        Some(player)
    } else {
        match placing_all(player, ships.drop_last()) {
            Some(before) => match before.placing(ships.last()) {
                Ok(after) => Some(after),
                Err(_) => None,
            },
            None => None,
        }
    }
}

/// After any sequence of accepted placements on a sound fleet the fleet is
/// sound, so no two of its ships collide, and it has grown by the number of
/// ships placed.
pub proof fn accepted_placements_keep_fleet_sound(player: PlayerView, ships: Seq<Ship>)
    requires
        fleet_sound(player.fleet, player.field_size),
        placing_all(player, ships) is Some,
    ensures
        fleet_sound(placing_all(player, ships)->0.fleet, player.field_size),
        placing_all(player, ships)->0.field_size == player.field_size,
        placed_count(placing_all(player, ships)->0.fleet) == placed_count(player.fleet)
            + ships.len(),
    decreases ships.len(),
{
    if ships.len() > 0 {
        accepted_placements_keep_fleet_sound(player, ships.drop_last());
        let before = placing_all(player, ships.drop_last())->0;
        placing_keeps_fleet_sound(before, ships.last());
    }
}

/// A piece of text written a number of times over.
pub open spec fn repeated(piece: Seq<char>, times: nat) -> Seq<char>
    decreases times,
{
    if times == 0 {
        Seq::empty()
    } else {
        repeated(piece, (times - 1) as nat) + piece
    }
}

/// A horizontal line of a drawn board: a left end, then for every column but
/// the last the inner piece and a border, then the inner piece once more, the
/// right end and a line break. `width` counts the columns but the last.
pub open spec fn ruler_text(
    width: nat,
    left: Seq<char>,
    inner: Seq<char>,
    border: Seq<char>,
    right: Seq<char>,
) -> Seq<char> {
    left + repeated(inner + border, width) + inner + right + "\n"@
}

/// The line above the first row.
pub open spec fn top_ruler_text(width: nat) -> Seq<char> {
    ruler_text(width, "    ╔"@, "══╧══"@, "╤"@, "╗"@)
}

/// The line between two rows.
pub open spec fn inner_ruler_text(width: nat) -> Seq<char> {
    ruler_text(width, "    ╟"@, "─────"@, "┼"@, "╢"@)
}

/// The line below the last row.
pub open spec fn bottom_ruler_text(width: nat) -> Seq<char> {
    ruler_text(width, "    ╚"@, "═════"@, "╧"@, "╝"@)
}

/// The numbers of the first columns, each in a field of its own.
pub open spec fn header_text(columns: nat) -> Seq<char>
    decreases columns,
{
    if columns == 0 {
        Seq::empty()
    } else {
        header_text((columns - 1) as nat) + "  "@ + decimal_digits((columns - 1) as nat) + "   "@
    }
}

/// The first cells of a row, each between blanks and followed by a border:
/// a heavy one after the tenth column, a light one after any other.
pub open spec fn cells_text(player: PlayerView, y: u8, columns: nat) -> Seq<char>
    decreases columns,
{
    if columns == 0 {
        Seq::empty()
    } else {
        cells_text(player, y, (columns - 1) as nat) + " "@ + player.sight(
            Point { x: (columns - 1) as u8, y },
        ).rendering() + " "@ + if columns - 1 == 9 {
            "║"@
        } else {
            "│"@
        }
    }
}

/// A row of a drawn board: the line above it, its number, its cells and a
/// line break.
pub open spec fn row_text(player: PlayerView, y: u8) -> Seq<char> {
    let last = (player.field_size.width - 1) as nat;
    (if y == 0 {
        top_ruler_text(last)
    } else {
        inner_ruler_text(last)
    }) + "  "@ + decimal_digits(y as nat) + " ╢"@ + cells_text(
        player,
        y,
        player.field_size.width as nat,
    ) + "\n"@
}

/// The first rows of a drawn board.
pub open spec fn rows_text(player: PlayerView, rows: nat) -> Seq<char>
    decreases rows,
{
    if rows == 0 {
        Seq::empty()
    } else {
        rows_text(player, (rows - 1) as nat) + row_text(player, (rows - 1) as u8)
    }
}

/// The board of a player, drawn: the numbers of the columns, the rows, and
/// the line below the last row.
pub open spec fn board_text(player: PlayerView) -> Seq<char> {
    "\n\n     "@ + header_text(player.field_size.width as nat) + "\n"@ + rows_text(
        player,
        player.field_size.height as nat,
    ) + bottom_ruler_text((player.field_size.width - 1) as nat)
}

/// Draws a horizontal line of a board with `width` columns and one more.
pub fn ruler(width: u8, left: &str, inner: &str, border: &str, right: &str) -> (line: String)
    requires
        width >= 1,
    ensures
        line@ == ruler_text(width as nat, left@, inner@, border@, right@),
{
    let mut line = String::from_str(left);
    let mut column: u8 = 0;
    assert(line@ =~= left@ + repeated(inner@ + border@, 0));
    while column < width
        invariant
            column <= width,
            line@ == left@ + repeated(inner@ + border@, column as nat),
        decreases width - column,
    {
        line.append(inner);
        line.append(border);
        column += 1;
        assert(line@ =~= left@ + repeated(inner@ + border@, column as nat));
    }
    line.append(inner);
    line.append(right);
    line.append("\n");
    line
}

/// Draws the line above the first row.
pub fn top_ruler(width: u8) -> (line: String)
    requires
        width >= 1,
    ensures
        line@ == top_ruler_text(width as nat),
{
    ruler(width, "    ╔", "══╧══", "╤", "╗")
}

/// Draws the line between two rows.
pub fn inner_ruler(width: u8) -> (line: String)
    requires
        width >= 1,
    ensures
        line@ == inner_ruler_text(width as nat),
{
    ruler(width, "    ╟", "─────", "┼", "╢")
}

/// Draws the line below the last row.
pub fn bottom_ruler(width: u8) -> (line: String)
    requires
        width >= 1,
    ensures
        line@ == bottom_ruler_text(width as nat),
{
    ruler(width, "    ╚", "═════", "╧", "╝")
}

impl Player {
    /// Draws the board with the fleet as it stands. The board has two
    /// columns and one row at least.
    pub fn render(&self) -> (board: String)
        requires
            self@.field_size.width >= 2,
            self@.field_size.height >= 1,
        ensures
            board@ == board_text(self@),
    {
        let width = self.field_size.width;
        let height = self.field_size.height;
        let last_x = width - 1;
        let mut output = String::from_str("\n\n     ");
        let mut x: u8 = 0;
        assert(output@ =~= "\n\n     "@ + header_text(0));
        while x < width
            invariant
                x <= width,
                output@ == "\n\n     "@ + header_text(x as nat),
            decreases width - x,
        {
            output.append("  ");
            output.append(decimal(x as u64).as_str());
            output.append("   ");
            x += 1;
            assert(output@ =~= "\n\n     "@ + header_text(x as nat));
        }
        output.append("\n");
        let ghost head = output@;
        let mut y: u8 = 0;
        assert(output@ =~= head + rows_text(self@, 0));
        while y < height
            invariant
                y <= height,
                width == self@.field_size.width,
                last_x == width - 1,
                width >= 2,
                output@ == head + rows_text(self@, y as nat),
            decreases height - y,
        {
            let ghost above = output@;
            let line = if y == 0 {
                top_ruler(last_x)
            } else {
                inner_ruler(last_x)
            };
            output.append(line.as_str());
            output.append("  ");
            output.append(decimal(y as u64).as_str());
            output.append(" ╢");
            let ghost start = output@;
            let mut x: u8 = 0;
            assert(output@ =~= start + cells_text(self@, y, 0));
            while x < width
                invariant
                    x <= width,
                    output@ == start + cells_text(self@, y, x as nat),
                decreases width - x,
            {
                output.append(" ");
                output.append(self.probe(&Point::new(x, y)).render().as_str());
                output.append(" ");
                output.append(
                    if x == 9 {
                        "║"
                    } else {
                        "│"
                    },
                );
                x += 1;
                assert(output@ =~= start + cells_text(self@, y, x as nat));
            }
            output.append("\n");
            y += 1;
            assert(output@ =~= above + row_text(self@, (y - 1) as u8));
            assert(output@ =~= head + rows_text(self@, y as nat));
        }
        output.append(bottom_ruler(last_x).as_str());
        assert(output@ =~= board_text(self@));
        output
    }
}

} // verus!
