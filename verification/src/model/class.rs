use vstd::prelude::*;
use vstd::string::*;
use crate::model::occupation::Occupation;

verus! {

/// The five kinds of ship. Each carries one hit flag for every cell it covers,
/// counted from the ship's origin.
#[derive(Debug, Clone, Copy, PartialEq, Eq)]
pub enum Class {
    Carrier([bool; 5]),
    Battleship([bool; 4]),
    Destroyer([bool; 3]),
    Submarine([bool; 3]),
    PatrolBoat([bool; 2]),
}

/// How many flags of a sequence are set.
pub open spec fn count_set(flags: Seq<bool>) -> nat
    decreases flags.len(),
{
    if flags.len() == 0 {
        0
    } else {
        count_set(flags.drop_last()) + if flags.last() {
            1nat
        } else {
            0nat
        }
    }
}

/// Setting a flag that was clear adds one to the count; setting one that was
/// set leaves the count as it was.
pub proof fn count_set_after_update(flags: Seq<bool>, i: int)
    requires
        0 <= i < flags.len(),
    ensures
        count_set(flags.update(i, true)) == count_set(flags) + if flags[i] {
            0nat
        } else {
            1nat
        },
    decreases flags.len(),
{
    let after = flags.update(i, true);
    if i == flags.len() - 1 {
        assert(after.drop_last() =~= flags.drop_last());
    } else {
        count_set_after_update(flags.drop_last(), i);
        assert(after.drop_last() =~= flags.drop_last().update(i, true));
    }
}

/// The count never exceeds the number of flags, and reaches it exactly when
/// every flag is set.
pub proof fn count_set_full(flags: Seq<bool>)
    ensures
        count_set(flags) <= flags.len(),
        count_set(flags) == flags.len() <==> (forall|i: int| 0 <= i < flags.len() ==> flags[i]),
    decreases flags.len(),
{
    if flags.len() > 0 {
        let front = flags.drop_last();
        count_set_full(front);
        if count_set(flags) == flags.len() {
            assert forall|i: int| 0 <= i < flags.len() implies flags[i] by {
                if i < flags.len() - 1 {
                    assert(front[i]);
                }
            }
        }
        if forall|i: int| 0 <= i < flags.len() ==> flags[i] {
            assert forall|i: int| 0 <= i < front.len() implies front[i] by {
                assert(flags[i]);
            }
        }
    }
}

impl Default for Class {
    /// A ship whose kind is not given is an untouched battleship.
    fn default() -> (c: Class)
        ensures
            c == Class::pristine(1),
    {
        Class::Battleship([false;4])
    }
}

impl Class {
    /// The hit flags, one for each cell from the origin on.
    pub open spec fn flags(self) -> Seq<bool> {
        match self {
            Class::Carrier(places) => places@,
            Class::Battleship(places) => places@,
            Class::Destroyer(places) => places@,
            Class::Submarine(places) => places@,
            Class::PatrolBoat(places) => places@,
        }
    }

    /// The number of cells that a ship of this kind covers.
    pub open spec fn length(self) -> nat {
        match self {
            Class::Carrier(_) => 5,
            Class::Battleship(_) => 4,
            Class::Destroyer(_) => 3,
            Class::Submarine(_) => 3,
            Class::PatrolBoat(_) => 2,
        }
    }

    /// Two values are of one kind when they differ at most in their flags.
    pub open spec fn same_kind(self, other: Class) -> bool {
        match self {
            Class::Carrier(_) => other is Carrier,
            Class::Battleship(_) => other is Battleship,
            Class::Destroyer(_) => other is Destroyer,
            Class::Submarine(_) => other is Submarine,
            Class::PatrolBoat(_) => other is PatrolBoat,
        }
    }

    /// No cell has been hit.
    pub open spec fn untouched(self) -> bool {
        forall|i: int| 0 <= i < self.flags().len() ==> !self.flags()[i]
    }

    /// Every cell has been hit.
    pub open spec fn sunk(self) -> bool {
        forall|i: int| 0 <= i < self.flags().len() ==> self.flags()[i]
    }

    /// The number of cells that have been hit.
    pub open spec fn hits(self) -> nat {
        count_set(self.flags())
    }

    /// The lower-case word that names the kind in topics and messages.
    pub open spec fn label(self) -> Seq<char> {
        match self {
            Class::Carrier(_) => "carrier"@,
            Class::Battleship(_) => "battleship"@,
            Class::Destroyer(_) => "destroyer"@,
            Class::Submarine(_) => "submarine"@,
            Class::PatrolBoat(_) => "patrolboat"@,
        }
    }

    /// The letter that stands for the kind on a drawn board.
    pub open spec fn token(self) -> Seq<char> {
        match self {
            Class::Carrier(_) => "C"@,
            Class::Battleship(_) => "B"@,
            Class::Destroyer(_) => "D"@,
            Class::Submarine(_) => "S"@,
            Class::PatrolBoat(_) => "P"@,
        }
    }

    /// The flag of cell `x`, where the ship has such a cell.
    pub open spec fn flag_at(self, x: int) -> Option<bool> {
        if 0 <= x < self.flags().len() {
            Some(self.flags()[x])
        } else {
            None
        }
    }

    /// The flags after a shot at cell `x`: that flag set, the others kept; a
    /// shot beyond the ship changes nothing.
    pub open spec fn flags_after(self, x: int) -> Seq<bool> {
        if 0 <= x < self.flags().len() {
            self.flags().update(x, true)
        } else {
            self.flags()
        }
    }

    /// The ship after a shot at cell `x`: that flag set, the others kept; a
    /// shot beyond the ship changes nothing.
    pub open spec fn marked(self, x: int) -> Class {
        if 0 <= x < self.flags().len() {
            match self {
                Class::Carrier(places) => Class::Carrier(
                    vstd::array::spec_array_update(places, x, true),
                ),
                Class::Battleship(places) => Class::Battleship(
                    vstd::array::spec_array_update(places, x, true),
                ),
                Class::Destroyer(places) => Class::Destroyer(
                    vstd::array::spec_array_update(places, x, true),
                ),
                Class::Submarine(places) => Class::Submarine(
                    vstd::array::spec_array_update(places, x, true),
                ),
                Class::PatrolBoat(places) => Class::PatrolBoat(
                    vstd::array::spec_array_update(places, x, true),
                ),
            }
        } else {
            self
        }
    }

    /// The untouched ship of each kind, by the kind's place in fleet order.
    /// A place beyond the five kinds stands for a carrier.
    pub open spec fn pristine(rank: int) -> Class {
        if rank == 1 {
            Class::Battleship(vstd::array::spec_array_fill_for_copy_type::<bool, 4>(false))
        } else if rank == 2 {
            Class::Destroyer(vstd::array::spec_array_fill_for_copy_type::<bool, 3>(false))
        } else if rank == 3 {
            Class::Submarine(vstd::array::spec_array_fill_for_copy_type::<bool, 3>(false))
        } else if rank == 4 {
            Class::PatrolBoat(vstd::array::spec_array_fill_for_copy_type::<bool, 2>(false))
        } else {
            Class::Carrier(vstd::array::spec_array_fill_for_copy_type::<bool, 5>(false))
        }
    }

    /// What a look at cell `x` shows.
    pub open spec fn sight(self, x: int) -> Occupation {
        if 0 <= x < self.flags().len() {
            if self.sunk() {
                Occupation::Sunk(self)
            } else {
                Occupation::Ship(self, self.flags()[x])
            }
        } else {
            Occupation::Empty
        }
    }

    /// The number of flags is the length of the kind.
    pub proof fn flags_len(self)
        ensures
            self.flags().len() == self.length(),
            2 <= self.length() <= 5,
    {
        broadcast use vstd::array::group_array_axioms;

    }

    /// A shot keeps the kind and sets the flag of the cell, if the ship has it.
    pub proof fn marked_flags(self, x: int)
        ensures
            self.marked(x).same_kind(self),
            self.marked(x).flags() == self.flags_after(x),
    {
        broadcast use vstd::array::group_array_axioms;

    }

    /// The untouched ships are untouched, and of the kinds in fleet order.
    pub proof fn pristine_kinds()
        ensures
            forall|rank: int| (#[trigger] Class::pristine(rank)).untouched(),
            Class::pristine(0) is Carrier,
            Class::pristine(1) is Battleship,
            Class::pristine(2) is Destroyer,
            Class::pristine(3) is Submarine,
            Class::pristine(4) is PatrolBoat,
    {
        broadcast use vstd::array::group_array_axioms;

    }

    /// Values of one kind with the same flags are the same value.
    pub proof fn same_kind_same_flags(self, other: Class)
        requires
            self.same_kind(other),
            self.flags() == other.flags(),
        ensures
            self == other,
    {
        broadcast use vstd::array::group_array_axioms;

        match (self, other) {
            (Class::Carrier(a), Class::Carrier(b)) => {
                assert(a =~= b);
            },
            (Class::Battleship(a), Class::Battleship(b)) => {
                assert(a =~= b);
            },
            (Class::Destroyer(a), Class::Destroyer(b)) => {
                assert(a =~= b);
            },
            (Class::Submarine(a), Class::Submarine(b)) => {
                assert(a =~= b);
            },
            (Class::PatrolBoat(a), Class::PatrolBoat(b)) => {
                assert(a =~= b);
            },
            _ => {},
        }
    }

    /// The five kinds in fleet order, each untouched.
    pub fn all() -> (v: Vec<Class>)
        ensures
            v@.len() == 5,
            forall|i: int| 0 <= i < 5 ==> #[trigger] v@[i] == Class::pristine(i),
    {
        broadcast use vstd::array::group_array_axioms;

        let mut v: Vec<Class> = Vec::new();
        v.push(Class::Carrier([false;5]));
        v.push(Class::Battleship([false;4]));
        v.push(Class::Destroyer([false;3]));
        v.push(Class::Submarine([false;3]));
        v.push(Class::PatrolBoat([false;2]));
        v
    }

    /// The untouched ship that a word names. A word that names no kind stands
    /// for a carrier.
    pub fn from_name(name: &str) -> (c: Class)
        ensures
            c == if name@ == "battleship"@ {
                Class::pristine(1)
            } else if name@ == "destroyer"@ {
                Class::pristine(2)
            } else if name@ == "submarine"@ {
                Class::pristine(3)
            } else if name@ == "patrolboat"@ {
                Class::pristine(4)
            } else {
                Class::pristine(0)
            },
    {
        broadcast use vstd::array::group_array_axioms;

        proof {
            reveal_strlit("battleship");
            reveal_strlit("destroyer");
            reveal_strlit("submarine");
            reveal_strlit("patrolboat");
            assert("battleship"@[0] != "patrolboat"@[0]);
            assert("destroyer"@[0] != "submarine"@[0]);
        }
        let given = name.to_owned();
        if given == String::from_str("battleship") {
            Class::Battleship([false;4])
        } else if given == String::from_str("destroyer") {
            Class::Destroyer([false;3])
        } else if given == String::from_str("submarine") {
            Class::Submarine([false;3])
        } else if given == String::from_str("patrolboat") {
            Class::PatrolBoat([false;2])
        } else {
            Class::Carrier([false;5])
        }
    }

    /// The number of cells that the ship covers.
    pub fn size(&self) -> (n: u8)
        ensures
            n == self.length(),
            n == self.flags().len(),
    {
        proof {
            self.flags_len();
        }
        match self {
            Class::Carrier(_) => 5,
            Class::Battleship(_) => 4,
            Class::Destroyer(_) => 3,
            Class::Submarine(_) => 3,
            Class::PatrolBoat(_) => 2,
        }
    }

    /// Writes the word that names the kind.
    pub fn name(&self) -> (s: String)
        ensures
            s@ == self.label(),
    {
        match self {
            Class::Carrier(_) => String::from_str("carrier"),
            Class::Battleship(_) => String::from_str("battleship"),
            Class::Destroyer(_) => String::from_str("destroyer"),
            Class::Submarine(_) => String::from_str("submarine"),
            Class::PatrolBoat(_) => String::from_str("patrolboat"),
        }
    }

    /// The letter that stands for the kind on a drawn board.
    pub fn map_token(&self) -> (s: &'static str)
        ensures
            s@ == self.token(),
    {
        match self {
            Class::Carrier(_) => "C",
            Class::Battleship(_) => "B",
            Class::Destroyer(_) => "D",
            Class::Submarine(_) => "S",
            Class::PatrolBoat(_) => "P",
        }
    }

    /// Whether two values are of one kind, whatever their flags.
    pub fn is_kind_of(&self, other: &Class) -> (b: bool)
        ensures
            b == self.same_kind(*other),
    {
        match self {
            Class::Carrier(_) => matches!(other, Class::Carrier(_)),
            Class::Battleship(_) => matches!(other, Class::Battleship(_)),
            Class::Destroyer(_) => matches!(other, Class::Destroyer(_)),
            Class::Submarine(_) => matches!(other, Class::Submarine(_)),
            Class::PatrolBoat(_) => matches!(other, Class::PatrolBoat(_)),
        }
    }

    /// The flag at `x`, where the flags reach that far.
    pub fn get_place<const COUNT: usize>(places: &[bool; COUNT], x: usize) -> (r: Option<bool>)
        ensures
            r == if x < COUNT {
                Some(places@[x as int])
            } else {
                None
            },
    {
        if x >= COUNT {
            None
        } else {
            Some(places[x])
        }
    }

    /// The flag of cell `x`, where the ship has such a cell.
    pub fn place(&self, x: usize) -> (r: Option<bool>)
        ensures
            r == self.flag_at(x as int),
    {
        broadcast use vstd::array::group_array_axioms;

        match self {
            Class::Carrier(places) => Self::get_place(places, x),
            Class::Battleship(places) => Self::get_place(places, x),
            Class::Destroyer(places) => Self::get_place(places, x),
            Class::Submarine(places) => Self::get_place(places, x),
            Class::PatrolBoat(places) => Self::get_place(places, x),
        }
    }

    /// What a look at cell `x` shows: a sunk ship, a ship with the cell hit or
    /// not, or nothing beyond the ship.
    pub fn probe(&self, x: usize) -> (o: Occupation)
        ensures
            o == self.sight(x as int),
    {
        if let Some(spot) = self.place(x) {
            if self.is_sunk() {
                Occupation::Sunk(*self)
            } else {
                Occupation::Ship(*self, spot)
            }
        } else {
            Occupation::Empty
        }
    }

    /// The flags with the one at `x` set, where the flags reach that far.
    pub fn mark<const COUNT: usize>(places: &[bool; COUNT], x: u8) -> (r: [bool; COUNT])
        ensures
            r@ == if (x as int) < COUNT {
                places@.update(x as int, true)
            } else {
                places@
            },
    {
        broadcast use vstd::array::group_array_axioms;

        if x as usize >= COUNT {
            return *places;
        }
        let mut marked = *places;
        marked[x as usize] = true;
        assert(marked@ =~= places@.update(x as int, true));
        marked
    }

    /// The ship after a shot at cell `x`.
    pub fn shoot(&self, x: u8) -> (c: Class)
        ensures
            c == self.marked(x as int),
    {
        broadcast use vstd::array::group_array_axioms;

        proof {
            self.marked_flags(x as int);
        }
        let c = match self {
            Class::Carrier(places) => Class::Carrier(Class::mark(places, x)),
            Class::Battleship(places) => Class::Battleship(Class::mark(places, x)),
            Class::Destroyer(places) => Class::Destroyer(Class::mark(places, x)),
            Class::Submarine(places) => Class::Submarine(Class::mark(places, x)),
            Class::PatrolBoat(places) => Class::PatrolBoat(Class::mark(places, x)),
        };
        proof {
            c.same_kind_same_flags(self.marked(x as int));
        }
        c
    }

    /// Whether every flag is set.
    pub fn all_hit<const COUNT: usize>(places: &[bool; COUNT]) -> (r: bool)
        ensures
            r == (forall|i: int| 0 <= i < COUNT ==> places@[i]),
    {
        let mut index: usize = 0;
        while index < COUNT
            invariant
                index <= COUNT,
                forall|i: int| 0 <= i < index ==> places@[i],
            decreases COUNT - index,
        {
            if !places[index] {
                return false;
            }
            index += 1;
        }
        true
    }

    /// Whether every cell of the ship has been hit.
    pub fn is_sunk(&self) -> (b: bool)
        ensures
            b == self.sunk(),
    {
        broadcast use vstd::array::group_array_axioms;

        proof {
            self.flags_len();
        }
        match self {
            Class::Carrier(places) => Class::all_hit(places),
            Class::Battleship(places) => Class::all_hit(places),
            Class::Destroyer(places) => Class::all_hit(places),
            Class::Submarine(places) => Class::all_hit(places),
            Class::PatrolBoat(places) => Class::all_hit(places),
        }
    }
}

/// A shot at a cell of the ship that was not hit before sets exactly one more
/// flag; a shot at a cell hit before, or beyond the ship, sets none. A ship
/// that was sunk stays sunk.
pub proof fn shot_sets_at_most_one_flag(before: Class, x: int)
    ensures
        before.marked(x).hits() == before.hits() + if before.flag_at(x) == Some(false) {
            1nat
        } else {
            0nat
        },
        before.sunk() ==> before.marked(x).sunk(),
        before.marked(x).same_kind(before),
{
    before.marked_flags(x);
    if 0 <= x < before.flags().len() {
        count_set_after_update(before.flags(), x);
    }
}

/// A ship is sunk exactly when as many cells are hit as it has.
pub proof fn sunk_when_all_cells_hit(c: Class)
    ensures
        c.sunk() <==> c.hits() == c.length(),
        c.hits() <= c.length(),
{
    c.flags_len();
    count_set_full(c.flags());
}

/// The words that name the kinds tell them apart, and each word names its own
/// kind.
pub proof fn labels_tell_kinds_apart(a: Class, b: Class)
    ensures
        a.label() == b.label() <==> a.same_kind(b),
{
    reveal_strlit("carrier");
    reveal_strlit("battleship");
    reveal_strlit("destroyer");
    reveal_strlit("submarine");
    reveal_strlit("patrolboat");
    if !a.same_kind(b) {
        assert(a.label().len() != b.label().len() || a.label()[0] != b.label()[0]);
    }
}

} // verus!
