use vstd::prelude::*;
use vstd::string::*;
use crate::client::turn::Turn;
use crate::model::class::Class;
use crate::model::gameerror::GameError;
use crate::model::orientation::Orientation;
use crate::text::{decimal, decimal_digits, ends_with, is_suffix, number_of, parse_number};

verus! {

/// What a player knows of a game: the player's own name, the roster, the
/// players known to be defeated, and the number of the player's ships.
pub struct Game {
    pub name: String,
    pub players: Vec<String>,
    pub defeated: Vec<String>,
    pub ships: usize,
}

/// What the player waits for.
#[derive(Debug, Clone, Copy, PartialEq, Eq, Structural)]
pub enum Waiting {
    /// The phase of the game, before the first turn.
    Opening,
    /// The name of the player whose turn it is.
    Current,
    /// The phase of the game, between two turns.
    Phase,
}

/// What comes of a message that the player waited for.
#[derive(Debug, PartialEq, Eq)]
pub enum Step {
    /// Nothing yet: wait for the next message, of the kind given.
    Wait(Waiting),
    /// It is the player's turn.
    Play(Turn),
    /// There are no more turns to wait for.
    Done,
}

/// Whether a name stands in a list.
pub open spec fn listed(list: Seq<Seq<char>>, name: Seq<char>) -> bool {
    exists|i: int| 0 <= i < list.len() && #[trigger] list[i] == name
}

/// The names of a list that are neither the given one nor among those left
/// out, in the order of the list.
pub open spec fn others(list: Seq<Seq<char>>, name: Seq<char>, out: Seq<Seq<char>>) -> Seq<
    Seq<char>,
>
    decreases list.len(),
{
    if list.len() == 0 {
        Seq::empty()
    } else {
        let front = others(list.drop_last(), name, out);
        if list.last() != name && !listed(out, list.last()) {
            front.push(list.last())
        } else {
            front
        }
    }
}

/// Whether a name stands in a list.
pub fn contains(list: &Vec<String>, name: &str) -> (b: bool)
    ensures
        b == listed(list.deep_view(), name@),
{
    let wanted = name.to_owned();
    let mut index: usize = 0;
    while index < list.len()
        invariant
            index <= list@.len(),
            wanted@ == name@,
            forall|i: int| 0 <= i < index ==> list.deep_view()[i] != name@,
        decreases list@.len() - index,
    {
        if list[index] == wanted {
            assert(list.deep_view()[index as int] == name@);
            return true;
        }
        index += 1;
    }
    false
}

/// The request with which a player asks to join.
pub open spec fn join_text(name: Seq<char>) -> Seq<char> {
    "{ \"name\": \""@ + name + "\", \"secret\": \"Cockadoodledoo\"}"@
}

/// Writes the request with which a player asks to join.
pub fn join_payload(name: &str) -> (payload: String)
    ensures
        payload@ == join_text(name@),
{
    let mut payload = String::from_str("{ \"name\": \"");
    payload.append(name);
    payload.append("\", \"secret\": \"Cockadoodledoo\"}");
    payload
}

/// The request with which a player places a ship.
pub open spec fn placement_text(x: u8, y: u8, orientation: Orientation) -> Seq<char> {
    "{ \"coordinates\": { \"x\": "@ + decimal_digits(x as nat) + ", \"y\": "@ + decimal_digits(
        y as nat,
    ) + " }, \"orientation\": \""@ + orientation.rendering() + "\" }"@
}

/// Writes the request with which a player places a ship.
pub fn placement_payload(x: u8, y: u8, orientation: Orientation) -> (payload: String)
    ensures
        payload@ == placement_text(x, y, orientation),
{
    let mut payload = String::from_str("{ \"coordinates\": { \"x\": ");
    payload.append(decimal(x as u64).as_str());
    payload.append(", \"y\": ");
    payload.append(decimal(y as u64).as_str());
    payload.append(" }, \"orientation\": \"");
    payload.append(orientation.render().as_str());
    payload.append("\" }");
    payload
}

/// What the answer to a placement means to the player.
#[derive(Debug, PartialEq, Eq)]
pub enum Placement {
    /// The ship stands: it was approved now, or had been placed before.
    Placed,
    /// The ship was refused, for the reason given.
    Refused(String),
    /// The message is no answer to the placement.
    Unrelated,
}

/// Whether an answer says that the ship stands: an approval, or the error
/// that tells of a ship of its kind placed before.
pub open spec fn stands(topic: Seq<char>, payload: Seq<char>, class: Class) -> bool {
    ||| is_suffix(topic, "approved"@) && payload == "true"@
    ||| !(is_suffix(topic, "approved"@) && payload == "true"@) && is_suffix(topic, "error"@)
        && payload == GameError::ShipAlreadyPlaced(class).rendering()
}

/// Reads the answer to the placement of a ship of one kind.
pub fn placement_answer(topic: &str, payload: &str, class: &Class) -> (answer: Placement)
    ensures
        stands(topic@, payload@, *class) <==> answer is Placed,
        answer matches Placement::Refused(reason) ==> is_suffix(topic@, "error"@) && reason@
            == payload@,
        answer is Unrelated <==> !stands(topic@, payload@, *class)
            && !is_suffix(topic@, "error"@),
{
    let text = payload.to_owned();
    if ends_with(topic, "approved") && text == String::from_str("true") {
        Placement::Placed
    } else if ends_with(topic, "error") {
        if text == GameError::ShipAlreadyPlaced(*class).render() {
            Placement::Placed
        } else {
            Placement::Refused(text)
        }
    } else {
        Placement::Unrelated
    }
}

impl Game {
    /// What a player knows on entering: the name, a roster, the number of
    /// ships, and nobody defeated.
    pub fn new(name: String, players: Vec<String>, ships: usize) -> (game: Game)
        ensures
            game.name == name,
            game.players == players,
            game.defeated@.len() == 0,
            game.ships == ships,
    {
        Game { name, players, defeated: Vec::new(), ships }
    }

    /// Whether a message on defeat says that the player is defeated: only
    /// the word `true` does.
    pub fn is_defeated(payload: &str) -> (b: bool)
        ensures
            b == (payload@ == "true"@),
    {
        payload.to_owned() == String::from_str("true")
    }

    /// Whether the player's name stands on a roster that the server told.
    pub fn has_joined(&self, roster: &Vec<String>) -> (b: bool)
        ensures
            b == listed(roster.deep_view(), self.name@),
    {
        contains(roster, self.name.as_str())
    }

    /// Whether shots are left of a salvo of as many shots as the player has
    /// ships, once the given number has been fired.
    pub fn shots_left(&self, fired: u8) -> (b: bool)
        ensures
            b == (fired < self.ships),
    {
        (fired as usize) < self.ships
    }

    /// Whether the salvo is over, by the count of shots that the server
    /// told: it is once the count has reached the number of the player's
    /// ships. A count that is no number ends nothing.
    pub fn salvo_done(&self, payload: &str) -> (b: bool)
        ensures
            b == match number_of(payload@) {
                Some(fired) => fired >= self.ships,
                None => false,
            },
    {
        match parse_number(payload) {
            Some(fired) => !self.shots_left(fired),
            None => false,
        }
    }

    /// Notes that a player is defeated.
    pub fn note_defeat(&mut self, player: &str)
        ensures
            final(self).name == old(self).name,
            final(self).players == old(self).players,
            final(self).ships == old(self).ships,
            final(self).defeated.deep_view() == old(self).defeated.deep_view().push(player@),
    {
        self.defeated.push(player.to_owned());
        assert(self.defeated.deep_view() =~= old(self).defeated.deep_view().push(player@));
    }

    /// The players that may be shot at: those of the roster other than the
    /// player, and not known to be defeated.
    pub fn enemies(&self) -> (list: Vec<String>)
        ensures
            list.deep_view() == others(
                self.players.deep_view(),
                self.name@,
                self.defeated.deep_view(),
            ),
    {
        let mut list: Vec<String> = Vec::new();
        let mut index: usize = 0;
        let ghost roster = self.players.deep_view();
        assert(roster.take(0) =~= Seq::empty());
        while index < self.players.len()
            invariant
                index <= self.players@.len(),
                roster == self.players.deep_view(),
                list.deep_view() == others(
                    roster.take(index as int),
                    self.name@,
                    self.defeated.deep_view(),
                ),
            decreases self.players@.len() - index,
        {
            let ghost before = list.deep_view();
            assert(roster.take(index + 1).drop_last() =~= roster.take(index as int));
            assert(roster.take(index + 1).last() == self.players@[index as int]@);
            let player = &self.players[index];
            if *player != self.name && !contains(&self.defeated, player.as_str()) {
                list.push(player.clone());
                assert(list.deep_view() =~= before.push(player@));
            }
            index += 1;
        }
        assert(roster.take(index as int) =~= roster);
        list
    }

    /// What comes of a message that the player waited for. A game still in
    /// the lobby, or over, has no turns. The turn is the player's once the
    /// player's name is told as the current one; the turn of another is
    /// followed by a look at the phase.
    pub fn next(&self, waiting: Waiting, payload: &str) -> (step: Step)
        ensures
            match waiting {
                Waiting::Opening => if payload@ == "lobby"@ {
                    step is Done
                } else {
                    step == Step::Wait(Waiting::Current)
                },
                Waiting::Current => if payload@ == self.name@ {
                    step matches Step::Play(turn) && turn.attacks == self.ships && turn.current
                        == 0 && turn.enemies.deep_view() == others(
                        self.players.deep_view(),
                        self.name@,
                        self.defeated.deep_view(),
                    )
                } else {
                    step == Step::Wait(Waiting::Phase)
                },
                Waiting::Phase => if payload@ == "over"@ {
                    step is Done
                } else {
                    step == Step::Wait(Waiting::Current)
                },
            },
    {
        let text = payload.to_owned();
        match waiting {
            Waiting::Opening => {
                if text == String::from_str("lobby") {
                    Step::Done
                } else {
                    Step::Wait(Waiting::Current)
                }
            },
            Waiting::Current => {
                if text == self.name {
                    Step::Play(Turn::new(self.enemies(), self.ships))
                } else {
                    Step::Wait(Waiting::Phase)
                }
            },
            Waiting::Phase => {
                if text == String::from_str("over") {
                    Step::Done
                } else {
                    Step::Wait(Waiting::Current)
                }
            },
        }
    }
}

} // verus!
