use vstd::prelude::*;
use crate::model::gamestate::{GameState, GameStateView};
use crate::model::player::{afloat_count, placed_count, Player, PlayerView};
use crate::model::size::Size;

verus! {

/// A game: its phase, the roster in the order in which the players joined,
/// the extent of every board and the prefix of its topics.
#[derive(Debug, PartialEq)]
pub struct Game {
    pub state: GameState,
    pub players: Vec<Player>,
    pub size: Size,
    pub prefix: String,
}

/// A game as plain values.
pub struct GameView {
    pub state: GameStateView,
    pub players: Seq<PlayerView>,
    pub size: Size,
    pub prefix: Seq<char>,
}

/// The players of a roster as plain values.
pub open spec fn roster(players: Seq<Player>) -> Seq<PlayerView> {
    Seq::new(players.len(), |i: int| players[i]@)
}

/// The names of a roster, in its order.
pub open spec fn names(players: Seq<PlayerView>) -> Seq<Seq<char>> {
    Seq::new(players.len(), |i: int| players[i].name)
}

/// The first place from `from` on at which a player of that name stands.
pub open spec fn index_of_from(players: Seq<PlayerView>, name: Seq<char>, from: int) -> Option<int>
    decreases players.len() - from,
{
    if from < 0 || from >= players.len() {
        None
    } else if players[from].name == name {
        Some(from)
    } else {
        index_of_from(players, name, from + 1)
    }
}

/// The first place from `from` on at which a player stands who is not defeated.
pub open spec fn first_active_from(players: Seq<PlayerView>, from: int) -> Option<int>
    decreases players.len() - from,
{
    if from < 0 || from >= players.len() {
        None
    } else if afloat_count(players[from].fleet) != 0 {
        Some(from)
    } else {
        first_active_from(players, from + 1)
    }
}

/// The number of players whose fleet is complete.
pub open spec fn ready_count(players: Seq<PlayerView>) -> nat
    decreases players.len(),
{
    if players.len() == 0 {
        0
    } else {
        ready_count(players.drop_last()) + if placed_count(players.last().fleet) == 5 {
            1nat
        } else {
            0nat
        }
    }
}

/// The number of players who are not defeated.
pub open spec fn active_count(players: Seq<PlayerView>) -> nat
    decreases players.len(),
{
    if players.len() == 0 {
        0
    } else {
        active_count(players.drop_last()) + if afloat_count(players.last().fleet) != 0 {
            1nat
        } else {
            0nat
        }
    }
}

/// A place on the roster counted on past its end, brought back to the front.
pub open spec fn wrapped(place: int, len: int) -> int {
    if place >= len {
        place - len
    } else {
        place
    }
}

/// Whose turn comes after that of the player at `index`: the places after it
/// are tried in turn, round the end of the roster, from the `tried`-th on, and
/// the first player there who is not defeated is due. Where all the others are
/// defeated the turn stays where it is.
pub open spec fn next_due(players: Seq<PlayerView>, index: int, tried: int) -> int
    decreases players.len() - tried,
{
    if tried < 0 || tried >= players.len() - 1 {
        index
    } else {
        let candidate = wrapped(index + 1 + tried, players.len() as int);
        if afloat_count(players[candidate].fleet) != 0 {
            candidate
        } else {
            next_due(players, index, tried + 1)
        }
    }
}

/// No two players of the roster share a name.
pub open spec fn names_unique(players: Seq<PlayerView>) -> bool {
    forall|i: int, j: int|
        0 <= i < j < players.len() ==> (#[trigger] players[i]).name != (#[trigger] players[j]).name
}

impl GameView {
    /// The roster holds no name twice, and a game underway names a player of
    /// the roster by place and name.
    pub open spec fn sound(self) -> bool {
        &&& names_unique(self.players)
        &&& self.state matches GameStateView::Underway { index, name, .. } ==> index
            < self.players.len() && self.players[index as int].name == name
    }

    /// The game after a player joined or changed: a player whose name is on
    /// the roster takes that place, any other is added at the end.
    pub open spec fn with_player(self, player: PlayerView) -> GameView {
        match index_of_from(self.players, player.name, 0) {
            Some(index) => GameView { players: self.players.update(index, player), ..self },
            None => GameView { players: self.players.push(player), ..self },
        }
    }

    /// The game once the player at `first` has been chosen to begin. A choice
    /// that names no player of the roster starts nothing.
    pub open spec fn started(self, first: usize) -> GameView {
        if first < self.players.len() {
            GameView {
                state: GameStateView::Underway {
                    index: first,
                    name: self.players[first as int].name,
                    fired_shots: 0,
                    hits: 0,
                },
                ..self
            }
        } else {
            self
        }
    }

    /// The game after the turn has passed on. Only a game that is underway,
    /// with its current player on the roster, has a turn to pass.
    pub open spec fn turned(self) -> GameView {
        match self.state {
            GameStateView::Underway { index, .. } => if index < self.players.len() {
                let next = next_due(self.players, index as int, 0);
                GameView {
                    state: GameStateView::Underway {
                        index: next as usize,
                        name: self.players[next].name,
                        fired_shots: 0,
                        hits: 0,
                    },
                    ..self
                }
            } else {
                self
            },
            _ => self,
        }
    }

    /// The game after one more shot of the turn. The count stops at the
    /// largest number it can hold.
    pub open spec fn shot(self) -> GameView {
        match self.state {
            GameStateView::Underway { index, name, fired_shots, hits } => GameView {
                state: GameStateView::Underway {
                    index,
                    name,
                    fired_shots: if fired_shots < u8::MAX {
                        (fired_shots + 1) as u8
                    } else {
                        fired_shots
                    },
                    hits,
                },
                ..self
            },
            _ => self,
        }
    }

    /// The game once it has been called off: the first player on the roster
    /// who is not defeated has won. Where every player is defeated nothing
    /// changes.
    pub open spec fn ended(self) -> GameView {
        match first_active_from(self.players, 0) {
            Some(index) => GameView {
                state: GameStateView::Over { winner: self.players[index].name },
                ..self
            },
            None => self,
        }
    }
}

impl View for Game {
    type V = GameView;

    open spec fn view(&self) -> GameView {
        GameView {
            state: self.state@,
            players: roster(self.players@),
            size: self.size,
            prefix: self.prefix@,
        }
    }
}

impl Clone for Game {
    fn clone(&self) -> (g: Game)
        ensures
            g@ == self@,
    {
        let mut players: Vec<Player> = Vec::new();
        let mut index: usize = 0;
        while index < self.players.len()
            invariant
                index <= self.players@.len(),
                players@.len() == index,
                forall|i: int| 0 <= i < index ==> (#[trigger] players@[i])@ == self.players@[i]@,
            decreases self.players@.len() - index,
        {
            players.push(self.players[index].clone());
            index += 1;
        }
        assert(roster(players@) =~= roster(self.players@));
        Game { state: self.state.clone(), players, size: self.size, prefix: self.prefix.clone() }
    }
}

impl Game {
    /// A game in the lobby, with nobody on the roster.
    pub fn new(size: Size, prefix: String) -> (g: Game)
        ensures
            g@ == (GameView {
                state: GameStateView::Lobby,
                players: Seq::empty(),
                size,
                prefix: prefix@,
            }),
    {
        let g = Game { state: GameState::Lobby, players: Vec::new(), size, prefix };
        assert(roster(g.players@) =~= Seq::empty());
        g
    }

    /// The prefix of the game's topics.
    pub fn prefix(&self) -> (s: String)
        ensures
            s@ == self@.prefix,
    {
        self.prefix.clone()
    }

    /// Begins the game with the player at the place `first` of the roster. A
    /// place beyond the roster begins nothing.
    pub fn start_with(&mut self, first: usize)
        ensures
            final(self)@ == old(self)@.started(first),
    {
        if first < self.players.len() {
            self.state = GameState::Underway((first, self.players[first].name.clone()), 0, 0);
        }
    }

    /// Begins the game with the player that `dice` picks among the roster:
    /// asked for a number below the length of the roster, it names the place.
    /// With nobody on the roster there is nothing to pick, and `dice` is not
    /// asked.
    pub fn start<F: Fn(usize) -> usize>(&mut self, dice: F)
        requires
            forall|n: usize| n > 0 ==> call_requires(dice, (n,)),
        ensures
            old(self)@.players.len() == 0 ==> final(self)@ == old(self)@,
            old(self)@.players.len() > 0 ==> exists|first: usize|
                call_ensures(dice, (old(self)@.players.len() as usize,), first) && final(self)@
                    == old(self)@.started(first),
    {
        let count = self.players.len();
        if count > 0 {
            let first_player = dice(count);
            self.start_with(first_player);
        }
    }

    /// The length of the roster.
    pub fn player_count(&self) -> (n: usize)
        ensures
            n == self@.players.len(),
    {
        self.players.len()
    }

    /// The names on the roster, in its order.
    pub fn player_list(&self) -> (list: Vec<String>)
        ensures
            list.deep_view() == names(self@.players),
    {
        let mut list: Vec<String> = Vec::new();
        let mut index: usize = 0;
        while index < self.players.len()
            invariant
                index <= self.players@.len(),
                list@.len() == index,
                forall|i: int|
                    0 <= i < index ==> (#[trigger] list@[i])@ == roster(self.players@)[i].name,
            decreases self.players@.len() - index,
        {
            list.push(self.players[index].name.clone());
            index += 1;
        }
        assert(list.deep_view() =~= names(self@.players));
        list
    }

    /// The player at a place of the roster.
    pub fn get_player(&self, index: usize) -> (r: Option<Player>)
        ensures
            match r {
                Some(player) => index < self@.players.len() && player@ == self@.players[index as int],
                None => index >= self@.players.len(),
            },
    {
        if index < self.player_count() {
            Some(self.players[index].clone())
        } else {
            None
        }
    }

    /// The place of the first player of that name.
    pub fn position(&self, name: &str) -> (r: Option<usize>)
        ensures
            match r {
                Some(index) => index_of_from(self@.players, name@, 0) == Some(index as int),
                None => index_of_from(self@.players, name@, 0) is None,
            },
    {
        let wanted = name.to_owned();
        let mut index: usize = 0;
        while index < self.players.len()
            invariant
                index <= self.players@.len(),
                wanted@ == name@,
                index_of_from(self@.players, name@, 0) == index_of_from(
                    self@.players,
                    name@,
                    index as int,
                ),
            decreases self.players@.len() - index,
        {
            if self.players[index].name == wanted {
                return Some(index);
            }
            index += 1;
        }
        None
    }

    /// The first player of that name, with the player's place on the roster.
    pub fn find_player(&self, name: &str) -> (r: Option<(usize, Player)>)
        ensures
            match r {
                Some((index, player)) => index_of_from(self@.players, name@, 0) == Some(
                    index as int,
                ) && player@ == self@.players[index as int],
                None => index_of_from(self@.players, name@, 0) is None,
            },
    {
        match self.position(name) {
            Some(index) => {
                proof {
                    index_of_is_first(self@.players, name@, 0);
                }
                Some((index, self.players[index].clone()))
            },
            None => None,
        }
    }

    /// Puts a player on the roster: in the place that the name has on it, or
    /// at the end.
    pub fn update_player(&mut self, player: Player)
        ensures
            final(self)@ == old(self)@.with_player(player@),
    {
        match self.position(player.name.as_str()) {
            None => {
                self.players.push(player);
                assert(self@.players =~= old(self)@.players.push(player@));
            },
            Some(index) => {
                proof {
                    index_of_is_first(self@.players, player@.name, 0);
                }
                self.players.set(index, player);
                assert(self@.players =~= old(self)@.players.update(index as int, player@));
            },
        }
    }

    /// The number of players whose fleet is complete.
    pub fn ready_players(&self) -> (n: usize)
        ensures
            n == ready_count(self@.players),
            n <= self@.players.len(),
    {
        let mut count: usize = 0;
        let mut index: usize = 0;
        while index < self.players.len()
            invariant
                index <= self.players@.len(),
                count <= index,
                count == ready_count(self@.players.take(index as int)),
            decreases self.players@.len() - index,
        {
            assert(self@.players.take(index + 1).drop_last() =~= self@.players.take(index as int));
            if self.players[index].is_fleet_complete() {
                count += 1;
            }
            index += 1;
        }
        assert(self@.players.take(index as int) =~= self@.players);
        count
    }

    /// The number of players who are not defeated.
    pub fn active_player_count(&self) -> (n: usize)
        ensures
            n == active_count(self@.players),
            n <= self@.players.len(),
    {
        let mut count: usize = 0;
        let mut index: usize = 0;
        while index < self.players.len()
            invariant
                index <= self.players@.len(),
                count <= index,
                count == active_count(self@.players.take(index as int)),
            decreases self.players@.len() - index,
        {
            assert(self@.players.take(index + 1).drop_last() =~= self@.players.take(index as int));
            if !self.players[index].is_defeated() {
                count += 1;
            }
            index += 1;
        }
        assert(self@.players.take(index as int) =~= self@.players);
        count
    }

    /// The place of the player whose turn follows that of the player at `index`.
    fn due_after(&self, index: usize) -> (next: usize)
        requires
            index < self@.players.len(),
        ensures
            next == next_due(self@.players, index as int, 0),
            next < self@.players.len(),
    {
        let count = self.players.len();
        let mut next: usize = if index + 1 >= count {
            0
        } else {
            index + 1
        };
        let mut tried: usize = 0;
        while tried < count - 1
            invariant
                count == self@.players.len(),
                index < count,
                tried <= count - 1,
                next < count,
                next == wrapped(index + 1 + tried, count as int),
                next_due(self@.players, index as int, 0) == next_due(
                    self@.players,
                    index as int,
                    tried as int,
                ),
            decreases count - tried,
        {
            if !self.players[next].is_defeated() {
                return next;
            }
            tried += 1;
            next = if next + 1 >= count {
                0
            } else {
                next + 1
            };
        }
        index
    }

    /// Passes the turn on to the next player who is not defeated, and begins
    /// the count of shots anew.
    pub fn next_turn(&mut self)
        ensures
            final(self)@ == old(self)@.turned(),
    {
        let index = match &self.state {
            GameState::Underway((index, _), _, _) => *index,
            _ => {
                return ;
            },
        };
        if index < self.players.len() {
            let next = self.due_after(index);
            self.state = GameState::Underway((next, self.players[next].name.clone()), 0, 0);
        }
    }

    /// Counts one more shot of the turn of a game that is underway.
    pub fn record_shot(&mut self)
        ensures
            final(self)@ == old(self)@.shot(),
    {
        let counted = match &self.state {
            GameState::Underway((index, name), fired_shots, hits) => {
                let shots: u8 = if *fired_shots < u8::MAX {
                    *fired_shots + 1
                } else {
                    *fired_shots
                };
                Some(GameState::Underway((*index, name.clone()), shots, *hits))
            },
            _ => None,
        };
        if let Some(state) = counted {
            self.state = state;
        }
    }

    /// Calls the game off in favour of the first player who is not defeated.
    pub fn game_over(&mut self)
        ensures
            final(self)@ == old(self)@.ended(),
    {
        let mut index: usize = 0;
        while index < self.players.len()
            invariant
                index <= self.players@.len(),
                *self == *old(self),
                first_active_from(self@.players, 0) == first_active_from(
                    self@.players,
                    index as int,
                ),
            decreases self.players@.len() - index,
        {
            if !self.players[index].is_defeated() {
                self.state = GameState::Over(self.players[index].name.clone());
                return ;
            }
            index += 1;
        }
    }
}

/// The place found for a name is the first at which the name stands.
pub proof fn index_of_is_first(players: Seq<PlayerView>, name: Seq<char>, from: int)
    requires
        0 <= from,
    ensures
        match index_of_from(players, name, from) {
            Some(i) => {
                &&& from <= i < players.len()
                &&& players[i].name == name
                &&& forall|j: int| from <= j < i ==> players[j].name != name
            },
            None => forall|j: int| from <= j < players.len() ==> players[j].name != name,
        },
    decreases players.len() - from,
{
    if from < players.len() && players[from].name != name {
        index_of_is_first(players, name, from + 1);
    }
}

/// The place found for the winner is the first at which a player stands who
/// is not defeated.
pub proof fn first_active_is_first(players: Seq<PlayerView>, from: int)
    requires
        0 <= from,
    ensures
        match first_active_from(players, from) {
            Some(i) => {
                &&& from <= i < players.len()
                &&& afloat_count(players[i].fleet) != 0
                &&& forall|j: int| from <= j < i ==> afloat_count(players[j].fleet) == 0
            },
            None => forall|j: int| from <= j < players.len() ==> afloat_count(players[j].fleet) == 0,
        },
    decreases players.len() - from,
{
    if from < players.len() && afloat_count(players[from].fleet) == 0 {
        first_active_is_first(players, from + 1);
    }
}

/// How many players are passed over before the turn comes to rest, counting
/// from the `tried`-th place after `index`.
pub open spec fn passed_over(players: Seq<PlayerView>, index: int, tried: int) -> int
    decreases players.len() - tried,
{
    if tried < 0 || tried >= players.len() - 1 {
        tried
    } else if afloat_count(players[wrapped(index + 1 + tried, players.len() as int)].fleet) != 0 {
        tried
    } else {
        passed_over(players, index, tried + 1)
    }
}

/// Whoever is due next is on the roster and, unless the turn stays where it
/// is, not defeated; every player passed over on the way is defeated. The turn
/// stays where it is only where all the other players are defeated.
pub proof fn next_due_skips_defeated(players: Seq<PlayerView>, index: int, tried: int)
    requires
        0 <= index < players.len(),
        0 <= tried <= players.len() - 1,
    ensures
        ({
            let next = next_due(players, index, tried);
            let passed = passed_over(players, index, tried);
            let len = players.len() as int;
            &&& 0 <= next < len
            &&& tried <= passed <= len - 1
            &&& next == if passed < len - 1 {
                wrapped(index + 1 + passed, len)
            } else {
                index
            }
            &&& passed < len - 1 ==> next != index && afloat_count(players[next].fleet) != 0
            &&& forall|k: int|
                tried <= k < passed ==> afloat_count(
                    (#[trigger] players[wrapped(index + 1 + k, len)]).fleet,
                ) == 0
        }),
    decreases players.len() - tried,
{
    let len = players.len() as int;
    if tried < len - 1 {
        let candidate = wrapped(index + 1 + tried, len);
        if afloat_count(players[candidate].fleet) == 0 {
            next_due_skips_defeated(players, index, tried + 1);
        }
    }
}

/// A game only ever moves on to a later phase: joining and passing the turn
/// keep the phase, calling the game off ends it or changes nothing, and
/// starting takes a game that is not over to its course or changes nothing.
pub proof fn phase_never_goes_back(game: GameView, player: PlayerView, first: usize)
    ensures
        game.with_player(player).state == game.state,
        game.turned().state.rank() == game.state.rank(),
        game.ended().state.rank() >= game.state.rank(),
        !(game.state is Over) ==> game.started(first).state.rank() >= game.state.rank(),
{
}

/// Joining keeps the roster free of doubles. A new name adds one player at
/// the end; a known name keeps the length, and the player takes the place the
/// name had. A game underway still names its current player.
pub proof fn joining_keeps_game_sound(game: GameView, player: PlayerView)
    requires
        game.sound(),
    ensures
        game.with_player(player).sound(),
        names(game.with_player(player).players) == match index_of_from(
            game.players,
            player.name,
            0,
        ) {
            Some(_) => names(game.players),
            None => names(game.players).push(player.name),
        },
{
    index_of_is_first(game.players, player.name, 0);
    let after = game.with_player(player);
    match index_of_from(game.players, player.name, 0) {
        Some(index) => {
            assert(names(after.players) =~= names(game.players));
            assert forall|i: int, j: int| 0 <= i < j < after.players.len() implies (
            #[trigger] after.players[i]).name != (#[trigger] after.players[j]).name by {
                assert(game.players[i].name != game.players[j].name);
            }
        },
        None => {
            assert(names(after.players) =~= names(game.players).push(player.name));
            assert forall|i: int, j: int| 0 <= i < j < after.players.len() implies (
            #[trigger] after.players[i]).name != (#[trigger] after.players[j]).name by {
                if j < game.players.len() {
                    assert(game.players[i].name != game.players[j].name);
                }
            }
        },
    }
}

/// On a roster that holds no name twice, a player is found at the player's
/// own place.
pub proof fn unique_name_is_at_its_place(players: Seq<PlayerView>, place: int)
    requires
        names_unique(players),
        0 <= place < players.len(),
    ensures
        index_of_from(players, players[place].name, 0) == Some(place),
{
    index_of_is_first(players, players[place].name, 0);
    let found = index_of_from(players, players[place].name, 0)->0;
    if found < place {
        assert(players[found].name != players[place].name);
    }
}

/// A player whose name is on the roster takes a place on it without
/// changing its length or the names on it.
pub proof fn rejoining_keeps_roster(game: GameView, player: PlayerView, place: int)
    requires
        0 <= place < game.players.len(),
        game.players[place].name == player.name,
    ensures
        game.with_player(player).players.len() == game.players.len(),
        names(game.with_player(player).players) == names(game.players),
{
    index_of_is_first(game.players, player.name, 0);
    assert(names(game.with_player(player).players) =~= names(game.players));
}

/// Starting, passing the turn and calling the game off leave a sound game
/// sound and its roster as it was.
pub proof fn course_keeps_game_sound(game: GameView, first: usize)
    requires
        game.sound(),
        game.players.len() <= usize::MAX,
    ensures
        game.started(first).sound(),
        game.turned().sound(),
        game.ended().sound(),
        game.started(first).players == game.players,
        game.turned().players == game.players,
        game.ended().players == game.players,
{
    if game.state is Underway {
        next_due_skips_defeated(game.players, game.state->Underway_index as int, 0);
    }
}

/// The winner of a game that is called off is a player who is not defeated,
/// and the only such player where exactly one is left.
pub proof fn winner_is_last_afloat(game: GameView)
    requires
        active_count(game.players) >= 1,
    ensures
        game.ended().state matches GameStateView::Over { winner } && exists|i: int|
            {
                &&& 0 <= i < game.players.len()
                &&& winner == (#[trigger] game.players[i]).name
                &&& afloat_count(game.players[i].fleet) != 0
                &&& active_count(game.players) == 1 ==> forall|j: int|
                    0 <= j < game.players.len() && j != i ==> afloat_count(
                        (#[trigger] game.players[j]).fleet,
                    ) == 0
            },
{
    first_active_is_first(game.players, 0);
    active_count_counts(game.players);
    let i = first_active_from(game.players, 0)->0;
    assert(game.players[i].name == game.ended().state->Over_winner);
    if active_count(game.players) == 1 {
        assert forall|j: int| 0 <= j < game.players.len() && j != i implies afloat_count(
            (#[trigger] game.players[j]).fleet,
        ) == 0 by {
            if afloat_count(game.players[j].fleet) != 0 {
                two_active_count_two(game.players, i, j);
            }
        }
    }
}

/// Nobody is counted as active exactly when every player is defeated.
pub proof fn active_count_counts(players: Seq<PlayerView>)
    ensures
        active_count(players) == 0 <==> (forall|i: int|
            0 <= i < players.len() ==> afloat_count((#[trigger] players[i]).fleet) == 0),
        active_count(players) <= players.len(),
    decreases players.len(),
{
    if players.len() > 0 {
        let front = players.drop_last();
        active_count_counts(front);
        if active_count(players) == 0 {
            assert forall|i: int| 0 <= i < players.len() implies afloat_count(
                (#[trigger] players[i]).fleet,
            ) == 0 by {
                if i < players.len() - 1 {
                    assert(afloat_count(front[i].fleet) == 0);
                }
            }
        } else if active_count(front) != 0 {
            let i = choose|i: int|
                0 <= i < front.len() && afloat_count((#[trigger] front[i]).fleet) != 0;
            assert(afloat_count(players[i].fleet) != 0);
        }
    }
}

/// Two different players who are not defeated count for two at least.
pub proof fn two_active_count_two(players: Seq<PlayerView>, i: int, j: int)
    requires
        0 <= i < players.len(),
        0 <= j < players.len(),
        i != j,
        afloat_count(players[i].fleet) != 0,
        afloat_count(players[j].fleet) != 0,
    ensures
        active_count(players) >= 2,
    decreases players.len(),
{
    let front = players.drop_last();
    let last = players.len() - 1;
    if i == last {
        active_count_counts(front);
        assert(afloat_count(front[j].fleet) != 0);
    } else if j == last {
        active_count_counts(front);
        assert(afloat_count(front[i].fleet) != 0);
    } else {
        two_active_count_two(front, i, j);
    }
}

/// The shared handle on a game. It has one owner, who passes it on to whoever
/// is to read or change the game next.
pub struct GameArc {
    inner: Game,
}

impl View for GameArc {
    type V = GameView;

    closed spec fn view(&self) -> GameView {
        self.inner@
    }
}

impl GameArc {
    /// See `Game::new`.
    pub fn new(size: Size, prefix: String) -> (g: GameArc)
        ensures
            g@ == (GameView {
                state: GameStateView::Lobby,
                players: Seq::empty(),
                size,
                prefix: prefix@,
            }),
    {
        GameArc { inner: Game::new(size, prefix) }
    }

    /// See `Game::start`.
    pub fn start<F: Fn(usize) -> usize>(&mut self, dice: F)
        requires
            forall|n: usize| n > 0 ==> call_requires(dice, (n,)),
        ensures
            old(self)@.players.len() == 0 ==> final(self)@ == old(self)@,
            old(self)@.players.len() > 0 ==> exists|first: usize|
                call_ensures(dice, (old(self)@.players.len() as usize,), first) && final(self)@
                    == old(self)@.started(first),
    {
        self.inner.start(dice)
    }

    /// See `Game::prefix`.
    pub fn prefix(&self) -> (s: String)
        ensures
            s@ == self@.prefix,
    {
        self.inner.prefix()
    }

    /// See `Game::player_count`.
    pub fn player_count(&self) -> (n: usize)
        ensures
            n == self@.players.len(),
    {
        self.inner.player_count()
    }

    /// See `Game::player_list`.
    pub fn player_list(&self) -> (list: Vec<String>)
        ensures
            list.deep_view() == names(self@.players),
    {
        self.inner.player_list()
    }

    /// See `Game::get_player`.
    pub fn get_player(&self, index: usize) -> (r: Option<Player>)
        ensures
            match r {
                Some(player) => index < self@.players.len() && player@ == self@.players[index as int],
                None => index >= self@.players.len(),
            },
    {
        self.inner.get_player(index)
    }

    /// See `Game::find_player`.
    pub fn find_player(&self, name: &str) -> (r: Option<(usize, Player)>)
        ensures
            match r {
                Some((index, player)) => index_of_from(self@.players, name@, 0) == Some(
                    index as int,
                ) && player@ == self@.players[index as int],
                None => index_of_from(self@.players, name@, 0) is None,
            },
    {
        self.inner.find_player(name)
    }

    /// See `Game::update_player`.
    pub fn update_player(&mut self, player: Player)
        ensures
            final(self)@ == old(self)@.with_player(player@),
    {
        self.inner.update_player(player)
    }

    /// See `Game::ready_players`.
    pub fn ready_player_count(&self) -> (n: usize)
        ensures
            n == ready_count(self@.players),
            n <= self@.players.len(),
    {
        self.inner.ready_players()
    }

    /// See `Game::active_player_count`.
    pub fn active_player_count(&self) -> (n: usize)
        ensures
            n == active_count(self@.players),
            n <= self@.players.len(),
    {
        self.inner.active_player_count()
    }

    /// See `Game::next_turn`.
    pub fn next_turn(&mut self)
        ensures
            final(self)@ == old(self)@.turned(),
    {
        self.inner.next_turn()
    }

    /// See `Game::record_shot`.
    pub fn record_shot(&mut self)
        ensures
            final(self)@ == old(self)@.shot(),
    {
        self.inner.record_shot()
    }

    /// See `Game::game_over`.
    pub fn game_over(&mut self)
        ensures
            final(self)@ == old(self)@.ended(),
    {
        self.inner.game_over()
    }

    /// The phase of the game.
    pub fn state(&self) -> (s: GameState)
        ensures
            s@ == self@.state,
    {
        self.inner.state.clone()
    }

    /// The names on the roster, in its order.
    pub fn players(&self) -> (list: Vec<String>)
        ensures
            list.deep_view() == names(self@.players),
    {
        self.inner.player_list()
    }
}

} // verus!
