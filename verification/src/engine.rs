use vstd::prelude::*;
use vstd::string::*;
use crate::messaging::mqtt::{MosquittoArc, MosquittoView, RequestView};
use crate::messaging::translate::{json_of_strings, serialize, TranslationError};
use crate::model::class::Class;
use crate::model::game::{
    active_count,
    index_of_from,
    names,
    ready_count,
    GameArc,
    GameView,
};
use crate::model::gamestate::{GameState, GameStateView};
use crate::model::impact::Impact;
use crate::model::player::{
    afloat_count,
    default_fleet,
    fleet_sound,
    placed_count,
    Player,
    PlayerView,
};
use crate::model::status::Status;
use crate::model::point::Point;
use crate::model::ship::Ship;
use crate::model::size::Size;
use crate::text::{decimal, decimal_digits};

verus! {

/// What the engine does with a message, by the endpoint on which it came: a
/// request to join, a placement of a ship of one kind by the player at a place
/// of the roster, or a shot at the player at a place of the roster.
#[derive(Debug, Clone, Copy, PartialEq, Eq)]
pub enum Handler {
    Join,
    Place(usize, Class),
    Fire(usize),
}

/// What was read from a message, where it could be read.
pub open spec fn read<T>(request: Result<T, TranslationError>) -> Option<T> {
    match request {
        Ok(value) => Some(value),
        Err(_) => None,
    }
}

/// The requests that the engine hands to the adapter.
pub type Requests = Seq<RequestView<Handler>>;

/// The adapter with some more requests waiting to be served.
pub open spec fn sent(before: MosquittoView<Handler>, requests: Requests) -> MosquittoView<Handler> {
    MosquittoView { outbox: before.outbox + requests, ..before }
}

/// A message to be published once and forgotten.
pub open spec fn passing(topic: Seq<char>, payload: Seq<char>) -> RequestView<Handler> {
    RequestView::Publication(topic, payload, false)
}

/// A message that the broker is to keep for later subscribers.
pub open spec fn retained(topic: Seq<char>, payload: Seq<char>) -> RequestView<Handler> {
    RequestView::Publication(topic, payload, true)
}

/// The request that makes the broker forget what it kept for a topic.
pub open spec fn cleared(topic: Seq<char>) -> RequestView<Handler> {
    RequestView::Publication(topic, Seq::empty(), true)
}

/// The topic `/prefix/game/leaf`.
pub open spec fn game_path(prefix: Seq<char>, leaf: Seq<char>) -> Seq<char> {
    "/"@ + prefix + "/game/"@ + leaf
}

/// The topic `/prefix/players/leaf`.
pub open spec fn players_path(prefix: Seq<char>, leaf: Seq<char>) -> Seq<char> {
    "/"@ + prefix + "/players/"@ + leaf
}

/// The topic `/prefix/players/name/leaf`.
pub open spec fn player_path(prefix: Seq<char>, name: Seq<char>, leaf: Seq<char>) -> Seq<char> {
    "/"@ + prefix + "/players/"@ + name + "/"@ + leaf
}

/// The topic `/prefix/players/name/ships/class/leaf`.
pub open spec fn ship_path(prefix: Seq<char>, name: Seq<char>, class: Class, leaf: Seq<char>) -> Seq<
    char,
> {
    "/"@ + prefix + "/players/"@ + name + "/ships/"@ + class.label() + "/"@ + leaf
}

/// Writes the topic `/prefix/game/leaf`.
pub fn game_topic(prefix: &str, leaf: &str) -> (topic: String)
    ensures
        topic@ == game_path(prefix@, leaf@),
{
    let mut topic = String::from_str("/");
    topic.append(prefix);
    topic.append("/game/");
    topic.append(leaf);
    topic
}

/// Writes the topic `/prefix/players/leaf`.
pub fn players_topic(prefix: &str, leaf: &str) -> (topic: String)
    ensures
        topic@ == players_path(prefix@, leaf@),
{
    let mut topic = String::from_str("/");
    topic.append(prefix);
    topic.append("/players/");
    topic.append(leaf);
    topic
}

/// Writes the topic `/prefix/players/name/leaf`.
pub fn player_topic(prefix: &str, name: &str, leaf: &str) -> (topic: String)
    ensures
        topic@ == player_path(prefix@, name@, leaf@),
{
    let mut topic = String::from_str("/");
    topic.append(prefix);
    topic.append("/players/");
    topic.append(name);
    topic.append("/");
    topic.append(leaf);
    topic
}

/// Writes the topic `/prefix/players/name/ships/class/leaf`.
pub fn ship_topic(prefix: &str, name: &str, class: &Class, leaf: &str) -> (topic: String)
    ensures
        topic@ == ship_path(prefix@, name@, *class, leaf@),
{
    let mut topic = String::from_str("/");
    topic.append(prefix);
    topic.append("/players/");
    topic.append(name);
    topic.append("/ships/");
    topic.append(class.name().as_str());
    topic.append("/");
    topic.append(leaf);
    topic
}

/// What announces whose turn it is: the shots fired in the turn, then the
/// name of the player. A game that is not underway announces nothing.
pub open spec fn turn_requests(game: GameView) -> Requests {
    match game.state {
        GameStateView::Underway { name, fired_shots, .. } => seq![
            retained(game_path(game.prefix, "fired_shots"@), decimal_digits(fired_shots as nat)),
            retained(game_path(game.prefix, "current"@), name),
        ],
        _ => Seq::empty(),
    }
}

/// What ends the traffic of one player: the count of ships is forgotten and
/// the endpoint for shots closed.
pub open spec fn parting_requests(prefix: Seq<char>, name: Seq<char>) -> Requests {
    seq![
        cleared(player_path(prefix, name, "ships/count"@)),
        RequestView::Unsubscription(player_path(prefix, name, "fire"@)),
    ]
}

/// What ends the traffic of all the players of a roster, in its order.
pub open spec fn all_parting_requests(prefix: Seq<char>, roster: Seq<Seq<char>>) -> Requests
    decreases roster.len(),
{
    if roster.len() == 0 {
        Seq::empty()
    } else {
        all_parting_requests(prefix, roster.drop_last()) + parting_requests(prefix, roster.last())
    }
}

/// What calling a game off asks of the adapter, given the game as it is
/// before: every player's traffic ends, what the broker kept of the game is
/// forgotten, and the last phase and the winner are announced.
pub open spec fn over_requests(game: GameView) -> Requests {
    let ended = game.ended();
    all_parting_requests(game.prefix, names(game.players)) + seq![
        cleared(game_path(game.prefix, "state"@)),
        cleared(players_path(game.prefix, "count"@)),
        cleared(players_path(game.prefix, "list"@)),
        cleared(game_path(game.prefix, "fired_shots"@)),
        cleared(game_path(game.prefix, "current"@)),
        passing(game_path(game.prefix, "state"@), ended.state.label()),
    ] + match ended.state {
        GameStateView::Over { winner } => seq![passing(game_path(game.prefix, "winner"@), winner)],
        _ => Seq::empty(),
    }
}

/// Opens the endpoint on which players ask to join.
pub fn subscribe_player(game: &GameArc, mqtt: &mut MosquittoArc<Handler>)
    ensures
        final(mqtt)@ == sent(
            old(mqtt)@,
            seq![RequestView::Subscription(game_path(game@.prefix, "request"@), Handler::Join)],
        ),
{
    mqtt.subscribe(game_topic(game.prefix().as_str(), "request").as_str(), Handler::Join);
    assert(mqtt@.outbox =~= old(mqtt)@.outbox + seq![
        RequestView::Subscription(game_path(game@.prefix, "request"@), Handler::Join),
    ]);
}

/// Sets an engine up: a game in the lobby, and an adapter that has been asked
/// to open the endpoint for joining and to tell that the server is up.
pub fn start_engine(size: Size, prefix: &str) -> (engine: (GameArc, MosquittoArc<Handler>))
    ensures
        engine.0@ == (GameView {
            state: GameStateView::Lobby,
            players: Seq::empty(),
            size,
            prefix: prefix@,
        }),
        engine.1@ == (MosquittoView::<Handler> {
            running: true,
            outbox: seq![
                RequestView::Subscription(game_path(prefix@, "request"@), Handler::Join),
                passing(game_path(prefix@, "server"@), "up"@),
            ],
            inbox: Seq::empty(),
            registry: Seq::empty(),
        }),
{
    let game = GameArc::new(size, prefix.to_owned());
    let mut mqtt: MosquittoArc<Handler> = MosquittoArc::new();
    subscribe_player(&game, &mut mqtt);
    mqtt.publish(game_topic(game.prefix().as_str(), "server").as_str(), "up");
    assert(mqtt@.outbox =~= seq![
        RequestView::Subscription(game_path(prefix@, "request"@), Handler::Join),
        passing(game_path(prefix@, "server"@), "up"@),
    ]);
    (game, mqtt)
}

/// Opens the endpoint on which the player at a place of the roster places
/// the ship of one kind. A place beyond the roster opens nothing.
pub fn place_ship(game: &GameArc, mqtt: &mut MosquittoArc<Handler>, player: usize, class: Class)
    ensures
        final(mqtt)@ == sent(old(mqtt)@, place_requests(game@, player, class)),
{
    let roster = game.players();
    assert(roster.deep_view().len() == roster@.len());
    assert(names(game@.players).len() == game@.players.len());
    if player < roster.len() {
        assert(roster.deep_view()[player as int] == roster@[player as int]@);
        let topic = ship_topic(game.prefix().as_str(), roster[player].as_str(), &class, "place");
        mqtt.subscribe(topic.as_str(), Handler::Place(player, class));
        assert(mqtt@.outbox =~= old(mqtt)@.outbox + place_requests(game@, player, class));
    } else {
        assert(mqtt@.outbox =~= old(mqtt)@.outbox + place_requests(game@, player, class));
    }
}

/// What opens the endpoint for placing a ship of one kind.
pub open spec fn place_requests(game: GameView, player: usize, class: Class) -> Requests {
    if player < game.players.len() {
        seq![
            RequestView::Subscription(
                ship_path(game.prefix, game.players[player as int].name, class, "place"@),
                Handler::Place(player, class),
            ),
        ]
    } else {
        Seq::empty()
    }
}

/// What opens the endpoint for shots at a player.
pub open spec fn salvo_requests(game: GameView, target: usize) -> Requests {
    if target < game.players.len() {
        seq![
            RequestView::Subscription(
                player_path(game.prefix, game.players[target as int].name, "fire"@),
                Handler::Fire(target),
            ),
        ]
    } else {
        Seq::empty()
    }
}

/// Opens the endpoint on which shots at the player at a place of the roster
/// arrive. A place beyond the roster opens nothing.
pub fn perform_salvo(game: &GameArc, mqtt: &mut MosquittoArc<Handler>, target: usize)
    ensures
        final(mqtt)@ == sent(old(mqtt)@, salvo_requests(game@, target)),
{
    let roster = game.players();
    assert(roster.deep_view().len() == roster@.len());
    assert(names(game@.players).len() == game@.players.len());
    if target < roster.len() {
        assert(roster.deep_view()[target as int] == roster@[target as int]@);
        let topic = player_topic(game.prefix().as_str(), roster[target].as_str(), "fire");
        mqtt.subscribe(topic.as_str(), Handler::Fire(target));
        assert(mqtt@.outbox =~= old(mqtt)@.outbox + salvo_requests(game@, target));
    } else {
        assert(mqtt@.outbox =~= old(mqtt)@.outbox + salvo_requests(game@, target));
    }
}

/// Announces whose turn it is.
pub fn announce_turn(game: &GameArc, mqtt: &mut MosquittoArc<Handler>)
    ensures
        final(mqtt)@ == sent(old(mqtt)@, turn_requests(game@)),
{
    if let GameState::Underway((_, player), fired_shots, _) = game.state() {
        let prefix = game.prefix();
        mqtt.retain(
            game_topic(prefix.as_str(), "fired_shots").as_str(),
            decimal(fired_shots as u64).as_str(),
        );
        mqtt.retain(game_topic(prefix.as_str(), "current").as_str(), player.as_str());
    }
    assert(mqtt@.outbox =~= old(mqtt)@.outbox + turn_requests(game@));
}

/// Passes the turn on and announces whose it is.
pub fn next_turn(game: &mut GameArc, mqtt: &mut MosquittoArc<Handler>)
    ensures
        final(game)@ == old(game)@.turned(),
        final(mqtt)@ == sent(old(mqtt)@, turn_requests(old(game)@.turned())),
{
    game.next_turn();
    announce_turn(game, mqtt);
}

/// Calls the game off.
pub fn game_over(game: &mut GameArc, mqtt: &mut MosquittoArc<Handler>)
    ensures
        final(game)@ == old(game)@.ended(),
        final(mqtt)@ == sent(old(mqtt)@, over_requests(old(game)@)),
{
    let prefix = game.prefix();
    let roster = game.players();
    let mut index: usize = 0;
    assert(roster.deep_view().take(0) =~= Seq::empty());
    while index < roster.len()
        invariant
            index <= roster@.len(),
            prefix@ == game@.prefix,
            *game == *old(game),
            mqtt@ == sent(
                old(mqtt)@,
                all_parting_requests(prefix@, roster.deep_view().take(index as int)),
            ),
        decreases roster@.len() - index,
    {
        let ghost before = mqtt@;
        let name = roster[index].as_str();
        mqtt.clear(player_topic(prefix.as_str(), name, "ships/count").as_str());
        mqtt.unsubscribe(player_topic(prefix.as_str(), name, "fire").as_str());
        proof {
            let listed = roster.deep_view();
            assert(listed.take(index + 1).drop_last() =~= listed.take(index as int));
            assert(listed.take(index + 1).last() == name@);
            assert(mqtt@.outbox =~= before.outbox + parting_requests(prefix@, name@));
            assert(mqtt@.outbox =~= old(mqtt)@.outbox + all_parting_requests(
                prefix@,
                listed.take(index + 1),
            ));
        }
        index += 1;
    }
    assert(roster.deep_view().take(index as int) =~= roster.deep_view());
    mqtt.clear(game_topic(prefix.as_str(), "state").as_str());
    mqtt.clear(players_topic(prefix.as_str(), "count").as_str());
    mqtt.clear(players_topic(prefix.as_str(), "list").as_str());
    mqtt.clear(game_topic(prefix.as_str(), "fired_shots").as_str());
    mqtt.clear(game_topic(prefix.as_str(), "current").as_str());
    game.game_over();
    let state = game.state();
    mqtt.publish(game_topic(prefix.as_str(), "state").as_str(), state.label().as_str());
    if let GameState::Over(winner) = &state {
        mqtt.publish(game_topic(prefix.as_str(), "winner").as_str(), winner.as_str());
    }
    assert(mqtt@.outbox =~= old(mqtt)@.outbox + over_requests(old(game)@));
}

/// `rand::Rng::gen_range` on `rand::thread_rng()`: a number below `n`, chosen
/// by chance. It asks for a range that is not empty.
#[verifier::external_body]
fn roll(n: usize) -> (r: usize)
    requires
        n > 0,
    ensures
        r < n,
{
    rand::Rng::gen_range(&mut rand::thread_rng(), 0..n)
}

/// What opens the endpoints on which a player places the five kinds of ship,
/// in fleet order.
pub open spec fn endpoint_requests(game: GameView, player: usize) -> Requests {
    place_requests(game, player, Class::pristine(0)) + place_requests(
        game,
        player,
        Class::pristine(1),
    ) + place_requests(game, player, Class::pristine(2)) + place_requests(
        game,
        player,
        Class::pristine(3),
    ) + place_requests(game, player, Class::pristine(4))
}

/// What tells of the roster: the number of players, and their names as a
/// JSON array where that can be written.
pub open spec fn roster_requests(game: GameView) -> Requests {
    seq![
        retained(players_path(game.prefix, "count"@), decimal_digits(game.players.len())),
    ] + match json_of_strings(names(game.players)) {
        Some(json) => seq![retained(players_path(game.prefix, "list"@), json)],
        None => Seq::empty(),
    }
}

/// The player who asks to join, where the request could be read.
pub open spec fn asked_player(request: Result<Player, TranslationError>) -> Option<PlayerView> {
    match request {
        Ok(player) => Some(player@),
        Err(_) => None,
    }
}

/// A player as the roster takes one up: by name and secret, with an empty
/// fleet, and as having asked to join.
pub open spec fn enlisted(player: PlayerView) -> PlayerView {
    PlayerView {
        fleet: Seq::new(5, |i: int| None::<Ship>),
        status: Status::Requested,
        ..player
    }
}

/// The game after a request to join: the player joins the roster, or takes
/// the place that the name has on it. A request that could not be read
/// changes nothing.
pub open spec fn joined(game: GameView, request: Option<PlayerView>) -> GameView {
    match request {
        Some(player) => game.with_player(enlisted(player)),
        None => game,
    }
}

/// What a request to join asks of the adapter, given the game as it is
/// before: the endpoints for the player's ships are opened, and the roster is
/// told, which happens also where the request could not be read.
pub open spec fn join_requests(game: GameView, request: Option<PlayerView>) -> Requests {
    let after = joined(game, request);
    let opened: Requests = match request {
        Some(player) => match index_of_from(after.players, player.name, 0) {
            Some(index) => endpoint_requests(after, index as usize),
            None => Seq::empty(),
        },
        None => Seq::empty(),
    };
    opened + roster_requests(after)
}

/// Tells of the roster.
fn announce_roster(game: &GameArc, mqtt: &mut MosquittoArc<Handler>)
    ensures
        final(mqtt)@ == sent(old(mqtt)@, roster_requests(game@)),
{
    let prefix = game.prefix();
    mqtt.retain(
        players_topic(prefix.as_str(), "count").as_str(),
        decimal(game.player_count() as u64).as_str(),
    );
    match serialize(&game.player_list()) {
        Ok(list) => {
            mqtt.retain(players_topic(prefix.as_str(), "list").as_str(), list.as_str());
        },
        Err(_) => {},
    }
    assert(mqtt@.outbox =~= old(mqtt)@.outbox + roster_requests(game@));
}

/// Serves a request to join, as it was read from the message: the player
/// joins the roster or takes the place that the name has on it, the
/// endpoints for the player's ships are opened, and the roster is told.
pub fn player_requested(
    game: &mut GameArc,
    mqtt: &mut MosquittoArc<Handler>,
    request: Result<Player, TranslationError>,
)
    ensures
        final(game)@ == joined(old(game)@, asked_player(request)),
        final(mqtt)@ == sent(old(mqtt)@, join_requests(old(game)@, asked_player(request))),
{
    match request {
        Ok(player) => {
            let playername = player.name.clone();
            let recruit = Player::new(
                player.name,
                player.secret,
                default_fleet(),
                Status::default(),
                player.field_size,
            );
            assert(recruit@.fleet =~= enlisted(player@).fleet) by {
                recruit.five_slots();
            }
            game.update_player(recruit);
            if let Some((index, _)) = game.find_player(playername.as_str()) {
                let classes = Class::all();
                place_ship(game, mqtt, index, classes[0]);
                place_ship(game, mqtt, index, classes[1]);
                place_ship(game, mqtt, index, classes[2]);
                place_ship(game, mqtt, index, classes[3]);
                place_ship(game, mqtt, index, classes[4]);
                assert(mqtt@.outbox =~= old(mqtt)@.outbox + endpoint_requests(game@, index));
            } else {
                assert(mqtt@.outbox =~= old(mqtt)@.outbox + Seq::<RequestView<Handler>>::empty());
            }
        },
        Err(_) => {
            assert(mqtt@.outbox =~= old(mqtt)@.outbox + Seq::<RequestView<Handler>>::empty());
        },
    }
    let ghost opened = mqtt@;
    announce_roster(game, mqtt);
    assert(mqtt@.outbox =~= opened.outbox + roster_requests(game@));
    assert(mqtt@.outbox =~= old(mqtt)@.outbox + join_requests(old(game)@, asked_player(request)));
}

/// What closes the placing of ships for one player: for every kind, in fleet
/// order, the approval is forgotten and the endpoint closed.
pub open spec fn clearing_requests(prefix: Seq<char>, name: Seq<char>) -> Requests {
    Seq::new(
        10,
        |j: int|
            if j % 2 == 0 {
                cleared(ship_path(prefix, name, Class::pristine(j / 2), "approved"@))
            } else {
                RequestView::Unsubscription(
                    ship_path(prefix, name, Class::pristine(j / 2), "place"@),
                )
            },
    )
}

/// What closes the placing of ships for all the players of a roster.
pub open spec fn all_clearing_requests(prefix: Seq<char>, roster: Seq<Seq<char>>) -> Requests
    decreases roster.len(),
{
    if roster.len() == 0 {
        Seq::empty()
    } else {
        all_clearing_requests(prefix, roster.drop_last()) + clearing_requests(
            prefix,
            roster.last(),
        )
    }
}

/// What opens the endpoints for shots at the first `count` players.
pub open spec fn all_salvo_requests(game: GameView, count: nat) -> Requests
    decreases count,
{
    if count == 0 {
        Seq::empty()
    } else {
        all_salvo_requests(game, (count - 1) as nat) + salvo_requests(game, (count - 1) as usize)
    }
}

/// What starting asks of the adapter, given the game as it is before and the
/// player chosen to begin: joining and placing are closed, the phase and the
/// turn are announced, and the endpoints for shots are opened.
pub open spec fn start_requests(game: GameView, first: usize) -> Requests {
    let started = game.started(first);
    seq![RequestView::Unsubscription(game_path(game.prefix, "request"@))] + all_clearing_requests(
        game.prefix,
        names(game.players),
    ) + seq![retained(game_path(game.prefix, "state"@), started.state.label())] + turn_requests(
        started,
    ) + all_salvo_requests(started, game.players.len())
}

/// Starts the game: joining and placing are closed, a player is chosen by
/// chance to begin, the phase and the turn are announced, and the endpoints
/// for shots are opened. With nobody on the roster the game stays as it is.
pub fn start_game(game: &mut GameArc, mqtt: &mut MosquittoArc<Handler>)
    ensures
        exists|first: usize|
            {
                &&& old(game)@.players.len() > 0 ==> first < old(game)@.players.len()
                &&& final(game)@ == old(game)@.started(first)
                &&& final(mqtt)@ == sent(old(mqtt)@, start_requests(old(game)@, first))
            },
{
    let prefix = game.prefix();
    let roster = game.players();
    let classes = Class::all();
    assert(roster.deep_view().len() == roster@.len());
    assert(names(game@.players).len() == game@.players.len());
    mqtt.unsubscribe(game_topic(prefix.as_str(), "request").as_str());
    let ghost closed = mqtt@;
    let mut index: usize = 0;
    assert(roster.deep_view().take(0) =~= Seq::empty());
    while index < roster.len()
        invariant
            index <= roster@.len(),
            prefix@ == game@.prefix,
            classes@.len() == 5,
            forall|i: int| 0 <= i < 5 ==> #[trigger] classes@[i] == Class::pristine(i),
            mqtt@ == sent(
                closed,
                all_clearing_requests(prefix@, roster.deep_view().take(index as int)),
            ),
        decreases roster@.len() - index,
    {
        let ghost before = mqtt@;
        let name = roster[index].as_str();
        let mut kind: usize = 0;
        while kind < 5
            invariant
                kind <= 5,
                classes@.len() == 5,
                forall|i: int| 0 <= i < 5 ==> #[trigger] classes@[i] == Class::pristine(i),
                mqtt@ == sent(before, clearing_requests(prefix@, name@).take(2 * kind)),
            decreases 5 - kind,
        {
            let class = classes[kind];
            mqtt.clear(ship_topic(prefix.as_str(), name, &class, "approved").as_str());
            mqtt.unsubscribe(ship_topic(prefix.as_str(), name, &class, "place").as_str());
            proof {
                let all = clearing_requests(prefix@, name@);
                assert(all.take(2 * kind + 2) =~= all.take(2 * kind).push(all[2 * kind]).push(
                    all[2 * kind + 1],
                ));
                assert(mqtt@.outbox =~= before.outbox + all.take(2 * kind + 2));
            }
            kind += 1;
        }
        proof {
            let listed = roster.deep_view();
            let all = clearing_requests(prefix@, name@);
            assert(all.take(10) =~= all);
            assert(listed.take(index + 1).drop_last() =~= listed.take(index as int));
            assert(listed.take(index + 1).last() == name@);
            assert(mqtt@.outbox =~= closed.outbox + all_clearing_requests(
                prefix@,
                listed.take(index + 1),
            ));
        }
        index += 1;
    }
    assert(roster.deep_view().take(index as int) =~= roster.deep_view());
    game.start(roll);
    let state = game.state();
    let ghost first: usize = match state {
        GameState::Underway((index, _), _, _) => index,
        _ => 0,
    };
    assert(game@ == old(game)@.started(first));
    mqtt.retain(game_topic(prefix.as_str(), "state").as_str(), state.label().as_str());
    announce_turn(game, mqtt);
    let ghost announced = mqtt@;
    let mut target: usize = 0;
    while target < roster.len()
        invariant
            target <= roster@.len(),
            roster@.len() == game@.players.len(),
            mqtt@ == sent(announced, all_salvo_requests(game@, target as nat)),
        decreases roster@.len() - target,
    {
        perform_salvo(game, mqtt, target);
        assert(mqtt@.outbox =~= announced.outbox + all_salvo_requests(game@, (target + 1) as nat));
        target += 1;
    }
    assert(mqtt@.outbox =~= old(mqtt)@.outbox + start_requests(old(game)@, first));
}

/// What a placement does to the game and asks of the adapter, given the
/// player chosen to begin should the game start. A placement for a place
/// beyond the roster, or one that could not be read, does nothing. A ship
/// that is refused is answered with the reason. A ship that is accepted joins
/// the fleet, the count of ships and the approval are told, and once every
/// player has a complete fleet the game starts.
pub open spec fn placement_effect(
    game: GameView,
    player: usize,
    class: Class,
    request: Option<Ship>,
    first: usize,
) -> (GameView, Requests) {
    if player >= game.players.len() || request is None {
        (game, Seq::empty())
    } else {
        let owner = game.players[player as int];
        let ship = Ship { class, ..request->0 };
        match owner.placing(ship) {
            Err(error) => (
                game,
                seq![passing(ship_path(game.prefix, owner.name, class, "error"@), error.rendering())],
            ),
            Ok(placed) => {
                let after = game.with_player(placed);
                let approved = seq![
                    retained(
                        player_path(game.prefix, owner.name, "ships/count"@),
                        decimal_digits(afloat_count(placed.fleet)),
                    ),
                    retained(ship_path(game.prefix, owner.name, class, "approved"@), "true"@),
                ];
                if ready_count(after.players) == after.players.len() {
                    (after.started(first), approved + start_requests(after, first))
                } else {
                    (after, approved)
                }
            },
        }
    }
}

/// The game and the adapter after a placement, where `first` is the player
/// chosen to begin should the game start: a player of the roster.
pub open spec fn placement_done(
    game: GameView,
    mqtt: MosquittoView<Handler>,
    player: usize,
    class: Class,
    request: Option<Ship>,
    first: usize,
    game_after: GameView,
    mqtt_after: MosquittoView<Handler>,
) -> bool {
    let effect = placement_effect(game, player, class, request, first);
    &&& game.players.len() > 0 ==> first < game.players.len()
    &&& game_after == effect.0
    &&& mqtt_after == sent(mqtt, effect.1)
}

/// Serves a placement, as it was read from the message that came for the
/// player at a place of the roster and for one kind of ship.
pub fn ship_requested(
    game: &mut GameArc,
    mqtt: &mut MosquittoArc<Handler>,
    player: usize,
    class: Class,
    request: Result<Ship, TranslationError>,
)
    ensures
        exists|first: usize|
            #[trigger] placement_done(
                old(game)@,
                old(mqtt)@,
                player,
                class,
                read(request),
                first,
                final(game)@,
                final(mqtt)@,
            ),
{
    let ghost asked: Option<Ship> = read(request);
    let owner = match game.get_player(player) {
        Some(owner) => owner,
        None => {
            assert(mqtt@.outbox =~= old(mqtt)@.outbox + Seq::<RequestView<Handler>>::empty());
            assert(placement_done(old(game)@, old(mqtt)@, player, class, asked, 0, game@, mqtt@));
            return ;
        },
    };
    let ship = match Ship::from_json(request, class) {
        Ok(ship) => ship,
        Err(_) => {
            assert(mqtt@.outbox =~= old(mqtt)@.outbox + Seq::<RequestView<Handler>>::empty());
            assert(placement_done(old(game)@, old(mqtt)@, player, class, asked, 0, game@, mqtt@));
            return ;
        },
    };
    let prefix = game.prefix();
    match owner.place_ship(ship) {
        Ok(placed) => {
            mqtt.retain(
                player_topic(prefix.as_str(), owner.name.as_str(), "ships/count").as_str(),
                decimal(placed.active_ships() as u64).as_str(),
            );
            game.update_player(placed);
            mqtt.retain(
                ship_topic(prefix.as_str(), owner.name.as_str(), &class, "approved").as_str(),
                "true",
            );
            let ghost approved = mqtt@;
            let ghost after = game@;
            if game.ready_player_count() == game.player_count() {
                start_game(game, mqtt);
                proof {
                    let first = choose|first: usize|
                        {
                            &&& after.players.len() > 0 ==> first < after.players.len()
                            &&& game@ == after.started(first)
                            &&& mqtt@ == sent(approved, start_requests(after, first))
                        };
                    let effect = placement_effect(old(game)@, player, class, asked, first);
                    assert(mqtt@.outbox =~= old(mqtt)@.outbox + effect.1);
                    crate::model::game::rejoining_keeps_roster(old(game)@, placed@, player as int);
                    assert(placement_done(
                        old(game)@,
                        old(mqtt)@,
                        player,
                        class,
                        asked,
                        first,
                        game@,
                        mqtt@,
                    ));
                }
            } else {
                proof {
                    let effect = placement_effect(old(game)@, player, class, asked, 0);
                    assert(mqtt@.outbox =~= old(mqtt)@.outbox + effect.1);
                    assert(placement_done(
                        old(game)@,
                        old(mqtt)@,
                        player,
                        class,
                        asked,
                        0,
                        game@,
                        mqtt@,
                    ));
                }
            }
        },
        Err(error) => {
            mqtt.publish(
                ship_topic(prefix.as_str(), owner.name.as_str(), &class, "error").as_str(),
                error.render().as_str(),
            );
            proof {
                let effect = placement_effect(old(game)@, player, class, asked, 0);
                assert(mqtt@.outbox =~= old(mqtt)@.outbox + effect.1);
                assert(placement_done(old(game)@, old(mqtt)@, player, class, asked, 0, game@, mqtt@));
            }
        },
    }
}

/// What counting a shot does, given the shooter as the roster had the player
/// before the shot: the count of the turn goes up and is told, and once it
/// has reached the number of ships that the shooter has afloat the turn
/// passes on and is announced.
pub open spec fn counting_effect(game: GameView, shooter: PlayerView) -> (GameView, Requests) {
    let counted = game.shot();
    match counted.state {
        GameStateView::Underway { fired_shots, .. } => {
            let told = seq![
                retained(
                    game_path(game.prefix, "fired_shots"@),
                    decimal_digits(fired_shots as nat),
                ),
            ];
            if fired_shots >= afloat_count(shooter.fleet) {
                (counted.turned(), told + turn_requests(counted.turned()))
            } else {
                (counted, told)
            }
        },
        _ => (counted, Seq::empty()),
    }
}

/// What a shot at the player at a place of the roster does to the game and
/// asks of the adapter. Outside a game that is underway, without its current
/// player on the roster, with a shot that could not be read or a target
/// beyond the roster, nothing happens. Else the shot is shown to all. A hit
/// leaves the target struck; where it sinks a ship that is told with the
/// count of ships left, where it defeats the target that is told too, and
/// where it leaves one player only the game is called off. In every other
/// case the shot is counted.
pub open spec fn shot_effect(game: GameView, target: usize, request: Option<Point>) -> (
    GameView,
    Requests,
) {
    match game.state {
        GameStateView::Underway { name: current, .. } => match index_of_from(
            game.players,
            current,
            0,
        ) {
            None => (game, Seq::empty()),
            Some(shooter_at) => if request is None || target >= game.players.len() {
                (game, Seq::empty())
            } else {
                let shooter = game.players[shooter_at];
                let victim = game.players[target as int];
                let seen = seq![
                    passing(
                        player_path(game.prefix, victim.name, "hit"@),
                        request->0.json_text(),
                    ),
                ];
                match victim.shot_at(request->0) {
                    Impact::Miss => {
                        let counted = counting_effect(game, shooter);
                        (counted.0, seen + counted.1)
                    },
                    Impact::Hit((struck, hit)) => {
                        let after = game.with_player(struck);
                        let sunk = if hit.class.sunk() {
                            seq![
                                passing(
                                    ship_path(game.prefix, struck.name, hit.class, "sunk"@),
                                    "true"@,
                                ),
                                retained(
                                    player_path(game.prefix, struck.name, "ships/count"@),
                                    decimal_digits(afloat_count(struck.fleet)),
                                ),
                            ]
                        } else {
                            Seq::empty()
                        };
                        let defeated = if hit.class.sunk() && afloat_count(struck.fleet) == 0 {
                            seq![
                                passing(
                                    player_path(game.prefix, struck.name, "defeated"@),
                                    "true"@,
                                ),
                            ]
                        } else {
                            Seq::empty()
                        };
                        if hit.class.sunk() && afloat_count(struck.fleet) == 0 && active_count(
                            after.players,
                        ) == 1 {
                            (after.ended(), seen + sunk + defeated + over_requests(after))
                        } else {
                            let counted = counting_effect(after, shooter);
                            (counted.0, seen + sunk + defeated + counted.1)
                        }
                    },
                }
            },
        },
        _ => (game, Seq::empty()),
    }
}

/// Counts a shot, tells the count, and passes the turn on where it is over.
fn count_shot(game: &mut GameArc, mqtt: &mut MosquittoArc<Handler>, shooter: &Player)
    ensures
        final(game)@ == counting_effect(old(game)@, shooter@).0,
        final(mqtt)@ == sent(old(mqtt)@, counting_effect(old(game)@, shooter@).1),
{
    game.record_shot();
    if let GameState::Underway(_, fired_shots, _) = game.state() {
        let prefix = game.prefix();
        mqtt.retain(
            game_topic(prefix.as_str(), "fired_shots").as_str(),
            decimal(fired_shots as u64).as_str(),
        );
        if fired_shots as usize >= shooter.active_ships() {
            next_turn(game, mqtt);
        }
        assert(mqtt@.outbox =~= old(mqtt)@.outbox + counting_effect(old(game)@, shooter@).1);
    } else {
        assert(mqtt@.outbox =~= old(mqtt)@.outbox + counting_effect(old(game)@, shooter@).1);
    }
}

/// Serves a shot, as it was read from the message that came for the player
/// at a place of the roster: the target.
pub fn shot_requested(
    game: &mut GameArc,
    mqtt: &mut MosquittoArc<Handler>,
    target: usize,
    request: Result<Point, TranslationError>,
)
    ensures
        final(game)@ == shot_effect(old(game)@, target, read(request)).0,
        final(mqtt)@ == sent(old(mqtt)@, shot_effect(old(game)@, target, read(request)).1),
{
    let ghost effect = shot_effect(old(game)@, target, read(request));
    let ghost nothing = Seq::<RequestView<Handler>>::empty();
    let current = match game.state() {
        GameState::Underway((_, player), _, _) => player,
        _ => {
            assert(mqtt@.outbox =~= old(mqtt)@.outbox + nothing);
            return ;
        },
    };
    let shooter = match game.find_player(current.as_str()) {
        Some((_, shooter)) => shooter,
        None => {
            assert(mqtt@.outbox =~= old(mqtt)@.outbox + nothing);
            return ;
        },
    };
    let coordinates = match request {
        Ok(coordinates) => coordinates,
        Err(_) => {
            assert(mqtt@.outbox =~= old(mqtt)@.outbox + nothing);
            return ;
        },
    };
    let victim = match game.get_player(target) {
        Some(victim) => victim,
        None => {
            assert(mqtt@.outbox =~= old(mqtt)@.outbox + nothing);
            return ;
        },
    };
    let prefix = game.prefix();
    mqtt.publish(
        player_topic(prefix.as_str(), victim.name.as_str(), "hit").as_str(),
        coordinates.to_json().as_str(),
    );
    match victim.shoot(&coordinates) {
        Impact::Miss => {},
        Impact::Hit((struck, hit_ship)) => {
            let name = struck.name.clone();
            let afloat = struck.active_ships();
            game.update_player(struck);
            if hit_ship.is_sunk() {
                mqtt.publish(
                    ship_topic(prefix.as_str(), name.as_str(), &hit_ship.class, "sunk").as_str(),
                    "true",
                );
                mqtt.retain(
                    player_topic(prefix.as_str(), name.as_str(), "ships/count").as_str(),
                    decimal(afloat as u64).as_str(),
                );
                if afloat == 0 {
                    mqtt.publish(
                        player_topic(prefix.as_str(), name.as_str(), "defeated").as_str(),
                        "true",
                    );
                    if game.active_player_count() == 1 {
                        game_over(game, mqtt);
                        assert(mqtt@.outbox =~= old(mqtt)@.outbox + effect.1);
                        return ;
                    }
                }
            }
        },
    }
    count_shot(game, mqtt, &shooter);
    assert(mqtt@.outbox =~= old(mqtt)@.outbox + effect.1);
}

/// Every fleet of the roster is one that the rules allow.
pub open spec fn fleets_sound(game: GameView) -> bool {
    forall|i: int|
        0 <= i < game.players.len() ==> fleet_sound(
            (#[trigger] game.players[i]).fleet,
            game.players[i].field_size,
        )
}

/// The game is one that the engine can have brought about: the roster holds
/// no name twice, a game underway names a player of the roster, and every
/// fleet is one that the rules allow.
pub open spec fn engine_sound(game: GameView) -> bool {
    &&& game.sound()
    &&& fleets_sound(game)
    &&& game.players.len() < usize::MAX
}

/// A request to join leaves a sound game sound and in its phase. Nobody
/// leaves the roster: a new name comes last, a known one keeps its place.
pub proof fn joining_keeps_engine_sound(game: GameView, request: Option<PlayerView>)
    requires
        engine_sound(game),
    ensures
        joined(game, request).sound(),
        fleets_sound(joined(game, request)),
        joined(game, request).state == game.state,
        names(game.players).is_prefix_of(names(joined(game, request).players)),
{
    if let Some(player) = request {
        let recruit = enlisted(player);
        let after = joined(game, request);
        crate::model::game::joining_keeps_game_sound(game, recruit);
        crate::model::game::index_of_is_first(game.players, recruit.name, 0);
        assert forall|i: int| 0 <= i < after.players.len() implies fleet_sound(
            (#[trigger] after.players[i]).fleet,
            after.players[i].field_size,
        ) by {
            if after.players[i] != recruit {
                assert(after.players[i] == game.players[i]);
            }
        }
    }
}

/// A placement leaves a sound game sound, its roster as it was by name and
/// order, and never takes a game that is not over back to an earlier phase.
/// No fleet loses a ship.
pub proof fn placement_keeps_engine_sound(
    game: GameView,
    player: usize,
    class: Class,
    request: Option<Ship>,
    first: usize,
)
    requires
        engine_sound(game),
    ensures
        ({
            let after = placement_effect(game, player, class, request, first).0;
            &&& after.sound()
            &&& fleets_sound(after)
            &&& names(after.players) == names(game.players)
            &&& !(game.state is Over) ==> after.state.rank() >= game.state.rank()
            &&& forall|i: int|
                0 <= i < game.players.len() ==> placed_count(
                    (#[trigger] after.players[i]).fleet,
                ) >= placed_count(game.players[i].fleet)
        }),
{
    let after = placement_effect(game, player, class, request, first).0;
    if player < game.players.len() && request is Some {
        let owner = game.players[player as int];
        let ship = Ship { class, ..request->0 };
        if let Ok(placed) = owner.placing(ship) {
            let updated = game.with_player(placed);
            crate::model::player::placing_keeps_fleet_sound(owner, ship);
            crate::model::game::joining_keeps_game_sound(game, placed);
            crate::model::game::rejoining_keeps_roster(game, placed, player as int);
            crate::model::game::unique_name_is_at_its_place(game.players, player as int);
            assert(updated.players =~= game.players.update(player as int, placed));
            crate::model::game::course_keeps_game_sound(updated, first);
            assert forall|i: int| 0 <= i < updated.players.len() implies fleet_sound(
                (#[trigger] updated.players[i]).fleet,
                updated.players[i].field_size,
            ) by {
                if i != player {
                    assert(updated.players[i] == game.players[i]);
                }
            }
            assert forall|i: int| 0 <= i < game.players.len() implies placed_count(
                (#[trigger] updated.players[i]).fleet,
            ) >= placed_count(game.players[i].fleet) by {
                if i != player {
                    assert(updated.players[i] == game.players[i]);
                }
            }
        }
    }
}

/// A shot leaves a sound game sound and its roster as it was by name and
/// order, so a defeated player stays on it. The game never goes back to an
/// earlier phase, no fleet gains or loses a ship, and no player has more
/// ships afloat than before.
pub proof fn shot_keeps_engine_sound(game: GameView, target: usize, request: Option<Point>)
    requires
        engine_sound(game),
    ensures
        ({
            let after = shot_effect(game, target, request).0;
            &&& after.sound()
            &&& fleets_sound(after)
            &&& names(after.players) == names(game.players)
            &&& after.state.rank() >= game.state.rank()
            &&& forall|i: int|
                0 <= i < game.players.len() ==> {
                    &&& afloat_count((#[trigger] after.players[i]).fleet) <= afloat_count(
                        game.players[i].fleet,
                    )
                    &&& placed_count(after.players[i].fleet) == placed_count(
                        game.players[i].fleet,
                    )
                }
        }),
{
    let after = shot_effect(game, target, request).0;
    if let GameStateView::Underway { name: current, .. } = game.state {
        if let Some(shooter_at) = index_of_from(game.players, current, 0) {
            if request is Some && target < game.players.len() {
                let shooter = game.players[shooter_at];
                let victim = game.players[target as int];
                let p = request->0;
                match victim.shot_at(p) {
                    Impact::Miss => {
                        counting_keeps_players(game, shooter);
                    },
                    Impact::Hit((struck, hit)) => {
                        let updated = game.with_player(struck);
                        crate::model::player::hit_lowers_afloat_by_at_most_one(victim, p);
                        crate::model::player::hit_keeps_fleet_sound(victim, p);
                        crate::model::game::joining_keeps_game_sound(game, struck);
                        crate::model::game::rejoining_keeps_roster(game, struck, target as int);
                        crate::model::game::unique_name_is_at_its_place(
                            game.players,
                            target as int,
                        );
                        assert(updated.players =~= game.players.update(target as int, struck));
                        assert forall|i: int| 0 <= i < updated.players.len() implies fleet_sound(
                            (#[trigger] updated.players[i]).fleet,
                            updated.players[i].field_size,
                        ) by {
                            if i != target {
                                assert(updated.players[i] == game.players[i]);
                            }
                        }
                        assert forall|i: int| 0 <= i < game.players.len() implies {
                            &&& afloat_count((#[trigger] updated.players[i]).fleet) <= afloat_count(
                                game.players[i].fleet,
                            )
                            &&& placed_count(updated.players[i].fleet) == placed_count(
                                game.players[i].fleet,
                            )
                        } by {
                            if i != target {
                                assert(updated.players[i] == game.players[i]);
                            }
                        }
                        crate::model::game::course_keeps_game_sound(updated, 0);
                        counting_keeps_players(updated, shooter);
                    },
                }
            }
        }
    }
}

/// Counting a shot changes nothing but the phase, which it keeps or moves
/// on within the course of the game.
pub proof fn counting_keeps_players(game: GameView, shooter: PlayerView)
    requires
        game.sound(),
        game.players.len() < usize::MAX,
    ensures
        counting_effect(game, shooter).0.players == game.players,
        counting_effect(game, shooter).0.sound(),
        counting_effect(game, shooter).0.state.rank() == game.state.rank(),
{
    crate::model::game::course_keeps_game_sound(game.shot(), 0);
}

} // verus!
