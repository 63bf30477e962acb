use battleship::engine::{
    game_over, game_topic, next_turn, perform_salvo, place_ship, player_requested, player_topic,
    players_topic, ship_requested, ship_topic, shot_requested, start_engine, start_game, Handler,
};
use battleship::messaging::mqtt::{MosquittoArc, Order};
use battleship::messaging::translate::TranslationError;
use battleship::model::class::Class;
use battleship::model::class::Class::{Battleship, Carrier, Destroyer, PatrolBoat, Submarine};
use battleship::model::game::GameArc;
use battleship::model::gamestate::GameState;
use battleship::model::orientation::Orientation;
use battleship::model::orientation::Orientation::{Horizontal, Vertical};
use battleship::model::player::{default_fleet, Player};
use battleship::model::point::Point;
use battleship::model::ship::Ship;
use battleship::model::size::Size;
use battleship::model::status::Status;

/// An engine with a broker that notes what it is asked.
struct Table {
    game: GameArc,
    mqtt: MosquittoArc<Handler>,
    published: Vec<(String, String, bool)>,
    subscribed: Vec<String>,
}

fn unreadable(what: &str) -> TranslationError {
    TranslationError::VerificationError(what.to_string())
}

fn read_player(payload: &str) -> Result<Player, TranslationError> {
    let value: serde_json::Value =
        serde_json::from_str(payload).map_err(TranslationError::JsonError)?;
    let name = value["name"].as_str().ok_or(unreadable("name"))?;
    let secret = value["secret"].as_str().ok_or(unreadable("secret"))?;
    Ok(Player::new(
        name.to_string(),
        secret.to_string(),
        default_fleet(),
        Status::default(),
        Size::default(),
    ))
}

fn read_point(value: &serde_json::Value) -> Result<Point, TranslationError> {
    let x = value["x"].as_u64().filter(|x| *x <= 255).ok_or(unreadable("x"))?;
    let y = value["y"].as_u64().filter(|y| *y <= 255).ok_or(unreadable("y"))?;
    Ok(Point::new(x as u8, y as u8))
}

fn read_shot(payload: &str) -> Result<Point, TranslationError> {
    let value: serde_json::Value =
        serde_json::from_str(payload).map_err(TranslationError::JsonError)?;
    read_point(&value)
}

fn read_ship(payload: &str) -> Result<Ship, TranslationError> {
    let value: serde_json::Value =
        serde_json::from_str(payload).map_err(TranslationError::JsonError)?;
    let coordinates = read_point(&value["coordinates"])?;
    let orientation = match value["orientation"].as_str() {
        Some("Horizontal") => Horizontal,
        Some("Vertical") => Vertical,
        _ => return Err(unreadable("orientation")),
    };
    Ok(Ship::new(coordinates, orientation, Class::default()))
}

impl Table {
    fn new(prefix: &str) -> Table {
        let (game, mqtt) = start_engine(Size::default(), prefix);
        let mut table = Table { game, mqtt, published: vec![], subscribed: vec![] };
        table.settle();
        table
    }

    /// Lets the control task serve every request that waits.
    fn settle(&mut self) {
        while let Some(order) = self.mqtt.control() {
            match order {
                Order::Subscribe(topic) => self.subscribed.push(topic),
                Order::Unsubscribe(topic) => self.subscribed.retain(|other| *other != topic),
                Order::Publish(topic, payload, retain) => {
                    self.published.push((topic, payload, retain))
                }
            }
        }
    }

    /// Hands a message of the broker to the engine and returns what the
    /// engine published in answer.
    fn deliver(&mut self, topic: &str, payload: &str) -> Vec<(String, String, bool)> {
        self.settle();
        let before = self.published.len();
        self.mqtt.receive(topic.to_string(), payload.as_bytes().to_vec());
        while let Some((_, payload, handlers)) = self.mqtt.dispatch() {
            for handler in handlers {
                match handler {
                    Handler::Join => {
                        player_requested(&mut self.game, &mut self.mqtt, read_player(&payload))
                    }
                    Handler::Place(player, class) => ship_requested(
                        &mut self.game,
                        &mut self.mqtt,
                        player,
                        class,
                        read_ship(&payload),
                    ),
                    Handler::Fire(target) => {
                        shot_requested(&mut self.game, &mut self.mqtt, target, read_shot(&payload))
                    }
                }
            }
            self.settle();
        }
        self.published[before..].to_vec()
    }

    fn join(&mut self, prefix: &str, name: &str) -> Vec<(String, String, bool)> {
        self.deliver(
            &format!("/{}/game/request", prefix),
            &format!("{{\"name\":\"{}\",\"secret\":\"s\"}}", name),
        )
    }

    fn place(
        &mut self,
        prefix: &str,
        name: &str,
        class: &str,
        x: u8,
        y: u8,
        orientation: &str,
    ) -> Vec<(String, String, bool)> {
        self.deliver(
            &format!("/{}/players/{}/ships/{}/place", prefix, name, class),
            &format!(
                "{{\"coordinates\":{{\"x\":{},\"y\":{}}},\"orientation\":\"{}\"}}",
                x, y, orientation
            ),
        )
    }

    fn fire(&mut self, prefix: &str, target: &str, x: u8, y: u8) -> Vec<(String, String, bool)> {
        self.deliver(
            &format!("/{}/players/{}/fire", prefix, target),
            &format!("{{\"x\":{},\"y\":{}}}", x, y),
        )
    }

    fn place_rows(&mut self, prefix: &str, name: &str) -> Vec<(String, String, bool)> {
        let mut last = vec![];
        for (row, class) in
            ["carrier", "battleship", "destroyer", "submarine", "patrolboat"].iter().enumerate()
        {
            last = self.place(prefix, name, class, 0, row as u8, "Horizontal");
        }
        last
    }

    fn current(&self) -> String {
        match self.game.state() {
            GameState::Underway((_, name), _, _) => name,
            other => panic!("the game is not underway: {:?}", other),
        }
    }
}

fn kept(topic: &str, payload: &str) -> (String, String, bool) {
    (topic.to_string(), payload.to_string(), true)
}

fn told(topic: &str, payload: &str) -> (String, String, bool) {
    (topic.to_string(), payload.to_string(), false)
}

#[test]
fn bootstrap_opens_the_lobby() {
    let table = Table::new("t1");
    assert_eq!(table.subscribed, ["/t1/game/request"]);
    assert_eq!(table.published, [told("/t1/game/server", "up")]);
    assert_eq!(table.game.state(), GameState::Lobby);
    assert_eq!(table.game.player_count(), 0);
    assert_eq!(table.game.prefix(), "t1");
}

#[test]
fn topics_are_built_from_prefix_player_and_class() {
    assert_eq!(game_topic("P", "state"), "/P/game/state");
    assert_eq!(players_topic("P", "count"), "/P/players/count");
    assert_eq!(player_topic("P", "N", "ships/count"), "/P/players/N/ships/count");
    assert_eq!(
        ship_topic("P", "N", &Submarine([true, false, false]), "sunk"),
        "/P/players/N/ships/submarine/sunk"
    );
}

#[test]
fn joining_opens_the_placement_endpoints() {
    let mut table = Table::new("t1");
    let answer = table.join("t1", "alice");
    assert_eq!(
        answer,
        [kept("/t1/players/count", "1"), kept("/t1/players/list", "[\"alice\"]")]
    );
    assert_eq!(
        table.subscribed,
        [
            "/t1/game/request",
            "/t1/players/alice/ships/carrier/place",
            "/t1/players/alice/ships/battleship/place",
            "/t1/players/alice/ships/destroyer/place",
            "/t1/players/alice/ships/submarine/place",
            "/t1/players/alice/ships/patrolboat/place",
        ]
    );
    let answer = table.join("t1", "bob");
    assert_eq!(
        answer,
        [kept("/t1/players/count", "2"), kept("/t1/players/list", "[\"alice\",\"bob\"]")]
    );
    let answer = table.join("t1", "alice");
    assert_eq!(
        answer,
        [kept("/t1/players/count", "2"), kept("/t1/players/list", "[\"alice\",\"bob\"]")]
    );
    assert_eq!(table.game.players(), ["alice", "bob"]);
    let answer = table.deliver("/t1/game/request", "no json");
    assert_eq!(
        answer,
        [kept("/t1/players/count", "2"), kept("/t1/players/list", "[\"alice\",\"bob\"]")]
    );
    assert_eq!(table.game.player_count(), 2);
}

#[test]
fn happy_path() {
    let mut table = Table::new("t1");
    table.join("t1", "alice");
    table.join("t1", "bob");
    let answer = table.place("t1", "alice", "carrier", 0, 0, "Horizontal");
    assert_eq!(
        answer,
        [
            kept("/t1/players/alice/ships/count", "1"),
            kept("/t1/players/alice/ships/carrier/approved", "true"),
        ]
    );
    table.published.clear();
    table.place_rows("t1", "alice");
    assert_eq!(table.game.state(), GameState::Lobby);
    assert_eq!(table.game.ready_player_count(), 1);
    let started = table.place_rows("t1", "bob");
    let first = table.current();
    assert!(first == "alice" || first == "bob");
    assert_eq!(table.game.state(), GameState::Underway((if first == "alice" { 0 } else { 1 }, first.clone()), 0, 0));
    assert_eq!(started[0], kept("/t1/players/bob/ships/count", "5"));
    assert_eq!(started[1], kept("/t1/players/bob/ships/patrolboat/approved", "true"));
    assert_eq!(started[2], kept("/t1/players/alice/ships/carrier/approved", ""));
    assert_eq!(started[11], kept("/t1/players/bob/ships/patrolboat/approved", ""));
    assert_eq!(
        started[12..],
        [
            kept("/t1/game/state", "underway"),
            kept("/t1/game/fired_shots", "0"),
            kept("/t1/game/current", &first),
        ]
    );
    assert_eq!(table.subscribed, ["/t1/players/alice/fire", "/t1/players/bob/fire"]);

    let second = if first == "alice" { "bob" } else { "alice" };
    for x in 0..4u8 {
        let answer = table.fire("t1", second, x, 0);
        assert_eq!(
            answer,
            [
                told(&format!("/t1/players/{}/hit", second), &format!("{{\"x\":{},\"y\":0}}", x)),
                kept("/t1/game/fired_shots", &format!("{}", x + 1)),
            ]
        );
        assert_eq!(table.current(), first);
    }
    let answer = table.fire("t1", second, 4, 0);
    assert_eq!(
        answer,
        [
            told(&format!("/t1/players/{}/hit", second), "{\"x\":4,\"y\":0}"),
            told(&format!("/t1/players/{}/ships/carrier/sunk", second), "true"),
            kept(&format!("/t1/players/{}/ships/count", second), "4"),
            kept("/t1/game/fired_shots", "5"),
            kept("/t1/game/fired_shots", "0"),
            kept("/t1/game/current", second),
        ]
    );
    assert_eq!(table.current(), second);
    assert_eq!(table.game.find_player(second).unwrap().1.active_ships(), 4);

    // the other player has four ships afloat, so four shots
    for shot in 0..4u8 {
        assert_eq!(table.current(), second);
        let answer = table.fire("t1", &first, 9, 9);
        assert_eq!(answer[0], told(&format!("/t1/players/{}/hit", first), "{\"x\":9,\"y\":9}"));
        assert_eq!(answer[1], kept("/t1/game/fired_shots", &format!("{}", shot + 1)));
    }
    assert_eq!(table.current(), first);
}

#[test]
fn duplicate_placement() {
    let mut table = Table::new("t1");
    table.join("t1", "bob");
    table.place("t1", "bob", "carrier", 0, 0, "Horizontal");
    let answer = table.place("t1", "bob", "carrier", 0, 0, "Horizontal");
    assert_eq!(
        answer,
        [told(
            "/t1/players/bob/ships/carrier/error",
            "carrier class ship has already been placed!"
        )]
    );
    assert_eq!(table.game.find_player("bob").unwrap().1.fleet_size(), 1);
}

#[test]
fn out_of_bounds() {
    let mut table = Table::new("t1");
    table.join("t1", "alice");
    let answer = table.place("t1", "alice", "carrier", 6, 0, "Horizontal");
    assert_eq!(
        answer,
        [told(
            "/t1/players/alice/ships/carrier/error",
            "Ship is not placed (entirely) within the map! Coordinates: [6; 0], orientation: Horizontal, size: 5"
        )]
    );
    assert_eq!(table.game.find_player("alice").unwrap().1.fleet_size(), 0);
}

#[test]
fn overlap() {
    let mut table = Table::new("t1");
    table.join("t1", "alice");
    table.place("t1", "alice", "carrier", 0, 0, "Horizontal");
    let answer = table.place("t1", "alice", "battleship", 0, 0, "Vertical");
    assert_eq!(
        answer,
        [told(
            "/t1/players/alice/ships/battleship/error",
            "This ship overlaps with ship of class carrier at [0; 0] (orientation: Horizontal)!"
        )]
    );
    assert_eq!(table.game.find_player("alice").unwrap().1.fleet_size(), 1);
}

#[test]
fn the_topic_names_the_class() {
    let mut table = Table::new("t1");
    table.join("t1", "alice");
    let answer = table.deliver(
        "/t1/players/alice/ships/destroyer/place",
        "{\"coordinates\":{\"x\":1,\"y\":1},\"orientation\":\"Vertical\",\"class\":{\"Carrier\":[true,true,true,true,true]}}",
    );
    assert_eq!(
        answer,
        [
            kept("/t1/players/alice/ships/count", "1"),
            kept("/t1/players/alice/ships/destroyer/approved", "true"),
        ]
    );
    let alice = table.game.find_player("alice").unwrap().1;
    assert_eq!(
        alice.fleet[0],
        Some(Ship::new(Point::new(1, 1), Vertical, Destroyer([false; 3])))
    );
}

#[test]
fn unreadable_messages_are_dropped() {
    let mut table = Table::new("t1");
    table.join("t1", "alice");
    assert!(table.deliver("/t1/players/alice/ships/carrier/place", "{}").is_empty());
    assert!(table.deliver("/t1/players/alice/ships/carrier/place", "no json").is_empty());
    assert!(table.deliver("/t1/players/nobody/ships/carrier/place", "{}").is_empty());
    // no shots before the game is underway
    let mut mqtt_only = Table::new("t2");
    mqtt_only.join("t2", "alice");
    perform_salvo(&mqtt_only.game, &mut mqtt_only.mqtt, 0);
    assert!(mqtt_only.fire("t2", "alice", 0, 0).is_empty());
    assert_eq!(mqtt_only.game.state(), GameState::Lobby);
}

fn sunk_but_patrol_boat(name: &str) -> Player {
    Player::new(
        name.to_string(),
        "s".to_string(),
        [
            Some(Ship::new(Point::new(0, 0), Horizontal, Carrier([true; 5]))),
            Some(Ship::new(Point::new(0, 1), Horizontal, Battleship([true; 4]))),
            Some(Ship::new(Point::new(0, 2), Horizontal, Destroyer([true; 3]))),
            Some(Ship::new(Point::new(0, 3), Horizontal, Submarine([true; 3]))),
            Some(Ship::new(Point::new(0, 4), Horizontal, PatrolBoat([false; 2]))),
        ],
        Status::Idle,
        Size::default(),
    )
}

fn afloat(name: &str) -> Player {
    let mut player = Player::new(
        name.to_string(),
        "s".to_string(),
        default_fleet(),
        Status::Idle,
        Size::default(),
    );
    for (row, class) in Class::all().into_iter().enumerate() {
        player = player.place_ship(Ship::new(Point::new(0, row as u8), Horizontal, class)).unwrap();
    }
    player
}

#[test]
fn defeat_cascade() {
    let mut table = Table::new("t1");
    table.game.update_player(sunk_but_patrol_boat("alice"));
    table.game.update_player(afloat("bob"));
    start_game(&mut table.game, &mut table.mqtt);
    table.settle();
    let first = table.current();
    let answer = table.fire("t1", "alice", 0, 4);
    assert_eq!(answer[0], told("/t1/players/alice/hit", "{\"x\":0,\"y\":4}"));
    assert_eq!(answer[1], kept("/t1/game/fired_shots", "1"));
    if first == "alice" {
        // one ship afloat allows one shot
        assert_eq!(
            answer[2..],
            [kept("/t1/game/fired_shots", "0"), kept("/t1/game/current", "bob")]
        );
    } else {
        assert_eq!(answer.len(), 2);
    }
    let answer = table.fire("t1", "alice", 1, 4);
    assert_eq!(
        answer,
        [
            told("/t1/players/alice/hit", "{\"x\":1,\"y\":4}"),
            told("/t1/players/alice/ships/patrolboat/sunk", "true"),
            kept("/t1/players/alice/ships/count", "0"),
            told("/t1/players/alice/defeated", "true"),
            kept("/t1/players/alice/ships/count", ""),
            kept("/t1/players/bob/ships/count", ""),
            kept("/t1/game/state", ""),
            kept("/t1/players/count", ""),
            kept("/t1/players/list", ""),
            kept("/t1/game/fired_shots", ""),
            kept("/t1/game/current", ""),
            told("/t1/game/state", "over"),
            told("/t1/game/winner", "bob"),
        ]
    );
    assert_eq!(table.game.state(), GameState::Over("bob".to_string()));
    assert!(table.subscribed.is_empty());
    assert_eq!(table.game.players(), ["alice", "bob"]);
    assert_eq!(table.game.active_player_count(), 1);
    assert_eq!(table.game.find_player("alice").unwrap().1.status, Status::Defeated);
    // a game that is over takes no more shots
    assert!(table.fire("t1", "bob", 0, 0).is_empty());
}

#[test]
fn a_defeat_among_three_passes_the_turn_on() {
    let mut table = Table::new("t3");
    table.game.update_player(afloat("one"));
    table.game.update_player(sunk_but_patrol_boat("two"));
    table.game.update_player(afloat("three"));
    start_game(&mut table.game, &mut table.mqtt);
    table.settle();
    table.fire("t3", "two", 0, 4);
    if table.current() == "two" {
        // the target shot at itself and has used its single shot: back to it
        // after the others, or on with the next player
        table.fire("t3", "two", 9, 9);
    }
    let shooter = table.current();
    let answer = table.fire("t3", "two", 1, 4);
    assert!(answer.contains(&told("/t3/players/two/defeated", "true")));
    assert!(matches!(table.game.state(), GameState::Underway(_, _, _)));
    assert_eq!(table.game.active_player_count(), 2);
    // the defeated player stays on the roster and is passed over
    assert_eq!(table.game.players(), ["one", "two", "three"]);
    let mut seen = vec![shooter];
    for _ in 0..12 {
        table.fire("t3", "two", 9, 9);
        seen.push(table.current());
    }
    assert!(seen.contains(&"one".to_string()));
    assert!(seen.contains(&"three".to_string()));
    assert!(!seen[1..].contains(&"two".to_string()));
}

#[test]
fn turns_and_endings_are_announced() {
    let (mut game, mut mqtt) = start_engine(Size::default(), "t");
    while mqtt.control().is_some() {}
    next_turn(&mut game, &mut mqtt);
    assert_eq!(mqtt.control(), None);
    game.update_player(afloat("one"));
    game.update_player(afloat("two"));
    place_ship(&game, &mut mqtt, 1, Class::default());
    place_ship(&game, &mut mqtt, 2, Class::default());
    assert_eq!(
        mqtt.control(),
        Some(Order::Subscribe("/t/players/two/ships/battleship/place".to_string()))
    );
    assert_eq!(mqtt.control(), None);
    game.start(|_| 1);
    next_turn(&mut game, &mut mqtt);
    assert_eq!(game.state(), GameState::Underway((0, "one".to_string()), 0, 0));
    assert_eq!(
        mqtt.control(),
        Some(Order::Publish("/t/game/fired_shots".to_string(), "0".to_string(), true))
    );
    assert_eq!(
        mqtt.control(),
        Some(Order::Publish("/t/game/current".to_string(), "one".to_string(), true))
    );
    game_over(&mut game, &mut mqtt);
    assert_eq!(game.state(), GameState::Over("one".to_string()));
    let mut orders = vec![];
    while let Some(order) = mqtt.control() {
        orders.push(order);
    }
    assert_eq!(orders.len(), 11);
    assert_eq!(orders[1], Order::Unsubscribe("/t/players/one/fire".to_string()));
    assert_eq!(
        orders[10],
        Order::Publish("/t/game/winner".to_string(), "one".to_string(), false)
    );
}

#[test]
fn orientation_is_read_by_its_word() {
    assert!(read_ship("{\"coordinates\":{\"x\":1,\"y\":1},\"orientation\":\"horizontal\"}").is_err());
    assert_eq!(
        read_ship("{\"coordinates\":{\"x\":1,\"y\":1},\"orientation\":\"Horizontal\"}")
            .map(|ship| ship.orientation)
            .ok(),
        Some(Orientation::Horizontal)
    );
    let ship = Ship::from_json(
        read_ship("{\"coordinates\":{\"x\":1,\"y\":2},\"orientation\":\"Vertical\"}"),
        PatrolBoat([false; 2]),
    )
    .unwrap();
    assert_eq!(ship, Ship::new(Point::new(1, 2), Vertical, PatrolBoat([false; 2])));
    assert!(Ship::from_json(Err(unreadable("ship")), PatrolBoat([false; 2])).is_err());
}

#[test]
fn a_player_joins_with_an_empty_fleet() {
    let (mut game, mut mqtt) = start_engine(Size::default(), "t");
    player_requested(&mut game, &mut mqtt, Ok(sunk_but_patrol_boat("alice")));
    let (index, alice) = game.find_player("alice").unwrap();
    assert_eq!(index, 0);
    assert_eq!(alice.fleet, default_fleet());
    assert_eq!(alice.status, Status::Requested);
    assert_eq!(alice.secret, "s");
    assert_eq!(alice.field_size, Size::default());
    player_requested(&mut game, &mut mqtt, Err(unreadable("player")));
    assert_eq!(game.player_count(), 1);
}
