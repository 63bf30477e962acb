use battleship::model::class::Class;
use battleship::model::class::Class::{Battleship, Carrier, Destroyer, PatrolBoat, Submarine};
use battleship::model::game::{Game, GameArc};
use battleship::model::gameerror::GameError;
use battleship::model::gamestate::GameState;
use battleship::model::occupation::Occupation;
use battleship::model::orientation::Orientation;
use battleship::model::status::Status;
use battleship::text::{decimal, ends_with};
use battleship::model::impact::Impact;
use battleship::model::orientation::Orientation::{Horizontal, Vertical};
use battleship::model::player::{bottom_ruler, inner_ruler, ruler, top_ruler, Player};
use battleship::model::point::Point;
use battleship::model::range::Range;
use battleship::model::ship::Ship;
use battleship::model::size::Size;
use battleship::model::status::Status::Requested;

fn carrier() -> Ship {
    Ship::new(Point::new(1, 1), Vertical, Carrier([false; 5]))
}

fn battleship() -> Ship {
    Ship::new(Point::new(2, 2), Horizontal, Battleship([false; 4]))
}

fn destroyer() -> Ship {
    Ship::new(Point::new(2, 2), Vertical, Destroyer([false; 3]))
}

fn submarine() -> Ship {
    Ship::new(Point::new(3, 1), Vertical, Submarine([false; 3]))
}

fn patrol_boat() -> Ship {
    Ship::new(Point::new(5, 2), Horizontal, PatrolBoat([false; 2]))
}

fn player() -> Player {
    Player::new(
        "Henkie".to_string(),
        "Cockadoodledoo".to_string(),
        [Some(battleship()), None, None, None, None],
        Requested,
        Size::default(),
    )
}

fn game() -> Game {
    let mut game = Game::new(Size::default(), "test".to_string());
    game.update_player(player());
    game
}

#[test]
fn test_transposing_ships() {
    assert_eq!(patrol_boat().transposed_to(Horizontal), patrol_boat());
    assert_eq!(
        patrol_boat().transposed_to(Vertical),
        Ship {
            coordinates: Point { x: 2, y: 5 },
            orientation: Vertical,
            class: PatrolBoat([false; 2])
        }
    );
}

#[test]
fn test_tail_end() {
    assert_eq!(carrier().tail_end(), 5);
    assert_eq!(patrol_boat().tail_end(), 6);
}

#[test]
fn test_range() {
    assert!(Range::new(2, 5).within(2));
    assert!(Range::new(2, 5).within(3));
    assert!(!Range::new(2, 5).within(1));
    assert!(!Range::new(2, 5).within(6));

    assert!(Range::new(2, 5).overlap(Range::new(5, 8)));
    assert!(Range::new(4, 7).overlap(Range::new(2, 5)));
    assert!(!Range::new(2, 5).overlap(Range::new(6, 8)));
    assert!(!Range::new(5, 7).overlap(Range::new(2, 4)));
}

#[test]
fn test_overlapping_ships() {
    let ship_pairs = [
        (carrier(), battleship(), false, "Non overlapping"),
        (battleship(), destroyer(), true, "Identical coordinates with different orientations"),
        (battleship(), battleship(), true, "Identical coordinates with same orientation"),
        (battleship(), submarine(), true, "Overlapping with different orientations"),
        (battleship(), patrol_boat(), true, "Overlapping with same orientation"),
    ];

    for (one, other, expected, message) in ship_pairs.iter() {
        let one_result = one.overlap(other);
        let other_result = other.overlap(one);
        assert_eq!(one_result, *expected, "{}", message);
        assert_eq!(one_result, other_result, "{}", message);
    }
}

#[test]
fn test_placement_existing_class() {
    assert!(!player()
        .check_placement(&Ship {
            coordinates: Point { x: 4, y: 7 },
            orientation: Horizontal,
            class: Battleship([false; 4]),
        })
        .is_ok())
}

#[test]
fn test_placement_outside_field() {
    assert!(!player()
        .check_placement(&Ship {
            coordinates: Point { x: 4, y: 7 },
            orientation: Vertical,
            class: Carrier([false; 5]),
        })
        .is_ok())
}

#[test]
fn test_overlapping_placement() {
    assert!(!player().check_placement(&destroyer()).is_ok())
}

#[test]
fn test_correct_placement() {
    assert!(player().check_placement(&carrier()).is_ok())
}

#[test]
fn test_shoot_and_hit() {
    let game = game();
    let (_, target) = game.find_player("Henkie").unwrap();
    assert!(match target.shoot(&Point { x: 4, y: 2 }) {
        Impact::Hit(_) => true,
        Impact::Miss => false,
    });
}

#[test]
fn test_shoot_and_miss() {
    let game = game();
    let (_, target) = game.find_player("Henkie").unwrap();
    assert!(!match target.shoot(&Point { x: 4, y: 3 }) {
        Impact::Hit(_) => true,
        Impact::Miss => false,
    });
}

#[test]
fn range_contains_its_ends_only() {
    let range = Range::new(2, 5);
    for x in [2u8, 3, 4, 5] {
        assert!(range.within(x));
    }
    assert!(!range.within(1));
    assert!(!range.within(6));
    let swapped = Range::new(5, 2);
    assert_eq!(swapped, range);
}

#[test]
fn ship_overlap_cases() {
    assert!(!carrier().overlap(&battleship()));
    assert!(battleship().overlap(&destroyer()));
    assert!(battleship().overlap(&submarine()));
    assert!(battleship().overlap(&patrol_boat()));
    assert!(!battleship().overlap(&Ship::new(Point::new(6, 2), Horizontal, PatrolBoat([false; 2]))));
    assert!(!battleship().overlap(&Ship::new(Point::new(2, 3), Horizontal, PatrolBoat([false; 2]))));
}

#[test]
fn ship_range_ends_at_the_tail() {
    let range = battleship().range();
    assert_eq!(range, Range { min: 2, max: 5 });
    assert_eq!(battleship().tail_end(), 5);
    assert_eq!(battleship().far_end(), 5);
    assert_eq!(carrier().range(), Range { min: 1, max: 5 });
    let far = Ship::new(Point::new(254, 0), Horizontal, Carrier([false; 5]));
    assert_eq!(far.far_end(), 258);
    assert!(far.is_hit(&Point::new(255, 0)));
    assert!(!far.is_hit(&Point::new(253, 0)));
}

#[test]
fn ship_shot_sets_one_flag() {
    let ship = battleship();
    match ship.shoot(&Point::new(4, 2)) {
        Impact::Hit(after) => {
            assert_eq!(after.class, Battleship([false, false, true, false]));
            assert_eq!(after.coordinates, ship.coordinates);
            assert_eq!(after.orientation, ship.orientation);
            assert!(!after.is_sunk());
            match after.shoot(&Point::new(4, 2)) {
                Impact::Hit(again) => assert_eq!(again, after),
                Impact::Miss => panic!("the cell is under the ship"),
            }
        }
        Impact::Miss => panic!("the cell is under the ship"),
    }
    assert_eq!(ship.shoot(&Point::new(6, 2)), Impact::Miss);
    assert_eq!(ship.shoot(&Point::new(1, 2)), Impact::Miss);
    assert_eq!(ship.shoot(&Point::new(4, 3)), Impact::Miss);
    assert_eq!(ship.global_to_local(&Point::new(5, 2)), 3);
}

#[test]
fn ship_sinks_with_its_last_flag() {
    let mut ship = patrol_boat();
    assert!(!ship.is_sunk());
    for x in [5u8, 6] {
        ship = match ship.shoot(&Point::new(x, 2)) {
            Impact::Hit(after) => after,
            Impact::Miss => panic!("the cell is under the ship"),
        };
    }
    assert!(ship.is_sunk());
    assert_eq!(ship.class, PatrolBoat([true; 2]));
}

#[test]
fn class_names_and_tokens() {
    let all = Class::all();
    let names: Vec<String> = all.iter().map(|class| class.name()).collect();
    assert_eq!(names, ["carrier", "battleship", "destroyer", "submarine", "patrolboat"]);
    let tokens: Vec<&str> = all.iter().map(|class| class.map_token()).collect();
    assert_eq!(tokens, ["C", "B", "D", "S", "P"]);
    let sizes: Vec<u8> = all.iter().map(|class| class.size()).collect();
    assert_eq!(sizes, [5, 4, 3, 3, 2]);
    for class in all.iter() {
        assert_eq!(Class::from_name(&class.name()), *class);
    }
    assert_eq!(Class::from_name("raft"), Carrier([false; 5]));
    assert_eq!(Class::default(), Battleship([false; 4]));
    assert_eq!(Carrier([false; 5]).shoot(7), Carrier([false; 5]));
    assert_eq!(Carrier([false; 5]).shoot(4), Carrier([false, false, false, false, true]));
    assert!(Carrier([true; 5]).is_kind_of(&Carrier([false; 5])));
    assert!(!Destroyer([false; 3]).is_kind_of(&Submarine([false; 3])));
}

#[test]
fn class_probe_shows_the_cell() {
    let class = Destroyer([false, true, false]);
    assert_eq!(class.probe(0), Occupation::Ship(class, false));
    assert_eq!(class.probe(1), Occupation::Ship(class, true));
    assert_eq!(class.probe(3), Occupation::Empty);
    let sunk = Destroyer([true; 3]);
    assert_eq!(sunk.probe(2), Occupation::Sunk(sunk));
    assert_eq!(Occupation::Ship(class, true).render(), "[D]");
    assert_eq!(Occupation::Ship(class, false).render(), " D ");
    assert_eq!(Occupation::Sunk(sunk).render(), "↓D↓");
    assert_eq!(Occupation::Empty.render(), "   ");
}

#[test]
fn placement_errors_in_order() {
    let player = player();
    let placed_and_outside = Ship::new(Point::new(8, 2), Horizontal, Battleship([false; 4]));
    assert_eq!(
        player.check_placement(&placed_and_outside),
        Err(GameError::ShipAlreadyPlaced(Battleship([false; 4])))
    );
    let outside_and_overlapping = Ship::new(Point::new(5, 2), Horizontal, Carrier([false; 5]));
    let small = Player::new(
        "Henkie".to_string(),
        "Cockadoodledoo".to_string(),
        [Some(battleship()), None, None, None, None],
        Requested,
        Size::new(7, 7),
    );
    assert!(outside_and_overlapping.overlap(&battleship()));
    assert_eq!(
        small.check_placement(&outside_and_overlapping),
        Err(GameError::ShipOutOfBounds(Point::new(5, 2), Horizontal, 5))
    );
    assert_eq!(
        player.check_placement(&outside_and_overlapping),
        Err(GameError::ShipOverlaps(battleship()))
    );
    assert_eq!(
        player.check_placement(&Ship::new(Point::new(6, 0), Horizontal, Carrier([false; 5]))),
        Err(GameError::ShipOutOfBounds(Point::new(6, 0), Horizontal, 5))
    );
    assert_eq!(
        player.check_placement(&Ship::new(Point::new(5, 0), Horizontal, Carrier([false; 5]))),
        Ok(())
    );
    assert_eq!(
        player.check_placement(&Ship::new(Point::new(10, 0), Vertical, Destroyer([false; 3]))),
        Err(GameError::ShipOutOfBounds(Point::new(10, 0), Vertical, 3))
    );
    assert_eq!(
        player.check_placement(&destroyer()),
        Err(GameError::ShipOverlaps(battleship()))
    );
}

#[test]
fn game_error_texts() {
    assert_eq!(
        GameError::ShipAlreadyPlaced(Carrier([false; 5])).render(),
        "carrier class ship has already been placed!"
    );
    assert_eq!(
        GameError::ShipOutOfBounds(Point::new(6, 0), Horizontal, 5).render(),
        "Ship is not placed (entirely) within the map! Coordinates: [6; 0], orientation: Horizontal, size: 5"
    );
    assert_eq!(
        GameError::ShipOverlaps(battleship()).render(),
        "This ship overlaps with ship of class battleship at [2; 2] (orientation: Horizontal)!"
    );
}

fn empty_player(name: &str) -> Player {
    Player::new(
        name.to_string(),
        "secret".to_string(),
        battleship::model::player::default_fleet(),
        Requested,
        Size::default(),
    )
}

fn row_fleet(player: Player) -> Player {
    let mut player = player;
    for (row, class) in Class::all().into_iter().enumerate() {
        player = player
            .place_ship(Ship::new(Point::new(0, row as u8), Horizontal, class))
            .expect("the rows are free");
    }
    player
}

#[test]
fn placing_fills_the_fleet_in_order() {
    let mut player = empty_player("alice");
    assert_eq!(player.fleet_size(), 0);
    assert_eq!(player.find_empty_spot(), Some(0));
    assert!(player.is_defeated());
    player = player.place_ship(carrier()).unwrap();
    assert_eq!(player.fleet_size(), 1);
    assert_eq!(player.fleet[0], Some(carrier()));
    assert!(player.placed(&Carrier([true; 5])));
    assert!(!player.placed(&Battleship([false; 4])));
    assert_eq!(
        player.place_ship(carrier()).err(),
        Some(GameError::ShipAlreadyPlaced(Carrier([false; 5])))
    );
    player = player.place_ship(battleship()).unwrap();
    assert_eq!(player.fleet[1], Some(battleship()));
    assert_eq!(player.place_ship(destroyer()).err(), Some(GameError::ShipOverlaps(battleship())));
    assert_eq!(player.overlap(&destroyer()), Some(battleship()));
    assert_eq!(player.overlap(&patrol_boat()), Some(battleship()));
    assert_eq!(player.fleet_size(), 2);
    assert!(!player.is_fleet_complete());
    assert_eq!(player.active_ships(), 2);

    let full = row_fleet(empty_player("bob"));
    assert_eq!(full.fleet_size(), 5);
    assert!(full.is_fleet_complete());
    assert_eq!(full.find_empty_spot(), None);
    assert_eq!(full.active_ships(), 5);
    assert!(!full.is_defeated());
}

#[test]
fn hits_sink_ships_and_defeat_players() {
    let mut player = empty_player("alice").place_ship(patrol_boat()).unwrap();
    assert_eq!(player.active_ships(), 1);
    assert_eq!(player.shoot(&Point::new(4, 2)), Impact::Miss);
    assert_eq!(player.probe(&Point::new(5, 2)), Occupation::Ship(PatrolBoat([false; 2]), false));
    assert_eq!(player.probe(&Point::new(4, 2)), Occupation::Empty);
    let (after, hit) = match player.shoot(&Point::new(5, 2)) {
        Impact::Hit(pair) => pair,
        Impact::Miss => panic!("a ship lies there"),
    };
    assert_eq!(hit.class, PatrolBoat([true, false]));
    assert_eq!(after.active_ships(), 1);
    assert_eq!(after.status, Requested);
    assert_eq!(after.name, "alice");
    assert_eq!(after.probe(&Point::new(5, 2)), Occupation::Ship(PatrolBoat([true, false]), true));
    player = after;
    let (after, hit) = match player.shoot(&Point::new(6, 2)) {
        Impact::Hit(pair) => pair,
        Impact::Miss => panic!("a ship lies there"),
    };
    assert!(hit.is_sunk());
    assert_eq!(after.active_ships(), 0);
    assert!(after.is_defeated());
    assert_eq!(after.status, Status::Defeated);
    assert_eq!(after.fleet_size(), 1);
    assert_eq!(after.probe(&Point::new(6, 2)), Occupation::Sunk(PatrolBoat([true; 2])));
    assert_eq!(battleship::model::player::active_ships(after.fleet), 0);
    assert!(battleship::model::player::is_defeated(after.fleet));
}

fn sunk_player(name: &str) -> Player {
    let mut player = empty_player(name).place_ship(patrol_boat()).unwrap();
    for x in [5u8, 6] {
        player = match player.shoot(&Point::new(x, 2)) {
            Impact::Hit((after, _)) => after,
            Impact::Miss => panic!("a ship lies there"),
        };
    }
    player
}

fn current(game: &Game) -> (usize, String) {
    match &game.state {
        GameState::Underway(current, _, _) => current.clone(),
        other => panic!("the game is not underway: {:?}", other),
    }
}

#[test]
fn turns_skip_defeated_players() {
    let mut game = Game::new(Size::default(), "t".to_string());
    game.update_player(row_fleet(empty_player("one")));
    game.update_player(sunk_player("two"));
    game.update_player(row_fleet(empty_player("three")));
    assert_eq!(game.player_count(), 3);
    assert_eq!(game.active_player_count(), 2);
    assert_eq!(game.ready_players(), 2);
    game.next_turn();
    assert_eq!(game.state, GameState::Lobby);
    game.start(|_| 0);
    assert_eq!(current(&game), (0, "one".to_string()));
    game.next_turn();
    assert_eq!(current(&game), (2, "three".to_string()));
    game.next_turn();
    assert_eq!(current(&game), (0, "one".to_string()));
    assert_eq!(game.player_list(), ["one", "two", "three"]);
}

#[test]
fn turn_stays_with_the_last_player_afloat() {
    let mut game = Game::new(Size::default(), "t".to_string());
    game.update_player(sunk_player("one"));
    game.update_player(row_fleet(empty_player("two")));
    game.update_player(sunk_player("three"));
    game.start(|n| n - 2);
    assert_eq!(current(&game), (1, "two".to_string()));
    game.record_shot();
    game.record_shot();
    assert_eq!(
        game.state,
        GameState::Underway((1, "two".to_string()), 2, 0)
    );
    game.next_turn();
    assert_eq!(
        game.state,
        GameState::Underway((1, "two".to_string()), 0, 0)
    );
    game.game_over();
    assert_eq!(game.state, GameState::Over("two".to_string()));
    game.next_turn();
    assert_eq!(game.state, GameState::Over("two".to_string()));
}

#[test]
fn start_ignores_a_choice_beyond_the_roster() {
    let mut game = Game::new(Size::default(), "t".to_string());
    game.start(|_| 0);
    assert_eq!(game.state, GameState::Lobby);
    game.update_player(empty_player("one"));
    game.start(|n| n);
    assert_eq!(game.state, GameState::Lobby);
    game.start_with(3);
    assert_eq!(game.state, GameState::Lobby);
    game.start_with(0);
    assert_eq!(game.state, GameState::Underway((0, "one".to_string()), 0, 0));
    game.state = GameState::Lobby;
    game.game_over();
    assert_eq!(game.state, GameState::Lobby);
}

#[test]
fn players_are_replaced_in_place() {
    let mut game = Game::new(Size::default(), "t".to_string());
    game.update_player(empty_player("one"));
    game.update_player(empty_player("two"));
    game.update_player(row_fleet(empty_player("one")));
    assert_eq!(game.player_list(), ["one", "two"]);
    assert_eq!(game.find_player("one").map(|(index, player)| (index, player.fleet_size())), Some((0, 5)));
    assert_eq!(game.find_player("two").map(|(index, player)| (index, player.fleet_size())), Some((1, 0)));
    assert!(game.find_player("three").is_none());
    assert_eq!(game.position("two"), Some(1));
    assert!(game.get_player(2).is_none());
    assert_eq!(game.get_player(1).map(|player| player.name), Some("two".to_string()));
    assert_eq!(game.prefix(), "t");
    assert_eq!(game.clone(), game);
}

#[test]
fn game_state_texts() {
    assert_eq!(GameState::Lobby.label(), "lobby");
    assert_eq!(GameState::Underway((0, "a".to_string()), 0, 0).label(), "underway");
    assert_eq!(GameState::Over("a".to_string()).label(), "over");
    assert_eq!(GameState::Lobby.render(), "Lobby");
    assert_eq!(
        GameState::Underway((1, "bob".to_string()), 2, 1).render(),
        "bob's turn. 3 shots to go."
    );
    assert_eq!(GameState::Over("bob".to_string()).render(), "Game over. bob won!");
}

#[test]
fn points_and_sizes() {
    assert_eq!(Point::new(3, 7).transposed(), Point { x: 7, y: 3 });
    assert_eq!(Point::new(3, 7).render(), "[3; 7]");
    assert_eq!(Point::new(3, 7).to_json(), "{\"x\":3,\"y\":7}");
    assert_eq!(Point::new(255, 0).to_json(), "{\"x\":255,\"y\":0}");
    assert_eq!(Size::default(), Size { width: 10, height: 10 });
    assert_eq!(Size::new(4, 6).transposed(), Size { width: 6, height: 4 });
    assert_eq!(Size::new(4, 16).render(), "[4 X 16]");
    assert_eq!(Horizontal.transposed(), Vertical);
    assert_eq!(Vertical.transposed(), Horizontal);
    assert_eq!(Orientation::Horizontal.render(), "Horizontal");
    assert_eq!(Orientation::Vertical.render(), "Vertical");
    assert_eq!(Status::default(), Status::Requested);
}

#[test]
fn numerals() {
    assert_eq!(decimal(0), "0");
    assert_eq!(decimal(9), "9");
    assert_eq!(decimal(10), "10");
    assert_eq!(decimal(1234567890), "1234567890");
    assert_eq!(decimal(u64::MAX), "18446744073709551615");
    assert!(ends_with("a/b/approved", "approved"));
    assert!(ends_with("approved", "approved"));
    assert!(!ends_with("proved", "approved"));
    assert!(!ends_with("a/b/approved/x", "approved"));
    assert!(ends_with("anything", ""));
}

#[test]
fn rulers_span_the_columns() {
    assert_eq!(ruler(1, "<", "-", "+", ">"), "<-+->\n");
    assert_eq!(ruler(3, "<", "--", "+", ">"), "<--+--+--+-->\n");
    assert_eq!(top_ruler(2), "    ╔══╧══╤══╧══╤══╧══╗\n");
    assert_eq!(inner_ruler(1), "    ╟─────┼─────╢\n");
    assert_eq!(bottom_ruler(1), "    ╚═════╧═════╝\n");
}

#[test]
fn a_board_is_drawn_row_by_row() {
    let player = Player::new(
        "Henkie".to_string(),
        "Cockadoodledoo".to_string(),
        [
            Some(Ship::new(Point::new(0, 0), Horizontal, PatrolBoat([true, false]))),
            Some(Ship::new(Point::new(1, 1), Horizontal, PatrolBoat([true, true]))),
            None,
            None,
            None,
        ],
        Requested,
        Size::new(3, 2),
    );
    let expected = [
        "\n\n       0     1     2   \n",
        "    ╔══╧══╤══╧══╤══╧══╗\n",
        "  0 ╢ [P] │  P  │     │\n",
        "    ╟─────┼─────┼─────╢\n",
        "  1 ╢     │ ↓P↓ │ ↓P↓ │\n",
        "    ╚═════╧═════╧═════╝\n",
    ]
    .concat();
    assert_eq!(player.render(), expected);
}

#[test]
fn the_tenth_column_ends_with_a_heavy_border() {
    let board = player().render();
    let rows: Vec<&str> = board.lines().collect();
    assert_eq!(rows.len(), 24);
    assert_eq!(
        rows[2],
        "       0     1     2     3     4     5     6     7     8     9   "
    );
    assert_eq!(rows[8], "  2 ╢     │     │  B  │  B  │  B  │  B  │     │     │     │     ║");
    assert_eq!(rows[23], "    ╚═════╧═════╧═════╧═════╧═════╧═════╧═════╧═════╧═════╧═════╝");
}

#[test]
fn the_shared_handle_passes_everything_on() {
    let mut game = GameArc::new(Size::default(), "t".to_string());
    assert_eq!(game.state(), GameState::Lobby);
    game.update_player(row_fleet(empty_player("one")));
    game.update_player(sunk_player("two"));
    assert_eq!(game.prefix(), "t");
    assert_eq!(game.player_count(), 2);
    assert_eq!(game.player_list(), ["one", "two"]);
    assert_eq!(game.players(), ["one", "two"]);
    assert_eq!(game.ready_player_count(), 1);
    assert_eq!(game.active_player_count(), 1);
    assert_eq!(game.find_player("two").map(|(index, _)| index), Some(1));
    assert_eq!(game.get_player(0).map(|player| player.name), Some("one".to_string()));
    assert!(game.get_player(2).is_none());
    game.start(|n| n - 1);
    assert_eq!(game.state(), GameState::Underway((1, "two".to_string()), 0, 0));
    game.record_shot();
    assert_eq!(game.state(), GameState::Underway((1, "two".to_string()), 1, 0));
    game.next_turn();
    assert_eq!(game.state(), GameState::Underway((0, "one".to_string()), 0, 0));
    game.game_over();
    assert_eq!(game.state(), GameState::Over("one".to_string()));
}

#[test]
fn shots_are_counted_up_to_the_largest_count() {
    let mut game = Game::new(Size::default(), "t".to_string());
    game.record_shot();
    assert_eq!(game.state, GameState::Lobby);
    game.update_player(empty_player("one"));
    game.state = GameState::Underway((0, "one".to_string()), 254, 3);
    game.record_shot();
    assert_eq!(game.state, GameState::Underway((0, "one".to_string()), 255, 3));
    game.record_shot();
    assert_eq!(game.state, GameState::Underway((0, "one".to_string()), 255, 3));
}
