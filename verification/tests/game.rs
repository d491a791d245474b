use stars::distances::sort_by_distance;
use stars::galaxy::Galaxy;
use stars::galaxy::Star;
use stars::galaxy::PLANET_BOUND;
use stars::galaxy::SCALE_FACTOR;
use stars::game::Game;
use stars::game::Player;
use stars::grid::SIDE;
use stars::spawn::Placement;
use stars::units::Unit;
use stars::units::UnitType;

fn star(name: &str, x: usize, y: usize, habitable: &[bool]) -> Star {
    Star::build(name.to_string(), x, y, &habitable.to_vec())
}

/// Three stars at (1, 1), (2, 2) and (3, 3), numbered 1, 2 and 3 on the
/// grid behind a star at (0, 0) that takes the number 0.
fn small_galaxy() -> Galaxy {
    let mut galaxy = Galaxy::new();
    galaxy.add_star(star("Zero", 0, 0, &[]), 0).unwrap();
    galaxy
        .add_star(star("Sol", 1, 1, &[true, false]), 1)
        .unwrap();
    galaxy.add_star(star("Vega", 2, 2, &[true]), 2).unwrap();
    galaxy
        .add_star(star("Rigel", 3, 3, &[false, true, true]), 3)
        .unwrap();
    galaxy
}

#[test]
fn new_units_are_equipped_by_kind() {
    let cargo = Unit::new("Ann".to_string(), UnitType::CargoShip);
    assert_eq!(cargo.player, "Ann");
    assert_eq!(cargo.unit_type, UnitType::CargoShip);
    assert_eq!(
        (cargo.size, cargo.accelerator_max, cargo.accelerator_tank),
        (1, 1, 1)
    );
    assert_eq!(cargo.sight_range, 1);
    assert_eq!(
        (cargo.defense_max, cargo.defense_current, cargo.attack_max),
        (1, 1, 1)
    );
    assert!(!cargo.can_recharge);

    let colony = Unit::new("Ann".to_string(), UnitType::Colony);
    assert_eq!(colony.unit_type, UnitType::Colony);
    assert_eq!(
        (colony.size, colony.accelerator_max, colony.accelerator_tank),
        (1, 1, 1)
    );
    assert_eq!(colony.sight_range, 5);
    assert_eq!(
        (colony.defense_max, colony.defense_current, colony.attack_max),
        (1, 1, 1)
    );
    assert!(!colony.can_recharge);

    let probe = Unit::new("Bob".to_string(), UnitType::Probe);
    assert_eq!(probe.player, "Bob");
    assert_eq!(probe.unit_type, UnitType::Probe);
    assert_eq!(
        (probe.size, probe.accelerator_max, probe.accelerator_tank),
        (1, 25, 25)
    );
    assert_eq!(probe.sight_range, 15);
    assert_eq!(
        (probe.defense_max, probe.defense_current, probe.attack_max),
        (0, 0, 0)
    );
    assert!(!probe.can_recharge);
}

#[test]
fn unit_kinds_have_names() {
    assert_eq!(UnitType::CargoShip.name(), "CargoShip");
    assert_eq!(UnitType::Colony.name(), "Colony");
    assert_eq!(UnitType::Probe.name(), "Probe");
}

#[test]
fn new_galaxy_is_empty() {
    let galaxy = Galaxy::new();
    assert_eq!(galaxy.dimensions, (100, 100));
    assert_eq!(galaxy.total_stars, 1000);
    assert!(galaxy.stars.is_empty());
    assert!(galaxy.distances.is_empty());
    assert_eq!(galaxy.star_matrix[(0, 0)], 0);
    assert_eq!(galaxy.star_matrix[(99, 99)], 0);
    assert_eq!((SIDE, SCALE_FACTOR, PLANET_BOUND), (100, 10, 10));
}

#[test]
fn built_star_names_its_planets() {
    let sol = star("Sol", 4, 7, &[true, false, true]);
    assert_eq!(sol.name, "Sol");
    assert_eq!(sol.location, (4, 7));
    assert_eq!(sol.planets.len(), 3);
    assert_eq!(sol.planets[0].name, "Sol-0");
    assert_eq!(sol.planets[1].name, "Sol-1");
    assert_eq!(sol.planets[2].name, "Sol-2");
    assert_eq!(sol.planets[2].location, (4, 7, 2));
    assert!(sol.planets[0].habitable);
    assert!(!sol.planets[1].habitable);
    assert!(sol.planets[2].habitable);
    assert!(sol.planets.iter().all(|planet| planet.units.is_empty()));
    let many = star("X", 0, 0, &[false; 12]);
    assert_eq!(many.planets[11].name, "X-11");
}

#[test]
fn random_star_lies_within_the_dimensions() {
    let mut galaxy = Galaxy::new();
    galaxy.dimensions = (7, 3);
    for _ in 0..200 {
        let star = galaxy.random_star("Deneb".to_string());
        assert_eq!(star.name, "Deneb");
        assert!(star.location.0 < 7);
        assert!(star.location.1 < 3);
        assert!(star.planets.len() < 10);
        for (z, planet) in star.planets.iter().enumerate() {
            assert_eq!(planet.name, format!("Deneb-{}", z));
            assert_eq!(planet.location, (star.location.0, star.location.1, z));
            assert!(planet.units.is_empty());
        }
    }
}

#[test]
fn star_is_refused_where_a_number_stands() {
    let mut galaxy = Galaxy::new();
    assert_eq!(galaxy.add_star(star("Sol", 5, 5, &[]), 1), Ok(()));
    assert_eq!(galaxy.star_matrix[(5, 5)], 1);
    assert_eq!(
        galaxy.add_star(star("Vega", 5, 5, &[]), 2),
        Err("Star already exists at location")
    );
    assert_eq!(galaxy.stars.len(), 1);
    assert_eq!(galaxy.star_matrix[(5, 5)], 1);
    assert_eq!(galaxy.add_star(star("Vega", 5, 6, &[]), 2), Ok(()));
    assert_eq!(galaxy.stars.len(), 2);
    assert_eq!(galaxy.stars[1].name, "Vega");
    assert_eq!(galaxy.get_star_index(&galaxy.stars[1]), 2);
}

#[test]
fn place_of_star_number_zero_counts_as_free() {
    let mut galaxy = Galaxy::new();
    assert_eq!(galaxy.add_star(star("Sol", 5, 5, &[]), 0), Ok(()));
    assert_eq!(galaxy.add_star(star("Vega", 5, 5, &[]), 1), Ok(()));
    assert_eq!(galaxy.stars.len(), 2);
    assert_eq!(galaxy.star_matrix[(5, 5)], 1);
    assert!(galaxy.add_star(star("Rigel", 5, 5, &[]), 2).is_err());
}

#[test]
fn stars_and_planets_are_found_by_location() {
    let mut galaxy = small_galaxy();
    assert_eq!(galaxy.get_star_from_loc((2, 2)).name, "Vega");
    assert_eq!(galaxy.get_star_from_loc((7, 7)).name, "Zero");
    galaxy.get_star_from_loc((1, 1)).name = "Sun".to_string();
    assert_eq!(galaxy.stars[1].name, "Sun");
    assert_eq!(galaxy.get_planet_from_loc((3, 3, 2)).name, "Rigel-2");
    galaxy.get_planet_from_loc((3, 3, 1)).habitable = false;
    assert!(!galaxy.stars[3].planets[1].habitable);
    assert!(galaxy.stars[3].planets[2].habitable);
}

#[test]
fn star_is_found_by_name() {
    let mut galaxy = small_galaxy();
    galaxy.add_star(star("Vega", 9, 9, &[]), 4).unwrap();
    assert_eq!(galaxy.get_star_by_name("Vega").unwrap().location, (2, 2));
    assert_eq!(galaxy.get_star_by_name("Rigel").unwrap().location, (3, 3));
    assert!(galaxy.get_star_by_name("Altair").is_none());
    assert!(galaxy.get_star_by_name("vega").is_none());
}

#[test]
fn rows_are_sorted_nearest_first_and_ties_keep_their_order() {
    let row = vec![(1, 30), (2, 10), (3, 30), (4, 10), (5, 20), (6, 0)];
    assert_eq!(
        sort_by_distance(&row),
        vec![(6, 0), (2, 10), (4, 10), (5, 20), (1, 30), (3, 30)]
    );
    assert_eq!(sort_by_distance(&vec![]), vec![]);
    assert_eq!(sort_by_distance(&vec![(9, 9)]), vec![(9, 9)]);
    let mut expected = row.clone();
    expected.sort_by(|a, b| a.1.partial_cmp(&b.1).unwrap());
    assert_eq!(sort_by_distance(&row), expected);
}

#[test]
fn distances_are_recorded_for_every_star() {
    let mut galaxy = small_galaxy();
    let table = vec![
        vec![0, 1, 2, 4],
        vec![1, 0, 1, 2],
        vec![2, 1, 0, 1],
        vec![4, 2, 1, 0],
    ];
    galaxy.calculcate_all_distances(&table);
    assert_eq!(galaxy.distances.len(), 4);
    assert_eq!(galaxy.distances[&0], vec![(1, 1), (2, 2), (3, 4)]);
    assert_eq!(galaxy.distances[&1], vec![(0, 1), (2, 1), (3, 2)]);
    assert_eq!(galaxy.distances[&2], vec![(1, 1), (3, 1), (0, 2)]);
    assert_eq!(galaxy.distances[&3], vec![(2, 1), (1, 2), (0, 4)]);
}

#[test]
fn stars_called_alike_are_left_out_of_each_other_s_rows() {
    let mut galaxy = Galaxy::new();
    galaxy.add_star(star("Zero", 0, 0, &[]), 0).unwrap();
    galaxy.add_star(star("Twin", 1, 1, &[]), 1).unwrap();
    galaxy.add_star(star("Twin", 2, 2, &[]), 2).unwrap();
    let table = vec![vec![0, 5, 3], vec![5, 0, 1], vec![3, 1, 0]];
    galaxy.calculcate_all_distances(&table);
    assert_eq!(galaxy.distances[&0], vec![(2, 3), (1, 5)]);
    assert_eq!(galaxy.distances[&1], vec![(0, 5)]);
    assert_eq!(galaxy.distances[&2], vec![(0, 3)]);
}

#[test]
fn stars_within_range_come_nearest_first() {
    let mut galaxy = small_galaxy();
    let table = vec![
        vec![0, 1, 2, 4],
        vec![1, 0, 1, 2],
        vec![2, 1, 0, 1],
        vec![4, 2, 1, 0],
    ];
    galaxy.calculcate_all_distances(&table);
    let names = |stars: Vec<&Star>| -> Vec<String> {
        stars.iter().map(|star| star.name.clone()).collect()
    };
    let rigel = &galaxy.stars[3];
    assert_eq!(
        names(galaxy.get_stars_within_range(rigel, 2)),
        vec!["Vega", "Sol"]
    );
    assert_eq!(names(galaxy.get_stars_within_range(rigel, 0)), Vec::<String>::new());
    assert_eq!(
        names(galaxy.get_stars_within_range(rigel, 4)),
        vec!["Vega", "Sol", "Zero"]
    );
    assert_eq!(
        names(galaxy.get_stars_within_range(&galaxy.stars[2], 1)),
        vec!["Sol", "Rigel"]
    );
}

#[test]
fn game_starts_before_its_first_turn() {
    let game = Game::new(vec!["Ann", "Bob"], small_galaxy());
    assert_eq!(game.turn, 0);
    assert!(!game.game_over);
    assert_eq!(game.players.len(), 2);
    assert_eq!(game.players[0].name, "Ann");
    assert_eq!(game.players[1].name, "Bob");
    assert_eq!(game.galaxy.stars.len(), 4);
    assert_eq!(game.get_player("Bob").name, "Bob");
    assert_eq!(game.get_player("Ann").name, "Ann");
}

#[test]
fn landing_brings_a_colony_and_a_probe() {
    let mut game = Game::new(vec!["Ann", "Bob"], small_galaxy());
    game.land(1, (3, 3, 1));
    let units = &game.galaxy.stars[3].planets[1].units;
    assert_eq!(units.len(), 2);
    assert_eq!(units[0].unit_type, UnitType::Colony);
    assert_eq!(units[0].player, "Bob");
    assert_eq!(units[0].sight_range, 5);
    assert_eq!(units[1].unit_type, UnitType::Probe);
    assert_eq!(units[1].player, "Bob");
    assert_eq!(units[1].sight_range, 15);
    assert!(game.galaxy.stars[3].planets[0].units.is_empty());
    assert!(game.galaxy.stars[1].planets[0].units.is_empty());
    game.land(0, (3, 3, 1));
    let units = &game.galaxy.stars[3].planets[1].units;
    assert_eq!(units.len(), 4);
    assert_eq!(units[1].player, "Bob");
    assert_eq!(units[2].player, "Ann");
    assert_eq!(units[2].unit_type, UnitType::Colony);
    assert_eq!(units[3].unit_type, UnitType::Probe);
}

#[test]
fn units_of_a_player_come_with_their_locations() {
    let mut game = Game::new(vec!["Ann", "Bob"], small_galaxy());
    game.land(0, (3, 3, 2));
    game.land(1, (1, 1, 0));
    game.land(0, (1, 1, 0));
    let ann = Player {
        name: "Ann".to_string(),
    };
    let units = game.get_players_units(&ann);
    let seen: Vec<(UnitType, (usize, usize, usize))> = units
        .iter()
        .map(|(unit, location)| (unit.unit_type, *location))
        .collect();
    assert_eq!(
        seen,
        vec![
            (UnitType::Colony, (1, 1, 0)),
            (UnitType::Probe, (1, 1, 0)),
            (UnitType::Colony, (3, 3, 2)),
            (UnitType::Probe, (3, 3, 2)),
        ]
    );
    assert!(units.iter().all(|(unit, _)| unit.player == "Ann"));
    let nobody = Player {
        name: "Eve".to_string(),
    };
    assert!(game.get_players_units(&nobody).is_empty());
}

#[test]
fn stars_of_a_player_are_named_once_for_each_held_planet() {
    let mut game = Game::new(vec!["Ann", "Bob"], small_galaxy());
    game.land(0, (3, 3, 0));
    game.land(0, (3, 3, 2));
    game.land(1, (3, 3, 2));
    game.land(0, (1, 1, 1));
    let names = |stars: Vec<&Star>| -> Vec<String> {
        stars.iter().map(|star| star.name.clone()).collect()
    };
    assert_eq!(
        names(game.get_players_stars("Ann")),
        vec!["Sol", "Rigel", "Rigel"]
    );
    assert_eq!(names(game.get_players_stars("Bob")), vec!["Rigel"]);
    assert!(game.get_players_stars("Eve").is_empty());
}

#[test]
fn visible_stars_follow_the_sight_of_each_unit() {
    let mut galaxy = small_galaxy();
    let table = vec![
        vec![0, 3, 6, 20],
        vec![3, 0, 4, 16],
        vec![6, 4, 0, 9],
        vec![20, 16, 9, 0],
    ];
    galaxy.calculcate_all_distances(&table);
    let mut game = Game::new(vec!["Ann"], galaxy);
    game.land(0, (2, 2, 0));
    let ann = Player {
        name: "Ann".to_string(),
    };
    let names: Vec<String> = game
        .get_player_visible_stars(&ann)
        .iter()
        .map(|star| star.name.clone())
        .collect();
    assert_eq!(names, vec!["Sol", "Sol", "Zero", "Rigel"]);
}

#[test]
fn free_habitable_planet_is_picked_by_the_rolls() {
    let mut galaxy = small_galaxy();
    galaxy.total_stars = 4;
    let mut game = Game::new(vec!["Ann"], galaxy);
    assert_eq!(game.unoccupied_habitable_planet(0, 0), None);
    assert_eq!(game.unoccupied_habitable_planet(1, 0), Some((1, 1, 0)));
    assert_eq!(game.unoccupied_habitable_planet(1, 1), None);
    assert_eq!(game.unoccupied_habitable_planet(5, 2), Some((1, 1, 0)));
    assert_eq!(game.unoccupied_habitable_planet(3, 0), None);
    assert_eq!(game.unoccupied_habitable_planet(3, 4), Some((3, 3, 1)));
    assert_eq!(game.unoccupied_habitable_planet(7, 5), Some((3, 3, 2)));
    game.land(0, (3, 3, 2));
    assert_eq!(game.unoccupied_habitable_planet(7, 5), None);
    game.galaxy.total_stars = 2;
    assert_eq!(game.unoccupied_habitable_planet(3, 0), Some((1, 1, 0)));
}

#[test]
fn random_planet_is_free_and_habitable() {
    let mut galaxy = small_galaxy();
    galaxy.total_stars = 4;
    let mut game = Game::new(vec!["Ann"], galaxy);
    game.land(0, (2, 2, 0));
    let free = [(1, 1, 0), (3, 3, 1), (3, 3, 2)];
    let mut hits = 0;
    for _ in 0..400 {
        if let Some(spot) = game.random_unoccupied_habitable_planet() {
            assert!(free.contains(&spot));
            hits += 1;
        }
    }
    assert!(hits > 0);
}

#[test]
fn a_place_takes_one_star() {
    let mut placement = Placement::new(3);
    assert_eq!(placement.star_count(), 0);
    assert!(!placement.is_complete());
    assert!(placement.offer(1, 2));
    assert!(!placement.offer(1, 2));
    assert!(placement.offer(2, 1));
    assert!(placement.is_used(1, 2));
    assert!(placement.is_used(2, 1));
    assert!(!placement.is_used(0, 0));
    assert!(!placement.is_used(1, 1));
    assert_eq!(placement.star_count(), 2);
    assert!(placement.offer(u32::MAX, u32::MAX));
    assert!(!placement.is_used(u32::MAX, 0));
    assert!(placement.is_complete());
    assert_eq!(placement.star_count(), 3);
}

#[test]
fn random_places_fill_a_small_galaxy() {
    let mut placement = Placement::new(4);
    let mut placed = Vec::new();
    let mut tries = 0;
    while !placement.is_complete() {
        tries += 1;
        assert!(tries < 100_000);
        if let Some((x, y)) = placement.random_place(2) {
            assert!(x < 2 && y < 2);
            assert!(!placed.contains(&(x, y)));
            placed.push((x, y));
        }
    }
    assert_eq!(placed.len(), 4);
    assert_eq!(placement.star_count(), 4);
    for x in 0..2 {
        for y in 0..2 {
            assert!(placement.is_used(x, y));
        }
    }
}

#[test]
fn completed_placement_of_nothing() {
    let placement = Placement::new(0);
    assert!(placement.is_complete());
}

#[test]
fn places_without_a_star_are_told() {
    let mut galaxy = small_galaxy();
    assert!(galaxy.has_star_at(2, 2));
    assert!(galaxy.has_star_at(50, 50));
    assert!(!galaxy.has_star_at(100, 0));
    assert!(!galaxy.has_star_at(0, 100));
    galaxy.star_matrix[(9, 9)] = 4;
    assert!(!galaxy.has_star_at(9, 9));
    assert!(galaxy.star_at((9, 9)).is_none());
    assert!(galaxy.star_at((100, 100)).is_none());
    assert_eq!(galaxy.star_at((3, 3)).unwrap().name, "Rigel");
    assert!(galaxy.has_planet_at((3, 3, 2)));
    assert!(!galaxy.has_planet_at((3, 3, 3)));
    assert!(!galaxy.has_planet_at((0, 0, 0)));
    assert!(!galaxy.has_planet_at((9, 9, 0)));
    assert!(!galaxy.has_planet_at((100, 3, 0)));
}

#[test]
fn uncharted_places_are_told() {
    let mut galaxy = small_galaxy();
    assert!(!galaxy.is_charted(1, 1));
    assert!(!galaxy.can_watch((1, 1, 0)));
    assert!(galaxy
        .stars_within_range(&galaxy.stars[1], 9)
        .is_none());
    let table = vec![
        vec![0, 1, 2, 4],
        vec![1, 0, 1, 2],
        vec![2, 1, 0, 1],
        vec![4, 2, 1, 0],
    ];
    galaxy.calculcate_all_distances(&table);
    assert!(galaxy.is_charted(1, 1));
    assert!(galaxy.is_charted(60, 60));
    assert!(!galaxy.is_charted(100, 1));
    assert!(galaxy.can_watch((1, 1, 7)));
    assert!(!galaxy.can_watch((1, 100, 0)));
    let near = galaxy.stars_within_range(&galaxy.stars[1], 1).unwrap();
    assert_eq!(near.len(), 2);
    assert_eq!(near[0].name, "Zero");
    assert_eq!(near[1].name, "Vega");
    galaxy.distances.insert(2, vec![(9, 1)]);
    assert!(!galaxy.is_charted(2, 2));
    assert!(galaxy.stars_within_range(&galaxy.stars[2], 5).is_none());
}

#[test]
fn landing_is_refused_where_there_is_no_planet() {
    let mut game = Game::new(vec!["Ann"], small_galaxy());
    assert!(!game.try_land(1, (1, 1, 0)));
    assert!(!game.try_land(0, (1, 1, 2)));
    assert!(!game.try_land(0, (0, 0, 0)));
    assert!(!game.try_land(0, (100, 1, 0)));
    assert!(game
        .galaxy
        .stars
        .iter()
        .all(|star| star.planets.iter().all(|planet| planet.units.is_empty())));
    assert!(game.try_land(0, (1, 1, 1)));
    assert_eq!(game.galaxy.stars[1].planets[1].units.len(), 2);
}
