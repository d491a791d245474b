//! The game: a galaxy, the players, and what belongs to whom.

use crate::chance::roll_usize;
use crate::galaxy::in_range;
use crate::galaxy::shown;
use crate::galaxy::Galaxy;
use crate::galaxy::Planet;
use crate::galaxy::Star;
use crate::grid::at;
use crate::text::same_text;
use crate::units::Unit;
use crate::units::UnitType;
use vstd::prelude::*;

verus! {

/// A player.
#[derive(Debug)]
pub struct Player {
    pub name: String,
}

/// A game in progress.
#[derive(Debug)]
pub struct Game {
    pub galaxy: Galaxy,
    pub players: Vec<Player>,
    pub turn: u32,
    pub game_over: bool,
}

/// The units among the first `upto` of `planet` that belong to the player
/// called `player`, each with the planet's location.
pub open spec fn planet_units(planet: Planet, player: Seq<char>, upto: nat) -> Seq<
    (Unit, (usize, usize, usize)),
>
    decreases upto,
{
    if upto == 0 {
        Seq::empty()
    } else {
        let before = planet_units(planet, player, (upto - 1) as nat);
        let unit = planet.units@[upto - 1];
        if unit.player@ == player {
            before.push((unit, planet.location))
        } else {
            before
        }
    }
}

/// The player's units on the first `upto` planets of `star`, planet by
/// planet.
pub open spec fn star_units(star: Star, player: Seq<char>, upto: nat) -> Seq<
    (Unit, (usize, usize, usize)),
>
    decreases upto,
{
    if upto == 0 {
        Seq::empty()
    } else {
        let planet = star.planets@[upto - 1];
        star_units(star, player, (upto - 1) as nat) + planet_units(
            planet,
            player,
            planet.units@.len(),
        )
    }
}

/// The player's units at the first `upto` stars of `stars`, star by star.
pub open spec fn galaxy_units(stars: Seq<Star>, player: Seq<char>, upto: nat) -> Seq<
    (Unit, (usize, usize, usize)),
>
    decreases upto,
{
    if upto == 0 {
        Seq::empty()
    } else {
        let star = stars[upto - 1];
        galaxy_units(stars, player, (upto - 1) as nat) + star_units(
            star,
            player,
            star.planets@.len(),
        )
    }
}

/// The units that the references of `list` point at, with their locations.
pub open spec fn listed(list: Seq<(&Unit, (usize, usize, usize))>) -> Seq<
    (Unit, (usize, usize, usize)),
> {
    Seq::new(list.len(), |i: int| (*list[i].0, list[i].1))
}

/// Whether the player called `player` has a unit on `planet`.
pub open spec fn planet_held(planet: Planet, player: Seq<char>) -> bool {
    exists|k: int| 0 <= k < planet.units@.len() && (#[trigger] planet.units@[k]).player@ == player
}

/// `star`, once for each of its first `upto` planets that the player has a
/// unit on.
pub open spec fn star_mentions(star: Star, player: Seq<char>, upto: nat) -> Seq<Star>
    decreases upto,
{
    if upto == 0 {
        Seq::empty()
    } else {
        let before = star_mentions(star, player, (upto - 1) as nat);
        if planet_held(star.planets@[upto - 1], player) {
            before.push(star)
        } else {
            before
        }
    }
}

/// The first `upto` stars of `stars`, each once for each of its planets
/// that the player has a unit on.
pub open spec fn galaxy_mentions(stars: Seq<Star>, player: Seq<char>, upto: nat) -> Seq<Star>
    decreases upto,
{
    if upto == 0 {
        Seq::empty()
    } else {
        let star = stars[upto - 1];
        galaxy_mentions(stars, player, (upto - 1) as nat) + star_mentions(
            star,
            player,
            star.planets@.len(),
        )
    }
}

/// The planet that the rolls `star_roll` and `planet_roll` pick among the
/// first `total` stars, if it is habitable and no unit is on it: the place
/// of its star and its own number.
pub open spec fn free_spot(stars: Seq<Star>, total: usize, star_roll: usize, planet_roll: usize) -> Option<
    (usize, usize, usize),
> {
    let star = stars[star_roll as int % total as int];
    if star.planets@.len() == 0 {
        None
    } else {
        let planet = star.planets@[planet_roll as int % star.planets@.len() as int];
        if planet.units@.len() == 0 && planet.habitable {
            Some((star.location.0, star.location.1, planet.location.2))
        } else {
            None
        }
    }
}

/// The stars seen from the first `upto` of `entries`: for each unit in turn,
/// the stars within its sight range of the star that its location leads to.
pub open spec fn seen(galaxy: Galaxy, entries: Seq<(Unit, (usize, usize, usize))>, upto: nat) -> Seq<
    Star,
>
    decreases upto,
{
    if upto == 0 {
        Seq::empty()
    } else {
        let unit = entries[upto - 1].0;
        let location = entries[upto - 1].1;
        let star = galaxy.stars@[galaxy.number_at(location.0, location.1) as int];
        let row = galaxy.row_at(star.location.0, star.location.1);
        seen(galaxy, entries, (upto - 1) as nat) + in_range(
            galaxy.stars@,
            row,
            unit.sight_range,
            row.len(),
        )
    }
}

impl Game {
    /// A game in `galaxy` for the players called `players`, before its
    /// first turn.
    pub fn new(players: Vec<&str>, galaxy: Galaxy) -> (game: Self)
        ensures
            game.galaxy == galaxy,
            game.turn == 0,
            !game.game_over,
            game.players@.len() == players@.len(),
            forall|i: int|
                0 <= i < players@.len() ==> (#[trigger] game.players@[i]).name@ == players@[i]@,
    {
        let mut list: Vec<Player> = Vec::new();
        let mut i: usize = 0;
        while i < players.len()
            invariant
                i <= players@.len(),
                list@.len() == i,
                forall|j: int| 0 <= j < i ==> (#[trigger] list@[j]).name@ == players@[j]@,
            decreases players@.len() - i,
        {
            list.push(Player { name: players[i].to_owned() });
            i += 1;
        }
        Game { galaxy, players: list, turn: 0, game_over: false }
    }

    /// Whether a player is called `name`.
    pub open spec fn has_player(&self, name: Seq<char>) -> bool {
        exists|i: int| 0 <= i < self.players@.len() && (#[trigger] self.players@[i]).name@ == name
    }

    /// The first player called `name`, who must exist.
    pub fn get_player(&self, name: &str) -> (player: &Player)
        requires
            self.has_player(name@),
        ensures
            player.name@ == name@,
            exists|i: int|
                {
                    &&& 0 <= i < self.players@.len()
                    &&& *player == self.players@[i]
                    &&& forall|j: int| 0 <= j < i ==> self.players@[j].name@ != name@
                },
    {
        let mut i: usize = 0;
        while i < self.players.len()
            invariant
                i <= self.players@.len(),
                self.has_player(name@),
                forall|j: int| 0 <= j < i ==> self.players@[j].name@ != name@,
            ensures
                i < self.players@.len(),
                self.players@[i as int].name@ == name@,
                forall|j: int| 0 <= j < i ==> self.players@[j].name@ != name@,
            decreases self.players@.len() - i,
        {
            if same_text(self.players[i].name.as_str(), name) {
                break ;
            }
            i += 1;
        }
        &self.players[i]
    }

    /// The units of `player` with the locations of their planets, in the
    /// order of stars, planets and units.
    pub fn get_players_units(&self, player: &Player) -> (units: Vec<(&Unit, (usize, usize, usize))>)
        ensures
            listed(units@) == galaxy_units(self.galaxy.stars@, player.name@, self.galaxy.stars@.len()),
    {
        let mut units: Vec<(&Unit, (usize, usize, usize))> = Vec::new();
        let ghost stars = self.galaxy.stars@;
        let ghost name = player.name@;
        assert(listed(units@) =~= Seq::empty());
        let mut i: usize = 0;
        while i < self.galaxy.stars.len()
            invariant
                stars == self.galaxy.stars@,
                name == player.name@,
                i <= stars.len(),
                listed(units@) == galaxy_units(stars, name, i as nat),
            decreases stars.len() - i,
        {
            let star = &self.galaxy.stars[i];
            let ghost done = listed(units@);
            let mut j: usize = 0;
            assert(done + star_units(*star, name, 0) =~= done);
            while j < star.planets.len()
                invariant
                    name == player.name@,
                    j <= star.planets@.len(),
                    listed(units@) == done + star_units(*star, name, j as nat),
                decreases star.planets@.len() - j,
            {
                let planet = &star.planets[j];
                let ghost sofar = listed(units@);
                let mut k: usize = 0;
                assert(sofar + planet_units(*planet, name, 0) =~= sofar);
                while k < planet.units.len()
                    invariant
                        name == player.name@,
                        k <= planet.units@.len(),
                        listed(units@) == sofar + planet_units(*planet, name, k as nat),
                    decreases planet.units@.len() - k,
                {
                    let unit = &planet.units[k];
                    if unit.player == player.name {
                        let ghost before = listed(units@);
                        units.push((unit, planet.location));
                        assert(listed(units@) =~= before.push((*unit, planet.location)));
                        assert(listed(units@) =~= sofar + planet_units(*planet, name, (k + 1) as nat));
                    }
                    k += 1;
                }
                assert(listed(units@) =~= done + star_units(*star, name, (j + 1) as nat));
                j += 1;
            }
            i += 1;
        }
        units
    }

    /// The stars where the player called `player` has units: each star
    /// once for each of its planets that holds a unit of the player, in the
    /// order of stars and planets.
    pub fn get_players_stars(&self, player: &str) -> (stars: Vec<&Star>)
        ensures
            shown(stars@) == galaxy_mentions(self.galaxy.stars@, player@, self.galaxy.stars@.len()),
    {
        let mut stars: Vec<&Star> = Vec::new();
        let ghost all = self.galaxy.stars@;
        assert(shown(stars@) =~= Seq::empty());
        let mut i: usize = 0;
        while i < self.galaxy.stars.len()
            invariant
                all == self.galaxy.stars@,
                i <= all.len(),
                shown(stars@) == galaxy_mentions(all, player@, i as nat),
            decreases all.len() - i,
        {
            let star = &self.galaxy.stars[i];
            let ghost done = shown(stars@);
            assert(done + star_mentions(*star, player@, 0) =~= done);
            let mut j: usize = 0;
            while j < star.planets.len()
                invariant
                    j <= star.planets@.len(),
                    shown(stars@) == done + star_mentions(*star, player@, j as nat),
                decreases star.planets@.len() - j,
            {
                let planet = &star.planets[j];
                let mut k: usize = 0;
                let mut held = false;
                while k < planet.units.len() && !held
                    invariant
                        k <= planet.units@.len(),
                        forall|u: int| 0 <= u < k ==> (#[trigger] planet.units@[u]).player@ != player@,
                        held ==> k < planet.units@.len() && planet.units@[k as int].player@ == player@,
                    decreases planet.units@.len() - k + (if held {
                        0int
                    } else {
                        1int
                    }),
                {
                    if same_text(planet.units[k].player.as_str(), player) {
                        held = true;
                    } else {
                        k += 1;
                    }
                }
                assert(held == planet_held(*planet, player@));
                if held {
                    let ghost before = shown(stars@);
                    stars.push(star);
                    assert(shown(stars@) =~= before.push(*star));
                }
                assert(shown(stars@) =~= done + star_mentions(*star, player@, (j + 1) as nat));
                j += 1;
            }
            i += 1;
        }
        stars
    }

    /// The stars that the units of `player` see: for each unit in turn, the
    /// stars within its sight range of the star that it is at, nearest
    /// first.
    pub fn get_player_visible_stars(&self, player: &Player) -> (stars: Vec<&Star>)
        requires
            forall|i: int|
                0 <= i < galaxy_units(
                    self.galaxy.stars@,
                    player.name@,
                    self.galaxy.stars@.len(),
                ).len() ==> self.galaxy.watchable(
                    (#[trigger] galaxy_units(
                        self.galaxy.stars@,
                        player.name@,
                        self.galaxy.stars@.len(),
                    )[i]).1,
                ),
        ensures
            shown(stars@) == seen(
                self.galaxy,
                galaxy_units(self.galaxy.stars@, player.name@, self.galaxy.stars@.len()),
                galaxy_units(self.galaxy.stars@, player.name@, self.galaxy.stars@.len()).len(),
            ),
    {
        let units = self.get_players_units(player);
        let ghost entries = listed(units@);
        let mut stars: Vec<&Star> = Vec::new();
        assert(shown(stars@) =~= Seq::empty());
        let mut i: usize = 0;
        while i < units.len()
            invariant
                entries == listed(units@),
                i <= units@.len(),
                forall|j: int|
                    0 <= j < entries.len() ==> self.galaxy.watchable((#[trigger] entries[j]).1),
                shown(stars@) == seen(self.galaxy, entries, i as nat),
            decreases units@.len() - i,
        {
            let unit = units[i].0;
            let loc = units[i].1;
            assert(entries[i as int] == (*unit, loc));
            let index = at(&self.galaxy.star_matrix, loc.0, loc.1);
            let star = &self.galaxy.stars[index];
            let within = self.galaxy.get_stars_within_range(star, unit.sight_range);
            let ghost done = shown(stars@);
            let mut k: usize = 0;
            assert(done + shown(within@).take(0) =~= done);
            while k < within.len()
                invariant
                    k <= within@.len(),
                    shown(stars@) == done + shown(within@).take(k as int),
                decreases within@.len() - k,
            {
                let ghost before = shown(stars@);
                stars.push(within[k]);
                assert(shown(stars@) =~= before.push(*within@[k as int]));
                assert(shown(within@).take(k + 1) =~= shown(within@).take(k as int).push(
                    *within@[k as int],
                ));
                k += 1;
            }
            assert(shown(within@).take(within@.len() as int) =~= shown(within@));
            i += 1;
        }
        stars
    }

    /// Whether this game is the game `before` after player number `player`
    /// has landed on the planet at `location`: a new colony and a new probe
    /// of the player have joined the planet's units, in this order, and
    /// nothing else has changed.
    pub open spec fn landed(self, before: Game, player: usize, location: (usize, usize, usize)) -> bool {
        let index = before.galaxy.number_at(location.0, location.1) as int;
        let earlier = before.galaxy.stars@[index];
        let later = self.galaxy.stars@[index];
        let name = before.players@[player as int].name@;
        let units = earlier.planets@[location.2 as int].units@;
        let planet = later.planets@[location.2 as int];
        &&& self.players == before.players
        &&& self.turn == before.turn
        &&& self.game_over == before.game_over
        &&& self.galaxy.dimensions == before.galaxy.dimensions
        &&& self.galaxy.star_matrix == before.galaxy.star_matrix
        &&& self.galaxy.distances == before.galaxy.distances
        &&& self.galaxy.total_stars == before.galaxy.total_stars
        &&& self.galaxy.stars@.len() == before.galaxy.stars@.len()
        &&& forall|i: int|
            0 <= i < before.galaxy.stars@.len() && i != index ==> self.galaxy.stars@[i]
                == before.galaxy.stars@[i]
        &&& later.name == earlier.name
        &&& later.location == earlier.location
        &&& later.planets@.len() == earlier.planets@.len()
        &&& forall|z: int|
            0 <= z < earlier.planets@.len() && z != location.2 ==> later.planets@[z]
                == earlier.planets@[z]
        &&& planet.name == earlier.planets@[location.2 as int].name
        &&& planet.location == earlier.planets@[location.2 as int].location
        &&& planet.habitable == earlier.planets@[location.2 as int].habitable
        &&& planet.units@.len() == units.len() + 2
        &&& planet.units@.take(units.len() as int) == units
        &&& planet.units@[units.len() as int].is_new(name, UnitType::Colony)
        &&& planet.units@[units.len() as int + 1].is_new(name, UnitType::Probe)
    }

    /// Lands player number `player` on the planet at `location`, if there is
    /// such a player and such a planet, and says whether it did. Otherwise
    /// the game is left as it was.
    pub fn try_land(&mut self, player: usize, location: (usize, usize, usize)) -> (done: bool)
        ensures
            done == (player < old(self).players@.len() && old(self).galaxy.names_planet(location)),
            done ==> final(self).landed(*old(self), player, location),
            !done ==> *final(self) == *old(self),
    {
        if player < self.players.len() && self.galaxy.has_planet_at(location) {
            self.land(player, location);
            true
        } else {
            false
        }
    }

    /// Lands player number `player` on the planet at `location`: a new
    /// colony and a new probe of the player join the planet's units, in
    /// this order. Nothing else changes.
    pub fn land(&mut self, player: usize, location: (usize, usize, usize))
        requires
            player < old(self).players@.len(),
            old(self).galaxy.names_planet(location),
        ensures
            final(self).landed(*old(self), player, location),
    {
        let colonist = Unit::new(self.players[player].name.clone(), UnitType::Colony);
        let probe = Unit::new(self.players[player].name.clone(), UnitType::Probe);
        let planet = self.galaxy.get_planet_from_loc(location);
        let ghost units = planet.units@;
        planet.units.push(colonist);
        planet.units.push(probe);
        assert(planet.units@.take(units.len() as int) =~= units);
    }

    /// Tries the planet that two rolls pick among the first `total_stars`
    /// stars: its location, if it is habitable and free of units. A star
    /// without planets is given up without a second roll.
    pub fn random_unoccupied_habitable_planet(&self) -> (spot: Option<(usize, usize, usize)>)
        requires
            0 < self.galaxy.total_stars <= self.galaxy.stars@.len(),
        ensures
            exists|star_roll: usize, planet_roll: usize|
                spot == free_spot(
                    self.galaxy.stars@,
                    self.galaxy.total_stars,
                    star_roll,
                    planet_roll,
                ),
    {
        let star_roll = roll_usize();
        let star = &self.galaxy.stars[star_roll % self.galaxy.total_stars];
        if star.planets.len() == 0 {
            assert(free_spot(self.galaxy.stars@, self.galaxy.total_stars, star_roll, 0) is None);
            return None;
        }
        let planet_roll = roll_usize();
        let spot = self.unoccupied_habitable_planet(star_roll, planet_roll);
        spot
    }

    /// The location of the planet that the rolls `star_roll` and
    /// `planet_roll` pick among the first `total_stars` stars, if it is
    /// habitable and free of units.
    pub fn unoccupied_habitable_planet(&self, star_roll: usize, planet_roll: usize) -> (spot: Option<
        (usize, usize, usize),
    >)
        requires
            0 < self.galaxy.total_stars <= self.galaxy.stars@.len(),
        ensures
            spot == free_spot(self.galaxy.stars@, self.galaxy.total_stars, star_roll, planet_roll),
    {
        let star = &self.galaxy.stars[star_roll % self.galaxy.total_stars];
        if star.planets.len() == 0 {
            return None;
        }
        let planet = &star.planets[planet_roll % star.planets.len()];
        if planet.units.len() == 0 && planet.habitable {
            Some((star.location.0, star.location.1, planet.location.2))
        } else {
            None
        }
    }
}

} // verus!
