//! The galaxy: stars with their planets on a grid of places, and the
//! distances between the stars.

use crate::chance::roll_bool;
use crate::chance::roll_usize;
use crate::grid::at;
use crate::grid::cells;
use crate::grid::put;
use crate::grid::zeros;
use crate::grid::Grid;
use crate::grid::SIDE;
use crate::distances::sort_by_distance;
use crate::distances::sorted;
use crate::text::decimal;
use crate::text::push_char;
use crate::text::push_decimal;
use crate::text::same_text;
use crate::units::Unit;
use std::collections::HashMap;
use vstd::prelude::*;

verus! {

broadcast use vstd::std_specs::hash::group_hash_axioms;

/// A planet: the third coordinate of its location numbers it among the
/// planets of its star.
#[derive(Debug)]
pub struct Planet {
    pub name: String,
    pub location: (usize, usize, usize),
    pub habitable: bool,
    pub units: Vec<Unit>,
}

/// A star and its planets.
#[derive(Debug)]
pub struct Star {
    pub name: String,
    pub planets: Vec<Planet>,
    pub location: (usize, usize),
}

/// The galaxy.
///
/// `star_matrix` holds at each place the number of the star that was put
/// there, and 0 where none was. `distances` holds for a star's number the
/// other stars with their distances, nearest first.
#[derive(Debug)]
pub struct Galaxy {
    pub dimensions: (usize, usize),
    pub stars: Vec<Star>,
    pub star_matrix: Grid,
    pub distances: HashMap<usize, Vec<(usize, u32)>>,
    pub total_stars: usize,
}

/// One place in ten holds a star.
pub const SCALE_FACTOR: usize = 10;

/// A star has fewer planets than this.
pub const PLANET_BOUND: usize = 10;

/// The message of [`Galaxy::add_star`] for a place that is taken.
pub open spec fn taken_message() -> Seq<char> {
    "Star already exists at location"@
}

/// The name of planet number `number` of the star `star`: the star's name,
/// a hyphen, and the number in decimal.
pub open spec fn planet_name(star: Seq<char>, number: nat) -> Seq<char> {
    star + seq!['-'] + decimal(number)
}

/// The distances from star `from` to the stars that are not called as it
/// is, each with the number that the grid `places` holds at its place, in
/// the order of the stars; `distances[j]` is the distance to star `j`. The
/// first `upto` stars are looked at.
pub open spec fn row_for(
    stars: Seq<Star>,
    places: Map<(int, int), usize>,
    from: int,
    distances: Seq<u32>,
    upto: nat,
) -> Seq<(usize, u32)>
    decreases upto,
{
    if upto == 0 {
        Seq::empty()
    } else {
        let before = row_for(stars, places, from, distances, (upto - 1) as nat);
        let other = stars[upto - 1];
        if other.name@ == stars[from].name@ {
            before
        } else {
            before.push(
                (places[(other.location.0 as int, other.location.1 as int)], distances[upto - 1]),
            )
        }
    }
}

/// The stars of `row` that are no farther than `range`, in the order of the
/// row. The first `upto` entries are looked at.
pub open spec fn in_range(stars: Seq<Star>, row: Seq<(usize, u32)>, range: u32, upto: nat) -> Seq<
    Star,
>
    decreases upto,
{
    if upto == 0 {
        Seq::empty()
    } else {
        let before = in_range(stars, row, range, (upto - 1) as nat);
        if row[upto - 1].1 <= range {
            before.push(stars[row[upto - 1].0 as int])
        } else {
            before
        }
    }
}

/// The stars that the references of `list` point at.
pub open spec fn shown(list: Seq<&Star>) -> Seq<Star> {
    Seq::new(list.len(), |i: int| *list[i])
}

impl Star {
    /// Whether the star is as it is built: planet number `z` is called
    /// after the star and `z`, lies at the star's place with `z` as third
    /// coordinate, and has no units.
    pub open spec fn newly_built(&self) -> bool {
        forall|z: int|
            0 <= z < self.planets@.len() ==> {
                let planet = #[trigger] self.planets@[z];
                &&& planet.name@ == planet_name(self.name@, z as nat)
                &&& planet.location == (self.location.0, self.location.1, z as usize)
                &&& planet.units@.len() == 0
            }
    }

    /// A star called `name` at the place `(x, y)`, with one planet for each
    /// entry of `habitable`, habitable as the entry says.
    pub fn build(name: String, x: usize, y: usize, habitable: &Vec<bool>) -> (star: Star)
        ensures
            star.name == name,
            star.location == (x, y),
            star.planets@.len() == habitable@.len(),
            forall|z: int|
                0 <= z < habitable@.len() ==> (#[trigger] star.planets@[z]).habitable
                    == habitable@[z],
            star.newly_built(),
    {
        let mut planets: Vec<Planet> = Vec::new();
        let mut z: usize = 0;
        while z < habitable.len()
            invariant
                z <= habitable@.len(),
                planets@.len() == z,
                forall|k: int|
                    0 <= k < z ==> {
                        let planet = #[trigger] planets@[k];
                        &&& planet.name@ == planet_name(name@, k as nat)
                        &&& planet.location == (x, y, k as usize)
                        &&& planet.units@.len() == 0
                        &&& planet.habitable == habitable@[k]
                    },
            decreases habitable@.len() - z,
        {
            let mut label = name.clone();
            push_char(&mut label, '-');
            push_decimal(&mut label, z as u64);
            planets.push(
                Planet { name: label, location: (x, y, z), habitable: habitable[z], units: Vec::new() },
            );
            z += 1;
        }
        Star { name, planets, location: (x, y) }
    }
}

impl Galaxy {
    /// Whether the place `(x, y)` lies on the grid.
    pub open spec fn on_grid(x: usize, y: usize) -> bool {
        x < SIDE && y < SIDE
    }

    /// The number that the grid holds at the place `(x, y)`.
    pub open spec fn number_at(&self, x: usize, y: usize) -> usize {
        cells(self.star_matrix)[(x as int, y as int)]
    }

    /// Whether the place `(x, y)` lies on the grid and leads to a star.
    pub open spec fn leads_to_star(&self, x: usize, y: usize) -> bool {
        Self::on_grid(x, y) && self.number_at(x, y) < self.stars@.len()
    }

    /// An empty galaxy of [`SIDE`] by [`SIDE`] places, planned for one star
    /// to every [`SCALE_FACTOR`] places.
    pub fn new() -> (galaxy: Self)
        ensures
            galaxy.dimensions == (SIDE, SIDE),
            galaxy.stars@.len() == 0,
            galaxy.distances@.len() == 0,
            galaxy.total_stars as int == (SIDE as int * SIDE as int) / (SCALE_FACTOR as int),
            forall|x: usize, y: usize| Self::on_grid(x, y) ==> #[trigger] galaxy.number_at(x, y) == 0,
    {
        Galaxy {
            dimensions: (SIDE, SIDE),
            stars: Vec::new(),
            star_matrix: zeros(),
            distances: HashMap::new(),
            total_stars: SIDE * SIDE / SCALE_FACTOR,
        }
    }

    /// The star that the place `location` leads to, for writing.
    pub fn get_star_from_loc(&mut self, location: (usize, usize)) -> (star: &mut Star)
        requires
            old(self).leads_to_star(location.0, location.1),
        ensures
            *star == old(self).stars@[old(self).number_at(location.0, location.1) as int],
            final(self).stars@ == old(self).stars@.update(
                old(self).number_at(location.0, location.1) as int,
                *final(star),
            ),
            final(self).dimensions == old(self).dimensions,
            final(self).star_matrix == old(self).star_matrix,
            final(self).distances == old(self).distances,
            final(self).total_stars == old(self).total_stars,
    {
        let index = at(&self.star_matrix, location.0, location.1);
        &mut self.stars[index]
    }

    /// The planet at `location`, for writing: the planet whose number is
    /// the third coordinate, of the star that the first two lead to.
    pub fn get_planet_from_loc(&mut self, location: (usize, usize, usize)) -> (planet: &mut Planet)
        requires
            old(self).names_planet(location),
        ensures
            *planet == old(self).stars@[old(self).number_at(
                location.0,
                location.1,
            ) as int].planets@[location.2 as int],
            final(self).stars@.len() == old(self).stars@.len(),
            forall|i: int|
                0 <= i < old(self).stars@.len() && i != old(self).number_at(location.0, location.1)
                    ==> final(self).stars@[i] == old(self).stars@[i],
            ({
                let index = old(self).number_at(location.0, location.1) as int;
                &&& final(self).stars@[index].name == old(self).stars@[index].name
                &&& final(self).stars@[index].location == old(self).stars@[index].location
                &&& final(self).stars@[index].planets@ == old(self).stars@[index].planets@.update(
                    location.2 as int,
                    *final(planet),
                )
            }),
            final(self).dimensions == old(self).dimensions,
            final(self).star_matrix == old(self).star_matrix,
            final(self).distances == old(self).distances,
            final(self).total_stars == old(self).total_stars,
    {
        let star = self.get_star_from_loc((location.0, location.1));
        &mut star.planets[location.2]
    }

    /// Whether the place `(x, y)` lies on the grid and leads to a star.
    pub fn has_star_at(&self, x: usize, y: usize) -> (leads: bool)
        ensures
            leads == self.leads_to_star(x, y),
    {
        x < SIDE && y < SIDE && at(&self.star_matrix, x, y) < self.stars.len()
    }

    /// The star that the place `location` leads to, for writing, if the
    /// place lies on the grid and leads to a star.
    pub fn star_at(&mut self, location: (usize, usize)) -> (found: Option<&mut Star>)
        ensures
            match found {
                Some(star) => {
                    &&& old(self).leads_to_star(location.0, location.1)
                    &&& *star == old(self).stars@[old(self).number_at(location.0, location.1) as int]
                    &&& final(self).stars@ == old(self).stars@.update(
                        old(self).number_at(location.0, location.1) as int,
                        *final(star),
                    )
                    &&& final(self).dimensions == old(self).dimensions
                    &&& final(self).star_matrix == old(self).star_matrix
                    &&& final(self).distances == old(self).distances
                    &&& final(self).total_stars == old(self).total_stars
                },
                None => {
                    &&& !old(self).leads_to_star(location.0, location.1)
                    &&& *final(self) == *old(self)
                },
            },
    {
        if self.has_star_at(location.0, location.1) {
            Some(self.get_star_from_loc(location))
        } else {
            None
        }
    }

    /// Whether `location` names a planet: its first two coordinates lead
    /// to a star, and the star has a planet of the number that the third
    /// gives.
    pub open spec fn names_planet(&self, location: (usize, usize, usize)) -> bool {
        &&& self.leads_to_star(location.0, location.1)
        &&& location.2 < self.stars@[self.number_at(location.0, location.1) as int].planets@.len()
    }

    /// Whether `location` names a planet.
    pub fn has_planet_at(&self, location: (usize, usize, usize)) -> (names: bool)
        ensures
            names == self.names_planet(location),
    {
        if self.has_star_at(location.0, location.1) {
            let index = at(&self.star_matrix, location.0, location.1);
            location.2 < self.stars[index].planets.len()
        } else {
            false
        }
    }

    /// Puts `star` on its place of the grid under the number `index`, and
    /// adds it to the stars. A place that holds a number other than 0 is
    /// taken: the star is then refused and the galaxy left as it was.
    pub fn add_star(&mut self, star: Star, index: usize) -> (outcome: Result<(), &'static str>)
        requires
            Self::on_grid(star.location.0, star.location.1),
        ensures
            match outcome {
                Ok(_) => {
                    &&& old(self).number_at(star.location.0, star.location.1) == 0
                    &&& cells(final(self).star_matrix) == cells(old(self).star_matrix).insert(
                        (star.location.0 as int, star.location.1 as int),
                        index,
                    )
                    &&& final(self).stars@ == old(self).stars@.push(star)
                    &&& final(self).dimensions == old(self).dimensions
                    &&& final(self).distances == old(self).distances
                    &&& final(self).total_stars == old(self).total_stars
                },
                Err(message) => {
                    &&& old(self).number_at(star.location.0, star.location.1) != 0
                    &&& message@ == taken_message()
                    &&& *final(self) == *old(self)
                },
            },
    {
        if at(&self.star_matrix, star.location.0, star.location.1) != 0 {
            return Err("Star already exists at location");
        }
        put(&mut self.star_matrix, star.location.0, star.location.1, index);
        self.stars.push(star);
        Ok(())
    }

    /// The number that the grid holds at the place of `star`.
    pub fn get_star_index(&self, star: &Star) -> (index: usize)
        requires
            Self::on_grid(star.location.0, star.location.1),
        ensures
            index == self.number_at(star.location.0, star.location.1),
    {
        at(&self.star_matrix, star.location.0, star.location.1)
    }

    /// The first star that is called `name`, if there is one.
    pub fn get_star_by_name(&self, name: &str) -> (found: Option<&Star>)
        ensures
            match found {
                Some(star) => exists|i: int|
                    {
                        &&& 0 <= i < self.stars@.len()
                        &&& *star == self.stars@[i]
                        &&& self.stars@[i].name@ == name@
                        &&& forall|j: int| 0 <= j < i ==> self.stars@[j].name@ != name@
                    },
                None => forall|j: int| 0 <= j < self.stars@.len() ==> self.stars@[j].name@ != name@,
            },
    {
        let mut i: usize = 0;
        while i < self.stars.len()
            invariant
                i <= self.stars@.len(),
                forall|j: int| 0 <= j < i ==> self.stars@[j].name@ != name@,
            decreases self.stars@.len() - i,
        {
            if same_text(self.stars[i].name.as_str(), name) {
                return Some(&self.stars[i]);
            }
            i += 1;
        }
        None
    }

    /// A star called `name` at a rolled place within the galaxy's
    /// dimensions, with a rolled number of planets below [`PLANET_BOUND`],
    /// each habitable or not by a roll.
    pub fn random_star(&self, name: String) -> (star: Star)
        requires
            self.dimensions.0 > 0,
            self.dimensions.1 > 0,
        ensures
            star.name == name,
            star.location.0 < self.dimensions.0,
            star.location.1 < self.dimensions.1,
            star.planets@.len() < PLANET_BOUND,
            star.newly_built(),
    {
        let x = roll_usize() % self.dimensions.0;
        let y = roll_usize() % self.dimensions.1;
        let num_planets = roll_usize() % PLANET_BOUND;
        let mut habitable: Vec<bool> = Vec::new();
        let mut z: usize = 0;
        while z < num_planets
            invariant
                z <= num_planets,
                habitable@.len() == z,
            decreases num_planets - z,
        {
            habitable.push(roll_bool());
            z += 1;
        }
        Star::build(name, x, y, &habitable)
    }

    /// Whether every star stands on the grid.
    pub open spec fn stars_on_grid(&self) -> bool {
        forall|i: int|
            0 <= i < self.stars@.len() ==> Self::on_grid(
                (#[trigger] self.stars@[i]).location.0,
                self.stars@[i].location.1,
            )
    }

    /// Records, for every star, the other stars nearest first. The
    /// distance between star `i` and star `j` is `table[i][j]`.
    pub fn calculcate_all_distances(&mut self, table: &Vec<Vec<u32>>)
        requires
            old(self).stars_on_grid(),
            table@.len() == old(self).stars@.len(),
            forall|i: int| 0 <= i < table@.len() ==> (#[trigger] table@[i])@.len() == table@.len(),
        ensures
            final(self).stars == old(self).stars,
            final(self).dimensions == old(self).dimensions,
            final(self).star_matrix == old(self).star_matrix,
            final(self).total_stars == old(self).total_stars,
            forall|i: usize|
                i < old(self).stars@.len() ==> #[trigger] final(self).distances@.contains_key(i)
                    && final(self).distances@[i]@ == sorted(
                    row_for(
                        old(self).stars@,
                        cells(old(self).star_matrix),
                        i as int,
                        table@[i as int]@,
                        old(self).stars@.len(),
                    ),
                ),
            forall|key: usize|
                key >= old(self).stars@.len() ==> (#[trigger] final(self).distances@.contains_key(key))
                    == old(self).distances@.contains_key(key),
            forall|key: usize|
                key >= old(self).stars@.len() && old(self).distances@.contains_key(key)
                    ==> #[trigger] final(self).distances@[key] == old(self).distances@[key],
    {
        let count = self.stars.len();
        let ghost stars = self.stars@;
        let ghost places = cells(self.star_matrix);
        let mut i: usize = 0;
        while i < count
            invariant
                count == stars.len(),
                i <= count,
                self.stars == old(self).stars,
                self.stars@ == stars,
                cells(self.star_matrix) == places,
                self.dimensions == old(self).dimensions,
                self.star_matrix == old(self).star_matrix,
                self.total_stars == old(self).total_stars,
                self.stars_on_grid(),
                table@.len() == count,
                forall|k: int| 0 <= k < table@.len() ==> (#[trigger] table@[k])@.len() == table@.len(),
                forall|k: usize|
                    k < i ==> #[trigger] self.distances@.contains_key(k) && self.distances@[k]@
                        == sorted(row_for(stars, places, k as int, table@[k as int]@, count as nat)),
                forall|key: usize|
                    key >= count ==> (#[trigger] self.distances@.contains_key(key)) == old(self).distances@.contains_key(key),
                forall|key: usize|
                    key >= count && old(self).distances@.contains_key(key)
                        ==> #[trigger] self.distances@[key] == old(self).distances@[key],
            decreases count - i,
        {
            let mut row: Vec<(usize, u32)> = Vec::new();
            let mut j: usize = 0;
            while j < count
                invariant
                    count == stars.len(),
                    self.stars@ == stars,
                    cells(self.star_matrix) == places,
                    i < count,
                    j <= count,
                    self.stars_on_grid(),
                    table@.len() == count,
                    table@[i as int]@.len() == count,
                    row@ == row_for(stars, places, i as int, table@[i as int]@, j as nat),
                decreases count - j,
            {
                let other = &self.stars[j];
                if !same_text(self.stars[i].name.as_str(), other.name.as_str()) {
                    row.push((self.get_star_index(other), table[i][j]));
                }
                j += 1;
            }
            let ordered = sort_by_distance(&row);
            let ghost before = self.distances@;
            self.distances.insert(i, ordered);
            assert(self.distances@ == before.insert(i, ordered));
            i += 1;
        }
    }

    /// Whether the distances from the place `(x, y)` are known: the place
    /// lies on the grid, a row is recorded under the number that the grid
    /// holds there, and the row names stars of the galaxy.
    pub open spec fn charted(&self, x: usize, y: usize) -> bool {
        &&& Self::on_grid(x, y)
        &&& self.distances@.contains_key(self.number_at(x, y))
        &&& forall|k: int|
            0 <= k < self.distances@[self.number_at(x, y)]@.len() ==> (
            #[trigger] self.distances@[self.number_at(x, y)]@[k]).0 < self.stars@.len()
    }

    /// Whether what is seen from `location` is known: the location leads
    /// to a star, and the distances from that star's place are known.
    pub open spec fn watchable(&self, location: (usize, usize, usize)) -> bool {
        &&& self.leads_to_star(location.0, location.1)
        &&& self.charted(
            self.stars@[self.number_at(location.0, location.1) as int].location.0,
            self.stars@[self.number_at(location.0, location.1) as int].location.1,
        )
    }

    /// Whether the distances from the place `(x, y)` are known.
    pub fn is_charted(&self, x: usize, y: usize) -> (charted: bool)
        ensures
            charted == self.charted(x, y),
    {
        if !(x < SIDE && y < SIDE) {
            return false;
        }
        let index = at(&self.star_matrix, x, y);
        let row = match self.distances.get(&index) {
            Some(row) => row,
            None => {
                return false;
            },
        };
        let mut k: usize = 0;
        while k < row.len()
            invariant
                Self::on_grid(x, y),
                self.distances@.contains_key(self.number_at(x, y)),
                row@ == self.distances@[self.number_at(x, y)]@,
                k <= row@.len(),
                forall|j: int| 0 <= j < k ==> (#[trigger] row@[j]).0 < self.stars@.len(),
            decreases row@.len() - k,
        {
            if row[k].0 >= self.stars.len() {
                assert(!(row@[k as int].0 < self.stars@.len()));
                return false;
            }
            k += 1;
        }
        true
    }

    /// Whether what is seen from `location` is known.
    pub fn can_watch(&self, location: (usize, usize, usize)) -> (watchable: bool)
        ensures
            watchable == self.watchable(location),
    {
        if self.has_star_at(location.0, location.1) {
            let star = &self.stars[at(&self.star_matrix, location.0, location.1)];
            self.is_charted(star.location.0, star.location.1)
        } else {
            false
        }
    }

    /// The stars no farther than `range` from `star`, nearest first, if
    /// the distances from the place of `star` are known.
    pub fn stars_within_range(&self, star: &Star, range: u32) -> (near: Option<Vec<&Star>>)
        ensures
            match near {
                Some(stars) => {
                    &&& self.charted(star.location.0, star.location.1)
                    &&& shown(stars@) == in_range(
                        self.stars@,
                        self.row_at(star.location.0, star.location.1),
                        range,
                        self.row_at(star.location.0, star.location.1).len(),
                    )
                },
                None => !self.charted(star.location.0, star.location.1),
            },
    {
        if self.is_charted(star.location.0, star.location.1) {
            Some(self.get_stars_within_range(star, range))
        } else {
            None
        }
    }

    /// The row recorded for the place `(x, y)`.
    pub open spec fn row_at(&self, x: usize, y: usize) -> Seq<(usize, u32)> {
        self.distances@[self.number_at(x, y)]@
    }

    /// The stars no farther than `range` from `star`, nearest first, as
    /// recorded for the place where `star` stands.
    pub fn get_stars_within_range(&self, star: &Star, range: u32) -> (near: Vec<&Star>)
        requires
            self.charted(star.location.0, star.location.1),
        ensures
            shown(near@) == in_range(
                self.stars@,
                self.row_at(star.location.0, star.location.1),
                range,
                self.row_at(star.location.0, star.location.1).len(),
            ),
    {
        let mut stars: Vec<&Star> = Vec::new();
        let star_index = self.get_star_index(star);
        let distances = self.distances.get(&star_index).unwrap();
        let mut k: usize = 0;
        assert(shown(stars@) =~= Seq::<Star>::empty());
        while k < distances.len()
            invariant
                k <= distances@.len(),
                forall|j: int| 0 <= j < distances@.len() ==> (#[trigger] distances@[j]).0 < self.stars@.len(),
                shown(stars@) == in_range(self.stars@, distances@, range, k as nat),
            decreases distances@.len() - k,
        {
            let distance = distances[k];
            if distance.1 <= range {
                let ghost before = stars@;
                stars.push(&self.stars[distance.0]);
                assert(shown(stars@) =~= shown(before).push(self.stars@[distance.0 as int]));
            }
            k += 1;
        }
        stars
    }
}

} // verus!
