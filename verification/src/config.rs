//! The size of the galaxy to create.

use vstd::prelude::*;

verus! {

/// How large the galaxy is and how many stars it holds.
#[derive(Debug, Clone, Copy, PartialEq, Eq, Structural)]
pub struct Config {
    /// The galaxy is a square grid with this many places along each side.
    pub galaxy_dimension: u32,
    pub num_stars: u32,
}

impl Config {
    /// Whether the stars fit in the galaxy, each on a place of its own.
    pub open spec fn fits(self) -> bool {
        self.num_stars <= self.galaxy_dimension * self.galaxy_dimension
    }

    /// Whether the stars fit in the galaxy, each on a place of its own.
    pub fn is_valid(&self) -> (valid: bool)
        ensures
            valid == self.fits(),
    {
        let side = self.galaxy_dimension as u64;
        assert(side * side <= 0xffff_ffff * 0xffff_ffff) by (nonlinear_arith)
            requires
                side <= 0xffff_ffff,
        ;
        self.num_stars as u64 <= side * side
    }

    /// The configuration itself, which must be one whose stars fit.
    pub fn validate(self) -> (checked: Self)
        requires
            self.fits(),
        ensures
            checked == self,
    {
        self
    }
}

impl Default for Config {
    /// Fifty stars in a galaxy of 25 by 25 places.
    fn default() -> (config: Self)
        ensures
            config == (Config { galaxy_dimension: 25, num_stars: 50 }),
            config.fits(),
    {
        Config { galaxy_dimension: 25, num_stars: 50 }
    }
}

} // verus!
