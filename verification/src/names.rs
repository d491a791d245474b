//! Names for stars: drawn from a list, mixed from two entries of it, with or
//! without a number, and never handed out twice.

use crate::chance::roll_u32;
use crate::chance::roll_u8;
use crate::chance::roll_usize;
use crate::text::decimal;
use crate::text::lines;
use crate::text::split_lines;
use crate::text::push_char;
use crate::text::push_decimal;
use vstd::prelude::*;

verus! {

/// The numbers that are appended to a name lie below this bound.
pub const NUMBER_BOUND: u32 = 999;

/// The strategies that are rolled: the first three of the four.
pub const STRATEGIES: u8 = 3;

/// The last of the four strategies by which a name can be made.
pub const LAST_STRATEGY: u8 = 3;

/// The entry that the roll `roll` picks from `names`.
pub open spec fn picked(names: Seq<Seq<char>>, roll: usize) -> Seq<char> {
    names[roll as int % names.len() as int]
}

/// The name mixed from `first` and `second`: the first half of `first`
/// (rounded down) followed by the second half of `second` (rounded up).
pub open spec fn mixed(first: Seq<char>, second: Seq<char>) -> Seq<char> {
    first.take(first.len() as int / 2) + second.skip(second.len() as int / 2)
}

/// The number that the roll `roll` appends, in decimal.
pub open spec fn number(roll: u32) -> Seq<char> {
    decimal((roll % NUMBER_BOUND) as nat)
}

/// The name that strategy `strategy` makes of `names` with the given rolls:
/// 0 picks an entry; 1 mixes two entries; 2 mixes two entries and appends a
/// hyphen and a number; 3 picks an entry and appends a number.
pub open spec fn composed(
    names: Seq<Seq<char>>,
    strategy: u8,
    first: usize,
    second: usize,
    count: u32,
) -> Seq<char> {
    if strategy == 0 {
        picked(names, first)
    } else if strategy == 1 {
        mixed(picked(names, first), picked(names, second))
    } else if strategy == 2 {
        mixed(picked(names, first), picked(names, second)) + seq!['-'] + number(count)
    } else {
        picked(names, first) + number(count)
    }
}

/// What the strings `names` hold, string by string.
pub open spec fn texts(names: Seq<String>) -> Seq<Seq<char>> {
    Seq::new(names.len(), |i: int| names[i]@)
}

/// A list of names to draw from, and the names that were handed out.
pub struct NameGenerator {
    names: Vec<String>,
    used_names: Vec<String>,
}

impl NameGenerator {
    /// The names to draw from.
    pub closed spec fn names(&self) -> Seq<Seq<char>> {
        texts(self.names@)
    }

    /// The names handed out so far, oldest first.
    pub closed spec fn used(&self) -> Seq<Seq<char>> {
        texts(self.used_names@)
    }

    /// A generator that draws from the lines of `contents`; no name is
    /// handed out yet.
    pub fn new(contents: &str) -> (generator: Self)
        ensures
            generator.names() == lines(contents@),
            generator.used() == Seq::<Seq<char>>::empty(),
    {
        let mut generator = NameGenerator { names: Vec::new(), used_names: Vec::new() };
        generator.load_names(contents);
        assert(generator.used() =~= Seq::<Seq<char>>::empty());
        generator
    }

    /// Replaces the names to draw from by the lines of `contents`.
    pub fn load_names(&mut self, contents: &str)
        ensures
            final(self).names() == lines(contents@),
            final(self).used() == old(self).used(),
    {
        self.names = split_lines(contents);
        assert(self.names() =~= lines(contents@));
    }

    /// The number of names to draw from.
    pub fn len(&self) -> (count: usize)
        ensures
            count == self.names().len(),
    {
        self.names.len()
    }

    /// Whether `name` was handed out already.
    pub fn is_used(&self, name: &String) -> (used: bool)
        ensures
            used == self.used().contains(name@),
    {
        let mut i: usize = 0;
        while i < self.used_names.len()
            invariant
                i <= self.used_names@.len(),
                forall|j: int| 0 <= j < i ==> self.used()[j] != name@,
            decreases self.used_names@.len() - i,
        {
            if self.used_names[i] == *name {
                assert(self.used()[i as int] == name@);
                return true;
            }
            i += 1;
        }
        false
    }

    /// Hands `name` out if it was not handed out before, and says whether it
    /// did.
    pub fn claim(&mut self, name: &String) -> (fresh: bool)
        ensures
            fresh == !old(self).used().contains(name@),
            final(self).names() == old(self).names(),
            final(self).used() == if fresh {
                old(self).used().push(name@)
            } else {
                old(self).used()
            },
    {
        if self.is_used(name) {
            false
        } else {
            self.used_names.push(name.clone());
            assert(self.used() =~= old(self).used().push(name@));
            true
        }
    }

    /// The entry that the roll `roll` picks.
    fn pick(&self, roll: usize) -> (name: &String)
        requires
            self.names().len() > 0,
        ensures
            name@ == picked(self.names(), roll),
    {
        let index = roll % self.names.len();
        assert(self.names()[index as int] == self.names@[index as int]@);
        &self.names[index]
    }

    /// The name that strategy `strategy` makes with the given rolls.
    pub fn compose(&self, strategy: u8, first: usize, second: usize, count: u32) -> (name: String)
        requires
            self.names().len() > 0,
            strategy <= LAST_STRATEGY,
        ensures
            name@ == composed(self.names(), strategy, first, second, count),
    {
        let mut name: String;
        if strategy == 0 || strategy == 3 {
            name = self.pick(first).clone();
        } else {
            let head = self.pick(first).as_str();
            let tail = self.pick(second).as_str();
            let head_len = head.unicode_len();
            let tail_len = tail.unicode_len();
            name = String::new();
            name.append(head.substring_char(0, head_len / 2));
            name.append(tail.substring_char(tail_len / 2, tail_len));
            assert(name@ =~= mixed(head@, tail@));
            if strategy == 2 {
                push_char(&mut name, '-');
            }
        }
        if strategy >= 2 {
            push_decimal(&mut name, (count % NUMBER_BOUND) as u64);
        }
        assert(name@ =~= composed(self.names(), strategy, first, second, count));
        name
    }

    /// Rolls the strategy by which names are made: one of the first
    /// [`STRATEGIES`].
    pub fn strategy() -> (strategy: u8)
        ensures
            strategy < STRATEGIES,
    {
        Self::strategy_of(roll_u8())
    }

    /// The strategy that the roll `roll` stands for: its remainder by the
    /// number of strategies that are rolled.
    pub fn strategy_of(roll: u8) -> (strategy: u8)
        ensures
            strategy == roll % STRATEGIES,
    {
        roll % STRATEGIES
    }

    /// Makes a name by strategy `strategy`, with rolls of its own. The name
    /// may have been handed out before.
    pub fn candidate(&self, strategy: u8) -> (name: String)
        requires
            self.names().len() > 0,
            strategy <= LAST_STRATEGY,
        ensures
            exists|first: usize, second: usize, count: u32|
                name@ == composed(self.names(), strategy, first, second, count),
    {
        if strategy == 0 {
            Self::random_name_default(self)
        } else if strategy == 1 {
            Self::random_name_mixed(self)
        } else if strategy == 2 {
            Self::random_name_mixed_with_num(self)
        } else {
            Self::random_name_default_with_num(self)
        }
    }

    /// An entry of the list, picked by a roll.
    fn random_name_default(&self) -> (name: String)
        requires
            self.names().len() > 0,
        ensures
            exists|first: usize| name@ == composed(self.names(), 0, first, 0, 0),
    {
        let first = roll_usize();
        self.compose(0, first, 0, 0)
    }

    /// An entry of the list, picked by a roll, with a rolled number behind
    /// it.
    fn random_name_default_with_num(&self) -> (name: String)
        requires
            self.names().len() > 0,
        ensures
            exists|first: usize, count: u32| name@ == composed(self.names(), 3, first, 0, count),
    {
        let first = roll_usize();
        let count = roll_u32();
        self.compose(3, first, 0, count)
    }

    /// Two entries of the list, picked by rolls and mixed.
    fn random_name_mixed(&self) -> (name: String)
        requires
            self.names().len() > 0,
        ensures
            exists|first: usize, second: usize|
                name@ == composed(self.names(), 1, first, second, 0),
    {
        let first = roll_usize();
        let second = roll_usize();
        self.compose(1, first, second, 0)
    }

    /// Two entries of the list, picked by rolls and mixed, with a hyphen
    /// and a rolled number behind them.
    fn random_name_mixed_with_num(&self) -> (name: String)
        requires
            self.names().len() > 0,
        ensures
            exists|first: usize, second: usize, count: u32|
                name@ == composed(self.names(), 2, first, second, count),
    {
        let first = roll_usize();
        let second = roll_usize();
        let count = roll_u32();
        self.compose(2, first, second, count)
    }
}

} // verus!
