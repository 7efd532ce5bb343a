//! The production rules of a single yak on a single day, and the value that
//! adds up what was produced.

use core::ops::{Add, AddAssign};
use vstd::prelude::*;
use vstd::std_specs::ops::AddSpecImpl;

verus! {

/// Milk is counted in hundredths of a litre; this many units make one litre.
pub const MILK_FLOATING_POINT_ADJUSTMENT: u32 = 100;

/// A yak can only be shaved after it is 100 days (1 year) old.
pub const MIN_YAK_SHAVE_AGE: u32 = 100;

/// What a newborn yak gives in a day, in hundredths of a litre.
pub const BASE_MILK_PRODUCTION: u32 = 5_000;

/// The least number of days between two shaves.
pub const MINIMUM_WOOL_SHAVING_PERIOD: u32 = 8;

/// The milk that a yak of `age` days gives in one day, in hundredths of a
/// litre: `5000 - 3 * age`, and nothing once that would fall below zero.
pub open spec fn milk_yield(age: int) -> int {
    if BASE_MILK_PRODUCTION - 3 * age >= 0 {
        BASE_MILK_PRODUCTION - 3 * age
    } else {
        0
    }
}

/// Whether a yak of `age` days, last shaved at `age_last_shaved` days, can be
/// shaved today: it is old enough, and `8 + age / 100` days have passed since
/// the last shave. The hundredth is taken exactly: both sides stand a
/// hundredfold.
pub open spec fn wool_due(age: int, age_last_shaved: int) -> bool {
    &&& age >= MIN_YAK_SHAVE_AGE
    &&& 100 * age >= 100 * (age_last_shaved + MINIMUM_WOOL_SHAVING_PERIOD) + age
}

/// One day's milk of a yak of the given age.
pub fn yak_milk_production(age: u32) -> (milk: u32)
    ensures
        milk == milk_yield(age as int),
        milk <= BASE_MILK_PRODUCTION,
{
    let decay: u64 = 3 * (age as u64);
    if decay >= BASE_MILK_PRODUCTION as u64 {
        0
    } else {
        BASE_MILK_PRODUCTION - (decay as u32)
    }
}

/// Whether a yak of the given age, last shaved at the given age, gives a skin
/// of wool today.
pub fn yak_can_produce_wool(age: u32, age_last_shaved: u32) -> (due: bool)
    ensures
        due == wool_due(age as int, age_last_shaved as int),
{
    if age < MIN_YAK_SHAVE_AGE {
        return false;
    }
    let next_shave_date: u64 = 100 * (age_last_shaved as u64 + MINIMUM_WOOL_SHAVING_PERIOD as u64)
        + age as u64;
    100 * (age as u64) >= next_shave_date
}

/// What `Products` stands for: an amount of milk, in hundredths of a litre,
/// and a number of skins of wool.
pub struct Tally {
    pub milk: nat,
    pub wool: nat,
}

impl Tally {
    /// Nothing of either.
    pub open spec fn zero() -> Tally {
        Tally { milk: 0, wool: 0 }
    }

    /// The two amounts taken together, field by field.
    pub open spec fn plus(self, other: Tally) -> Tally {
        Tally { milk: self.milk + other.milk, wool: self.wool + other.wool }
    }

    /// Whether both amounts can be held by a `Products`.
    pub open spec fn fits(self) -> bool {
        self.milk <= u32::MAX && self.wool <= u32::MAX
    }
}

/// Milk and wool that were produced.
#[derive(Debug, Clone, Copy)]
pub struct Products {
    milk: u32,
    wool: u32,
}

impl View for Products {
    type V = Tally;

    closed spec fn view(&self) -> Tally {
        Tally { milk: self.milk as nat, wool: self.wool as nat }
    }
}

impl Default for Products {
    fn default() -> (products: Products)
        ensures
            products@ == Tally::zero(),
    {
        Products { milk: 0, wool: 0 }
    }
}

impl AddSpecImpl<Products> for Products {
    open spec fn obeys_add_spec() -> bool {
        true
    }

    open spec fn add_req(self, rhs: Products) -> bool {
        self@.plus(rhs@).fits()
    }

    closed spec fn add_spec(self, rhs: Products) -> Products {
        Products { milk: (self.milk + rhs.milk) as u32, wool: (self.wool + rhs.wool) as u32 }
    }
}

impl Add<Products> for Products {
    type Output = Products;

    fn add(self, rhs: Products) -> (sum: Products)
        ensures
            sum@ == self@.plus(rhs@),
    {
        Products { milk: self.milk + rhs.milk, wool: self.wool + rhs.wool }
    }
}

impl AddAssign<Products> for Products {
    fn add_assign(&mut self, rhs: Products)
        requires
            old(self)@.plus(rhs@).fits(),
        ensures
            final(self)@ == old(self)@.plus(rhs@),
    {
        *self = Products { milk: self.milk + rhs.milk, wool: self.wool + rhs.wool };
    }
}

impl Products {
    /// Adds an amount of milk, in hundredths of a litre.
    pub fn add_milk(&mut self, milk: u32)
        requires
            old(self)@.milk + milk <= u32::MAX,
        ensures
            final(self)@ == old(self)@.plus(Tally { milk: milk as nat, wool: 0 }),
    {
        self.milk += milk;
    }

    /// Adds a number of skins of wool.
    pub fn add_wool(&mut self, wool: u32)
        requires
            old(self)@.wool + wool <= u32::MAX,
        ensures
            final(self)@ == old(self)@.plus(Tally { milk: 0, wool: wool as nat }),
    {
        self.wool += wool;
    }

    /// What a `Products` holds is below 2^32.
    pub proof fn lemma_view_fits(&self)
        ensures
            self@.fits(),
    {
    }

    /// The milk, in hundredths of a litre.
    #[must_use]
    pub fn milk_hundredths(&self) -> (milk: u32)
        ensures
            milk == self@.milk,
    {
        self.milk
    }

    /// The number of skins of wool.
    #[must_use]
    pub fn wool(&self) -> (wool: u32)
        ensures
            wool == self@.wool,
    {
        self.wool
    }
}

} // verus!
