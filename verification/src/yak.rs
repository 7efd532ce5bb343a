//! A single yak: its age, the age at which it was last shaved, and the days
//! it lives through.

use vstd::prelude::*;
use vstd::string::StringExecFns;
pub use crate::age::DAYS_IN_YAK_YEAR;
use crate::age::{days_of_float_years, yak_float_years_to_days, InvalidAge};
use crate::text::{decimal_hundredths, push_decimal_hundredths};
use crate::products::{
    milk_yield, wool_due, yak_can_produce_wool, yak_milk_production, Products, Tally,
    BASE_MILK_PRODUCTION, MIN_YAK_SHAVE_AGE,
};

verus! {

/// A yak lives for 10 years, there are 100 days in a yak year.
pub const MAX_YAK_AGE: u32 = 1_000;

/// From this age on a yak gives no milk any more.
pub const DRY_AGE: u32 = 1_667;

/// What a yak's body has come to after some days, and what it gave in them.
pub struct Growth {
    pub age: nat,
    pub age_last_shaved: nat,
    pub milk: nat,
    pub wool: nat,
}

impl Growth {
    /// What was given, without the body.
    pub open spec fn tally(self) -> Tally {
        Tally { milk: self.milk, wool: self.wool }
    }
}

/// One more day after `g`: the day's milk is that of the age in the morning;
/// where a shave is due the yak gives one skin and the morning's age is
/// remembered; then the yak is a day older.
pub open spec fn next_day(g: Growth) -> Growth {
    let shaved = wool_due(g.age as int, g.age_last_shaved as int);
    Growth {
        age: g.age + 1,
        age_last_shaved: if shaved { g.age } else { g.age_last_shaved },
        milk: g.milk + milk_yield(g.age as int) as nat,
        wool: if shaved { g.wool + 1 } else { g.wool },
    }
}

/// A yak of the given age and last shave, taken through `days` days, one
/// after the other.
pub open spec fn grow(age: nat, age_last_shaved: nat, days: nat) -> Growth
    decreases days,
{
    if days == 0 {
        Growth { age, age_last_shaved, milk: 0, wool: 0 }
    } else {
        next_day(grow(age, age_last_shaved, (days - 1) as nat))
    }
}

/// Twice the milk that a yak gives from the given age until it runs dry:
/// the sum of `5000 - 3 * a` over the ages `a` from `age` up to 1666.
pub open spec fn twice_milk_ahead(age: int) -> int {
    if age >= DRY_AGE {
        0
    } else {
        (DRY_AGE - age) * (BASE_MILK_PRODUCTION + 2 - 3 * age)
    }
}

/// A day's milk is never negative, whatever the age, and never more than a
/// newborn's.
pub proof fn lemma_milk_yield_bounds(age: int)
    ensures
        0 <= milk_yield(age),
        age >= 0 ==> milk_yield(age) <= BASE_MILK_PRODUCTION,
        age >= DRY_AGE ==> milk_yield(age) == 0,
        0 <= age < DRY_AGE ==> milk_yield(age) > 0,
{
}

/// No yak younger than the least shaving age gives wool, whenever it was last
/// shaved; a yak that was never shaved gives wool from exactly that age on.
pub proof fn lemma_wool_starts_at_min_shave_age(age: int, age_last_shaved: int)
    ensures
        age < MIN_YAK_SHAVE_AGE ==> !wool_due(age, age_last_shaved),
        wool_due(MIN_YAK_SHAVE_AGE as int, 0),
        age >= 0 ==> (wool_due(age, 0) <==> age >= MIN_YAK_SHAVE_AGE),
{
}

/// The milk ahead of a yak is today's milk and the milk ahead of it tomorrow.
pub proof fn lemma_milk_ahead_unfold(age: int)
    requires
        age >= 0,
    ensures
        twice_milk_ahead(age) == 2 * milk_yield(age) + twice_milk_ahead(age + 1),
        twice_milk_ahead(age) >= 0,
{
    if age < DRY_AGE {
        assert((DRY_AGE - age) * (BASE_MILK_PRODUCTION + 2 - 3 * age) == 2 * (BASE_MILK_PRODUCTION
            - 3 * age) + (DRY_AGE - (age + 1)) * (BASE_MILK_PRODUCTION + 2 - 3 * (age + 1)))
            by (nonlinear_arith)
            requires
                DRY_AGE == 1_667,
                BASE_MILK_PRODUCTION == 5_000,
        ;
        assert((DRY_AGE - age) * (BASE_MILK_PRODUCTION + 2 - 3 * age) >= 0) by (nonlinear_arith)
            requires
                DRY_AGE - age >= 1,
                BASE_MILK_PRODUCTION + 2 - 3 * age >= 1,
        ;
        if age + 1 == DRY_AGE {
            assert((DRY_AGE - (age + 1)) * (BASE_MILK_PRODUCTION + 2 - 3 * (age + 1)) == 0)
                by (nonlinear_arith)
                requires
                    DRY_AGE - (age + 1) == 0,
            ;
        }
    }
}

/// What holds of a yak after any number of days: it is that many days older;
/// it was last shaved no later than today if that held at the start; it gave
/// no more skins than days went by; and the milk it gave is the milk that was
/// ahead of it at the start less the milk that is still ahead of it.
pub proof fn lemma_grow_facts(age: nat, age_last_shaved: nat, days: nat)
    ensures
        grow(age, age_last_shaved, days).age == age + days,
        age_last_shaved <= age ==> grow(age, age_last_shaved, days).age_last_shaved <= age + days,
        grow(age, age_last_shaved, days).age_last_shaved >= age_last_shaved,
        grow(age, age_last_shaved, days).wool <= days,
        2 * grow(age, age_last_shaved, days).milk == twice_milk_ahead(age as int)
            - twice_milk_ahead((age + days) as int),
        grow(age, age_last_shaved, days).milk <= 4_169_167,
    decreases days,
{
    if days > 0 {
        let before = (days - 1) as nat;
        lemma_grow_facts(age, age_last_shaved, before);
        lemma_milk_ahead_unfold((age + before) as int);
    }
    lemma_milk_ahead_unfold((age + days) as int);
    lemma_milk_ahead_total(age as int);
}

/// No yak has more milk ahead of it than a newborn.
pub proof fn lemma_milk_ahead_total(age: int)
    requires
        age >= 0,
    ensures
        twice_milk_ahead(age) <= 8_338_334,
        twice_milk_ahead(0) == 8_338_334,
{
    if age < DRY_AGE {
        assert((DRY_AGE - age) * (BASE_MILK_PRODUCTION + 2 - 3 * age) <= 1_667 * 5_002)
            by (nonlinear_arith)
            requires
                0 <= DRY_AGE - age <= 1_667,
                0 <= BASE_MILK_PRODUCTION + 2 - 3 * age <= 5_002,
        ;
    }
}

/// Days add up: a yak taken through `first` days and then through `then`
/// more has come to the same age and last shave, and has given the same in
/// all, as one taken through `first + then` days at once.
pub proof fn lemma_grow_additive(age: nat, age_last_shaved: nat, first: nat, then: nat)
    ensures
        ({
            let a = grow(age, age_last_shaved, first);
            let b = grow(a.age, a.age_last_shaved, then);
            let whole = grow(age, age_last_shaved, first + then);
            &&& whole.age == b.age
            &&& whole.age_last_shaved == b.age_last_shaved
            &&& whole.tally() == a.tally().plus(b.tally())
        }),
    decreases then,
{
    if then > 0 {
        lemma_grow_additive(age, age_last_shaved, first, (then - 1) as nat);
        assert((first + then - 1) as nat == first + (then - 1) as nat);
    }
}

/// A yak that does not reach the least shaving age in the given days gives
/// no wool in them.
pub proof fn lemma_no_wool_before_min_shave_age(age: nat, age_last_shaved: nat, days: nat)
    requires
        age + days <= MIN_YAK_SHAVE_AGE,
    ensures
        grow(age, age_last_shaved, days).wool == 0,
        grow(age, age_last_shaved, days).age_last_shaved == age_last_shaved,
    decreases days,
{
    if days > 0 {
        lemma_no_wool_before_min_shave_age(age, age_last_shaved, (days - 1) as nat);
        lemma_grow_facts(age, age_last_shaved, (days - 1) as nat);
    }
}

/// A yak that was never shaved gives its first skin on the very day on which
/// it is of the least shaving age: none in the days before, one with that
/// day, and that age is then the age of its last shave.
pub proof fn lemma_first_wool_at_min_shave_age(age: nat)
    requires
        age <= MIN_YAK_SHAVE_AGE,
    ensures
        grow(age, 0, (MIN_YAK_SHAVE_AGE - age) as nat).wool == 0,
        grow(age, 0, (MIN_YAK_SHAVE_AGE - age + 1) as nat).wool == 1,
        grow(age, 0, (MIN_YAK_SHAVE_AGE - age + 1) as nat).age_last_shaved == MIN_YAK_SHAVE_AGE,
{
    let before = (MIN_YAK_SHAVE_AGE - age) as nat;
    lemma_no_wool_before_min_shave_age(age, 0, before);
    lemma_grow_facts(age, 0, before);
    assert(grow(age, 0, before + 1) == next_day(grow(age, 0, before)));
}

/// What a `Yak` stands for: its name, its age in days, and the age in days at
/// which it was last shaved (0 for a yak that never was).
pub struct YakView {
    pub name: Seq<char>,
    pub age: nat,
    pub age_last_shaved: nat,
}

impl YakView {
    /// A yak is alive until it reaches the greatest age.
    pub open spec fn is_alive(self) -> bool {
        self.age < MAX_YAK_AGE
    }

    /// A yak is never shaved at an age that it has not reached yet.
    pub open spec fn wf(self) -> bool {
        self.age_last_shaved <= self.age
    }

    /// The yak after `step_days(days)`: a dead yak stays as it is, a living
    /// one is taken through all the days, also where it passes the greatest
    /// age on the way.
    pub open spec fn after(self, days: nat) -> YakView {
        if self.is_alive() {
            let g = grow(self.age, self.age_last_shaved, days);
            YakView { name: self.name, age: g.age, age_last_shaved: g.age_last_shaved }
        } else {
            self
        }
    }

    /// The yak in one line: its name, its age in years, written as briefly
    /// as can be, and a mark where it is dead.
    pub open spec fn line(self) -> Seq<char> {
        self.name + " "@ + decimal_hundredths(self.age) + " years old"@ + if self.is_alive() {
            Seq::<char>::empty()
        } else {
            " (dead)"@
        }
    }

    /// What the yak adds to a stock in `step_days(days)`: what it hands out,
    /// and nothing where it hands out nothing.
    pub open spec fn gives(self, days: nat) -> Tally {
        match self.yields(days) {
            Some(tally) => tally,
            None => Tally::zero(),
        }
    }

    /// What `step_days(days)` hands out: nothing for a dead yak, and for a
    /// living one what it gave in all the days.
    pub open spec fn yields(self, days: nat) -> Option<Tally> {
        if self.is_alive() {
            Some(grow(self.age, self.age_last_shaved, days).tally())
        } else {
            None
        }
    }
}

/// A yak that has reached the greatest age is dead, and a dead yak is inert:
/// whatever the number of days, it hands out nothing and stays as it is.
pub proof fn lemma_dead_yak_is_inert(yak: YakView, days: nat)
    requires
        yak.age >= MAX_YAK_AGE,
    ensures
        !yak.is_alive(),
        yak.yields(days) == None::<Tally>,
        yak.gives(days) == Tally::zero(),
        yak.after(days) == yak,
{
}

/// Steps add up: stepping `first` days and then `then` days brings a yak to
/// the same age and last shave, and yields the same in all, as stepping
/// `first + then` days at once. A yak that dies in the first step is asked
/// to take no second one: it would stand still, where the single step goes on.
pub proof fn lemma_step_days_additive(yak: YakView, first: nat, then: nat)
    requires
        yak.is_alive() && yak.age + first >= MAX_YAK_AGE ==> then == 0,
    ensures
        yak.after(first).after(then) == yak.after(first + then),
        yak.gives(first).plus(yak.after(first).gives(then)) == yak.gives(first + then),
{
    lemma_grow_additive(yak.age, yak.age_last_shaved, first, then);
    lemma_grow_facts(yak.age, yak.age_last_shaved, first);
}

/// Stepping keeps a yak's last shave within its lifetime, and makes it older
/// by the days stepped if it was alive, by none if it was dead.
pub proof fn lemma_step_days_keeps_order(yak: YakView, days: nat)
    requires
        yak.wf(),
    ensures
        yak.after(days).wf(),
        yak.after(days).name == yak.name,
        yak.after(days).age == if yak.is_alive() { yak.age + days } else { yak.age },
        yak.after(days).age_last_shaved >= yak.age_last_shaved,
{
    lemma_grow_facts(yak.age, yak.age_last_shaved, days);
}

/// What an optional `Products` stands for.
pub open spec fn tally_of(products: Option<Products>) -> Option<Tally> {
    match products {
        Some(p) => Some(p@),
        None => None,
    }
}

/// A member of the herd.
#[derive(Debug)]
pub struct Yak {
    name: String,
    /// The age of the yak in days.
    age: u32,
    /// The age of the yak, in days, when it was last shaved.
    age_last_shaved: u32,
}

impl View for Yak {
    type V = YakView;

    closed spec fn view(&self) -> YakView {
        YakView {
            name: self.name@,
            age: self.age as nat,
            age_last_shaved: self.age_last_shaved as nat,
        }
    }
}

impl Clone for Yak {
    fn clone(&self) -> (copy: Yak)
        ensures
            copy@ == self@,
    {
        proof {
            use_type_invariant(self);
        }
        Yak { name: self.name.clone(), age: self.age, age_last_shaved: self.age_last_shaved }
    }
}

impl Yak {
    #[verifier::type_invariant]
    spec fn shaved_in_its_lifetime(self) -> bool {
        self.age_last_shaved <= self.age
    }

    /// A yak of the given name and age in days that was never shaved.
    pub fn new(name: String, age: u32) -> (yak: Yak)
        ensures
            yak@ == (YakView { name: name@, age: age as nat, age_last_shaved: 0 }),
    {
        Yak { name, age, age_last_shaved: 0 }
    }

    /// A yak of the given name that was never shaved, of an age given as the
    /// bit pattern of a binary64 number of years: the yak where the age is
    /// taken, with its age in whole days, else why the age is refused.
    pub fn from_float_years(name: String, age_bits: u64) -> (yak: Result<Yak, InvalidAge>)
        ensures
            match days_of_float_years(age_bits) {
                Ok(age) => yak matches Ok(y) && y@ == (YakView {
                    name: name@,
                    age: age as nat,
                    age_last_shaved: 0,
                }),
                Err(reason) => yak matches Err(e) && e == reason,
            },
    {
        match yak_float_years_to_days(age_bits) {
            Ok(age) => Ok(Yak::new(name, age)),
            Err(reason) => Err(reason),
        }
    }

    /// Takes a living yak through `days` days and hands out what it gave in
    /// them; a dead yak stays as it is and gives nothing.
    pub fn step_days(&mut self, days: u32) -> (products: Option<Products>)
        requires
            old(self)@.is_alive() ==> old(self)@.age + days <= u32::MAX,
        ensures
            final(self)@ == old(self)@.after(days as nat),
            tally_of(products) == old(self)@.yields(days as nat),
            final(self)@.wf(),
    {
        proof {
            use_type_invariant(&*self);
        }
        if !self.is_alive() {
            return None;
        }
        let mut products = Products::default();
        let ghost age0 = self.age as nat;
        let ghost last0 = self.age_last_shaved as nat;

        for day in 0..days
            invariant
                age0 + days <= u32::MAX,
                last0 <= age0,
                self.name == old(self).name,
                self.age == grow(age0, last0, day as nat).age,
                self.age_last_shaved == grow(age0, last0, day as nat).age_last_shaved,
                products@ == grow(age0, last0, day as nat).tally(),
        {
            proof {
                lemma_grow_facts(age0, last0, day as nat);
                lemma_grow_facts(age0, last0, (day + 1) as nat);
            }
            products.add_milk(yak_milk_production(self.age));
            if yak_can_produce_wool(self.age, self.age_last_shaved) {
                self.age_last_shaved = self.age;
                products.add_wool(1);
            }
            self.age += 1;
        }
        proof {
            lemma_grow_facts(age0, last0, days as nat);
        }
        Some(products)
    }

    /// The ages that a `Yak` holds are below 2^32.
    pub proof fn lemma_view_in_range(&self)
        ensures
            self@.age <= u32::MAX,
            self@.age_last_shaved <= u32::MAX,
    {
    }

    /// Writes the yak's line at the end of `out`.
    pub fn write_line(&self, out: &mut String)
        ensures
            final(out)@ == old(out)@ + self@.line(),
    {
        out.append(self.name.as_str());
        out.append(" ");
        push_decimal_hundredths(out, self.age);
        out.append(" years old");
        if self.age >= MAX_YAK_AGE {
            out.append(" (dead)");
        }
        assert(out@ =~= old(out)@ + self@.line());
    }

    /// The yak in one line, such as `Betty-1 4.13 years old`.
    pub fn render(&self) -> (text: String)
        ensures
            text@ == self@.line(),
    {
        let mut text = String::new();
        self.write_line(&mut text);
        assert(text@ =~= self@.line());
        text
    }

    /// The milk that the yak gives today, in hundredths of a litre.
    #[must_use]
    pub fn produce_milk(&self) -> (milk: u32)
        ensures
            milk == milk_yield(self@.age as int),
    {
        yak_milk_production(self.age)
    }

    /// Whether the yak gives a skin of wool today.
    #[must_use]
    pub fn can_produce_wool(&self) -> (due: bool)
        ensures
            due == wool_due(self@.age as int, self@.age_last_shaved as int),
    {
        yak_can_produce_wool(self.age, self.age_last_shaved)
    }

    /// Whether the yak is alive: whether it is younger than the greatest age.
    #[must_use]
    pub fn is_alive(&self) -> (alive: bool)
        ensures
            alive == self@.is_alive(),
    {
        self.age < MAX_YAK_AGE
    }

    /// The yak's name.
    #[must_use]
    pub fn name(&self) -> (name: &str)
        ensures
            name@ == self@.name,
    {
        self.name.as_str()
    }

    /// The yak's age in days.
    #[must_use]
    pub fn age(&self) -> (age: u32)
        ensures
            age == self@.age,
    {
        self.age
    }

    /// The age in days at which the yak was last shaved, 0 if it never was.
    #[must_use]
    pub fn age_last_shaved(&self) -> (age: u32)
        ensures
            age == self@.age_last_shaved,
            self@.wf(),
    {
        proof {
            use_type_invariant(self);
        }
        self.age_last_shaved
    }
}

} // verus!
