//! The shop: a herd in the order in which it was given, the days that have
//! gone by, and everything the herd has produced in them.

use core::ops::AddAssign;
use vstd::prelude::*;
use vstd::string::StringExecFns;
use crate::age::{days_of_float_years, InvalidAge};
use crate::products::{Products, Tally};
use crate::text::{decimal, decimal_thousandths, push_decimal, push_decimal_thousandths};
use crate::yak::{lemma_grow_facts, lemma_step_days_additive, Yak, YakView, MAX_YAK_AGE};

verus! {

/// What a herd adds to the stock in `days` days: the sum over its yaks.
pub open spec fn herd_yield(yaks: Seq<YakView>, days: nat) -> Tally
    decreases yaks.len(),
{
    if yaks.len() == 0 {
        Tally::zero()
    } else {
        herd_yield(yaks.drop_last(), days).plus(yaks.last().gives(days))
    }
}

/// A herd after `days` days: each yak after them, in the same order.
pub open spec fn herd_after(yaks: Seq<YakView>, days: nat) -> Seq<YakView> {
    Seq::new(yaks.len(), |i: int| yaks[i].after(days))
}

/// The yak that a herd entry describes: a name, and an age given as the bit
/// pattern of a binary64 number of years. Only asked of an age that is taken.
pub open spec fn yak_of_entry(entry: (String, u64)) -> YakView {
    YakView { name: entry.0@, age: days_of_float_years(entry.1)->Ok_0 as nat, age_last_shaved: 0 }
}

/// The herd that a list of entries describes, in the order of the list.
pub open spec fn herd_of_entries(entries: Seq<(String, u64)>) -> Seq<YakView> {
    Seq::new(entries.len(), |i: int| yak_of_entry(entries[i]))
}

/// A herd entry whose age is refused: its place in the list, and why.
#[derive(Debug, Clone, Copy, PartialEq, Eq, Structural)]
pub struct RefusedEntry {
    pub index: usize,
    pub reason: InvalidAge,
}

/// The lines of a herd: for each yak a line break, four blanks and its line.
pub open spec fn herd_lines(yaks: Seq<YakView>) -> Seq<char>
    decreases yaks.len(),
{
    if yaks.len() == 0 {
        Seq::<char>::empty()
    } else {
        herd_lines(yaks.drop_last()) + "\n    "@ + yaks.last().line()
    }
}

/// What a `Shop` stands for.
pub struct ShopView {
    pub yaks: Seq<YakView>,
    pub elapsed_days: nat,
    pub produced: Tally,
}

impl ShopView {
    /// The shop after `days` more days: every yak has stepped, what the herd
    /// gave has come on top of the stock, and the days have gone by, whether
    /// or not any yak is alive.
    pub open spec fn advance(self, days: nat) -> ShopView {
        ShopView {
            yaks: herd_after(self.yaks, days),
            elapsed_days: self.elapsed_days + days,
            produced: self.produced.plus(herd_yield(self.yaks, days)),
        }
    }

    /// The stock and the herd as text: the milk in litres with three places,
    /// the wool in skins, then the herd line by line.
    pub open spec fn report(self) -> Seq<char> {
        "In Stock:\n    "@ + decimal_thousandths(self.produced.milk) + " liters of milk\n    "@
            + decimal(self.produced.wool) + " skins of wool\nHerd:"@ + herd_lines(self.yaks)
    }

    /// Whether a `Shop` can hold this: the ages, the days gone by and the
    /// stock are all below 2^32. The view of every `Shop` is.
    pub open spec fn in_range(self) -> bool {
        &&& forall|i: int| 0 <= i < self.yaks.len() ==> (#[trigger] self.yaks[i]).age <= u32::MAX
        &&& self.elapsed_days <= u32::MAX
        &&& self.produced.fits()
    }

    /// Whether the shop after `days` more days can be held: the ages of the
    /// yaks that step, the days gone by and the stock all stay below 2^32.
    pub open spec fn can_advance(self, days: nat) -> bool {
        &&& forall|i: int|
            0 <= i < self.yaks.len() && (#[trigger] self.yaks[i]).is_alive() ==> self.yaks[i].age
                + days <= u32::MAX
        &&& self.elapsed_days + days <= u32::MAX
        &&& self.produced.plus(herd_yield(self.yaks, days)).fits()
    }
}

/// A herd of one yak more gives what the herd gave without it and what that
/// yak gives; so a part of a herd never gives more than the whole.
pub proof fn lemma_herd_yield_prefix(yaks: Seq<YakView>, days: nat, i: int)
    requires
        0 <= i <= yaks.len(),
    ensures
        i < yaks.len() ==> herd_yield(yaks.take(i + 1), days) == herd_yield(
            yaks.take(i),
            days,
        ).plus(yaks[i].gives(days)),
        herd_yield(yaks.take(i), days).milk <= herd_yield(yaks, days).milk,
        herd_yield(yaks.take(i), days).wool <= herd_yield(yaks, days).wool,
    decreases yaks.len() - i,
{
    if i < yaks.len() {
        assert(yaks.take(i + 1).drop_last() =~= yaks.take(i));
        lemma_herd_yield_prefix(yaks, days, i + 1);
    } else {
        assert(yaks.take(i) =~= yaks);
    }
}

/// In no days a herd gives nothing and stays as it is.
pub proof fn lemma_herd_idle(yaks: Seq<YakView>)
    ensures
        herd_yield(yaks, 0) == Tally::zero(),
        herd_after(yaks, 0) == yaks,
    decreases yaks.len(),
{
    if yaks.len() > 0 {
        lemma_herd_idle(yaks.drop_last());
    }
    assert(herd_after(yaks, 0) =~= yaks);
}

/// Letting no days go by changes nothing: the herd, the stock and the days
/// gone by all stay as they are, and this can be done in any shop.
pub proof fn lemma_advance_zero(shop: ShopView)
    ensures
        shop.advance(0) == shop,
        shop.in_range() ==> shop.can_advance(0),
{
    lemma_herd_idle(shop.yaks);
}

/// Letting days go by never takes anything back: the herd keeps its yaks,
/// their names and their order, the dead among them too; no yak gets
/// younger; and neither the days gone by nor the stock get less.
pub proof fn lemma_advance_only_adds(shop: ShopView, days: nat)
    ensures
        shop.advance(days).yaks.len() == shop.yaks.len(),
        forall|i: int|
            0 <= i < shop.yaks.len() ==> {
                &&& (#[trigger] shop.advance(days).yaks[i]).name == shop.yaks[i].name
                &&& shop.advance(days).yaks[i].age >= shop.yaks[i].age
                &&& shop.advance(days).yaks[i].age_last_shaved >= shop.yaks[i].age_last_shaved
                &&& !shop.yaks[i].is_alive() ==> shop.advance(days).yaks[i] == shop.yaks[i]
            },
        shop.advance(days).elapsed_days == shop.elapsed_days + days,
        shop.advance(days).produced.milk >= shop.produced.milk,
        shop.advance(days).produced.wool >= shop.produced.wool,
{
    assert forall|i: int| 0 <= i < shop.yaks.len() implies {
        &&& (#[trigger] shop.advance(days).yaks[i]).name == shop.yaks[i].name
        &&& shop.advance(days).yaks[i].age >= shop.yaks[i].age
        &&& shop.advance(days).yaks[i].age_last_shaved >= shop.yaks[i].age_last_shaved
        &&& !shop.yaks[i].is_alive() ==> shop.advance(days).yaks[i] == shop.yaks[i]
    } by {
        lemma_grow_facts(shop.yaks[i].age, shop.yaks[i].age_last_shaved, days);
    }
}

/// Days add up for a shop as they do for a yak: letting `first` days go by
/// and then `then` more leaves the same shop as letting `first + then` go by
/// at once, as long as no yak dies in the first days and is asked to step
/// again.
pub proof fn lemma_advance_additive(shop: ShopView, first: nat, then: nat)
    requires
        then > 0 ==> forall|i: int|
            0 <= i < shop.yaks.len() && (#[trigger] shop.yaks[i]).is_alive() ==> shop.yaks[i].age
                + first < MAX_YAK_AGE,
    ensures
        shop.advance(first).advance(then) == shop.advance(first + then),
{
    lemma_herd_additive(shop.yaks, first, then);
    assert(shop.advance(first).advance(then).yaks =~= shop.advance(first + then).yaks) by {
        assert forall|i: int| 0 <= i < shop.yaks.len() implies shop.yaks[i].after(first).after(then)
            == shop.yaks[i].after(first + then) by {
            lemma_step_days_additive(shop.yaks[i], first, then);
        }
    }
}

/// What a herd gives in `first` days and what the herd they leave gives in
/// `then` more is what the herd gives in `first + then` days, as long as no
/// yak dies in the first days and is asked to step again.
pub proof fn lemma_herd_additive(yaks: Seq<YakView>, first: nat, then: nat)
    requires
        then > 0 ==> forall|i: int|
            0 <= i < yaks.len() && (#[trigger] yaks[i]).is_alive() ==> yaks[i].age + first
                < MAX_YAK_AGE,
    ensures
        herd_yield(yaks, first).plus(herd_yield(herd_after(yaks, first), then)) == herd_yield(
            yaks,
            first + then,
        ),
    decreases yaks.len(),
{
    if yaks.len() > 0 {
        let rest = yaks.drop_last();
        assert forall|i: int| 0 <= i < rest.len() && (#[trigger] rest[i]).is_alive() implies rest[i].age
            + first < MAX_YAK_AGE || then == 0 by {
            assert(rest[i] == yaks[i]);
        }
        lemma_herd_additive(rest, first, then);
        lemma_step_days_additive(yaks.last(), first, then);
        assert(herd_after(yaks, first).drop_last() =~= herd_after(rest, first));
        assert(herd_after(yaks, first).last() == yaks.last().after(first));
    }
}

/// What a herd gives is bounded by its size: no yak gives more milk than a
/// newborn gives in its whole life, nor more skins than days go by.
pub proof fn lemma_herd_yield_bounds(yaks: Seq<YakView>, days: nat)
    ensures
        herd_yield(yaks, days).milk <= 4_169_167 * yaks.len(),
        herd_yield(yaks, days).wool <= days * yaks.len(),
    decreases yaks.len(),
{
    if yaks.len() > 0 {
        lemma_herd_yield_bounds(yaks.drop_last(), days);
        let last = yaks.last();
        lemma_grow_facts(last.age, last.age_last_shaved, days);
        assert(days * (yaks.len() - 1) + days == days * yaks.len()) by (nonlinear_arith);
    }
}

/// Two herds side by side give what each gives alone, so the order in which
/// the yaks of a herd are asked does not change the sum.
pub proof fn lemma_herd_yield_concat(first: Seq<YakView>, second: Seq<YakView>, days: nat)
    ensures
        herd_yield(first + second, days) == herd_yield(first, days).plus(herd_yield(second, days)),
        herd_yield(first + second, days) == herd_yield(second + first, days),
    decreases second.len(), first.len(),
{
    lemma_herd_yield_concat_ordered(first, second, days);
    lemma_herd_yield_concat_ordered(second, first, days);
}

proof fn lemma_herd_yield_concat_ordered(first: Seq<YakView>, second: Seq<YakView>, days: nat)
    ensures
        herd_yield(first + second, days) == herd_yield(first, days).plus(herd_yield(second, days)),
    decreases second.len(),
{
    if second.len() == 0 {
        assert(first + second =~= first);
    } else {
        lemma_herd_yield_concat_ordered(first, second.drop_last(), days);
        assert((first + second).drop_last() =~= first + second.drop_last());
    }
}

/// A herd of yaks and the stock they have produced.
#[derive(Debug)]
pub struct Shop {
    yaks: Vec<Yak>,
    /// The days that have gone by since the shop was set up.
    pub elapsed_days: u32,
    /// Everything the herd has produced in those days.
    pub produced_products: Products,
}

impl View for Shop {
    type V = ShopView;

    closed spec fn view(&self) -> ShopView {
        ShopView {
            yaks: Seq::new(self.yaks@.len(), |i: int| self.yaks@[i]@),
            elapsed_days: self.elapsed_days as nat,
            produced: self.produced_products@,
        }
    }
}

impl Default for Shop {
    /// A shop without a herd, on day 0 and with nothing in stock.
    fn default() -> (shop: Shop)
        ensures
            shop@ == (ShopView {
                yaks: Seq::<YakView>::empty(),
                elapsed_days: 0,
                produced: Tally::zero(),
            }),
    {
        let shop = Shop::new(Vec::new());
        assert(shop@.yaks =~= Seq::<YakView>::empty());
        shop
    }
}

impl Clone for Shop {
    /// A shop of its own with the same herd, days and stock: what is done to
    /// the one leaves the other as it is.
    fn clone(&self) -> (copy: Shop)
        ensures
            copy@ == self@,
    {
        let mut yaks: Vec<Yak> = Vec::new();
        let n: usize = self.yaks.len();
        for i in 0..n
            invariant
                n == self.yaks@.len(),
                yaks@.len() == i,
                forall|j: int| 0 <= j < i ==> (#[trigger] yaks@[j])@ == self.yaks@[j]@,
        {
            yaks.push(self.yaks[i].clone());
        }
        let copy = Shop {
            yaks,
            elapsed_days: self.elapsed_days,
            produced_products: self.produced_products,
        };
        assert(copy@.yaks =~= self@.yaks);
        copy
    }
}

impl Shop {
    /// A shop with the given herd, on day 0 and with nothing in stock.
    pub fn new(yaks: Vec<Yak>) -> (shop: Shop)
        ensures
            shop@ == (ShopView {
                yaks: Seq::new(yaks@.len(), |i: int| yaks@[i]@),
                elapsed_days: 0,
                produced: Tally::zero(),
            }),
    {
        Shop { yaks, elapsed_days: 0, produced_products: Products::default() }
    }

    /// A shop with the herd that the entries describe, on day 0 and with
    /// nothing in stock. Each entry is a name and an age, given as the bit
    /// pattern of a binary64 number of years. Where an age is refused there
    /// is no shop at all: the error names the first such entry and says why
    /// its age is refused.
    pub fn from_herd(entries: &Vec<(String, u64)>) -> (shop: Result<Shop, RefusedEntry>)
        ensures
            match shop {
                Ok(s) => {
                    &&& forall|i: int|
                        0 <= i < entries@.len() ==> (#[trigger] days_of_float_years(entries@[i].1)) is Ok
                    &&& s@ == (ShopView {
                        yaks: herd_of_entries(entries@),
                        elapsed_days: 0,
                        produced: Tally::zero(),
                    })
                },
                Err(refused) => {
                    &&& refused.index < entries@.len()
                    &&& days_of_float_years(entries@[refused.index as int].1) == Err::<u32, InvalidAge>(
                        refused.reason,
                    )
                    &&& forall|j: int|
                        0 <= j < refused.index ==> (#[trigger] days_of_float_years(entries@[j].1)) is Ok
                },
            },
    {
        let mut yaks: Vec<Yak> = Vec::new();
        let n: usize = entries.len();
        for i in 0..n
            invariant
                n == entries@.len(),
                yaks@.len() == i,
                forall|j: int| 0 <= j < i ==> (#[trigger] days_of_float_years(entries@[j].1)) is Ok,
                forall|j: int| 0 <= j < i ==> (#[trigger] yaks@[j])@ == yak_of_entry(entries@[j]),
        {
            let entry = &entries[i];
            match Yak::from_float_years(entry.0.clone(), entry.1) {
                Ok(yak) => {
                    yaks.push(yak);
                },
                Err(reason) => {
                    return Err(RefusedEntry { index: i, reason });
                },
            }
        }
        let shop = Shop::new(yaks);
        assert(shop@.yaks =~= herd_of_entries(entries@));
        Ok(shop)
    }

    /// Lets `days` days go by: every yak steps, in the order of the herd, and
    /// what the living ones give is added to the stock.
    pub fn step_days(&mut self, days: u32)
        requires
            old(self)@.can_advance(days as nat),
        ensures
            final(self)@ == old(self)@.advance(days as nat),
            days == 0 ==> final(self)@ == old(self)@,
    {
        let ghost before = self@;
        proof {
            lemma_advance_zero(before);
        }
        let n: usize = self.yaks.len();
        for i in 0..n
            invariant
                before == old(self)@,
                before.can_advance(days as nat),
                self.yaks@.len() == n == before.yaks.len(),
                self.elapsed_days == before.elapsed_days,
                forall|j: int| 0 <= j < i ==> (#[trigger] self.yaks@[j])@ == before.yaks[j].after(days as nat),
                forall|j: int| i <= j < n ==> (#[trigger] self.yaks@[j])@ == before.yaks[j],
                self.produced_products@ == before.produced.plus(
                    herd_yield(before.yaks.take(i as int), days as nat),
                ),
        {
            proof {
                lemma_herd_yield_prefix(before.yaks, days as nat, i as int);
                lemma_herd_yield_prefix(before.yaks, days as nat, i + 1);
                assert(before.yaks[i as int].is_alive() ==> before.yaks[i as int].age + days
                    <= u32::MAX);
            }
            // Add the products if the yak is still producing products
            if let Some(products) = self.yaks[i].step_days(days) {
                self.produced_products.add_assign(products);
            }
        }
        proof {
            assert(before.yaks.take(n as int) =~= before.yaks);
            assert(self@.yaks =~= herd_after(before.yaks, days as nat));
        }
        self.elapsed_days += days;
    }

    /// Whether `step_days(days)` can be called: whether no age, nor the days
    /// gone by, nor the stock would pass 2^32 - 1.
    pub fn can_step_days(&self, days: u32) -> (can: bool)
        ensures
            can == self@.can_advance(days as nat),
    {
        if days > u32::MAX - self.elapsed_days {
            return false;
        }
        let ghost herd = self@.yaks;
        let mut milk: u64 = self.produced_products.milk_hundredths() as u64;
        let mut wool: u64 = self.produced_products.wool() as u64;
        let n: usize = self.yaks.len();
        for i in 0..n
            invariant
                herd == self@.yaks,
                n == self.yaks@.len(),
                self.elapsed_days + days <= u32::MAX,
                forall|j: int| 0 <= j < i && (#[trigger] herd[j]).is_alive() ==> herd[j].age + days <= u32::MAX,
                milk == self@.produced.milk + herd_yield(herd.take(i as int), days as nat).milk,
                wool == self@.produced.wool + herd_yield(herd.take(i as int), days as nat).wool,
                milk <= u32::MAX,
                wool <= u32::MAX,
        {
            proof {
                lemma_herd_yield_prefix(herd, days as nat, i as int);
                lemma_herd_yield_prefix(herd, days as nat, i + 1);
            }
            let yak = &self.yaks[i];
            assert(yak@ == herd[i as int]);
            if yak.is_alive() {
                if days > u32::MAX - yak.age() {
                    return false;
                }
                let mut forecast = yak.clone();
                if let Some(products) = forecast.step_days(days) {
                    milk += products.milk_hundredths() as u64;
                    wool += products.wool() as u64;
                }
                if milk > u32::MAX as u64 || wool > u32::MAX as u64 {
                    return false;
                }
            }
        }
        proof {
            assert(herd.take(n as int) =~= herd);
        }
        true
    }

    /// Lets `days` days go by where that can be done, and says whether it
    /// was; where it cannot, the shop stays as it is.
    pub fn checked_step_days(&mut self, days: u32) -> (stepped: bool)
        ensures
            stepped == old(self)@.can_advance(days as nat),
            stepped ==> final(self)@ == old(self)@.advance(days as nat),
            !stepped ==> final(self)@ == old(self)@,
    {
        if self.can_step_days(days) {
            self.step_days(days);
            true
        } else {
            false
        }
    }

    /// What of an order can be had from the stock: the milk that was asked
    /// for, in hundredths of a litre, where that much is in stock, and the
    /// skins that were asked for where that many are. Nothing is taken out.
    #[must_use]
    pub fn consume_products(&mut self, milk: Option<u32>, wool: Option<u32>) -> (consumed: (
        Option<u32>,
        Option<u32>,
    ))
        ensures
            final(self)@ == old(self)@,
            consumed.0 == match milk {
                Some(m) if old(self)@.produced.milk >= m => Some(m),
                _ => None,
            },
            consumed.1 == match wool {
                Some(w) if old(self)@.produced.wool >= w => Some(w),
                _ => None,
            },
    {
        // A naive, but working approach of product consumption
        let mut consumed_milk: Option<u32> = None;
        if let Some(milk) = milk {
            if self.produced_products.milk_hundredths() >= milk {
                consumed_milk = Some(milk);
            }
        }
        let mut consumed_wool: Option<u32> = None;
        if let Some(wool) = wool {
            if self.produced_products.wool() >= wool {
                consumed_wool = Some(wool);
            }
        }
        (consumed_milk, consumed_wool)
    }

    /// The stock and the herd as text.
    pub fn render(&self) -> (text: String)
        ensures
            text@ == self@.report(),
    {
        let mut text = String::new();
        text.append("In Stock:\n    ");
        push_decimal_thousandths(&mut text, self.produced_products.milk_hundredths());
        text.append(" liters of milk\n    ");
        push_decimal(&mut text, self.produced_products.wool());
        text.append(" skins of wool\nHerd:");
        let ghost head = text@;
        let ghost herd = self@.yaks;
        let n: usize = self.yaks.len();
        for i in 0..n
            invariant
                n == self.yaks@.len(),
                herd == self@.yaks,
                text@ == head + herd_lines(herd.take(i as int)),
        {
            text.append("\n    ");
            self.yaks[i].write_line(&mut text);
            proof {
                assert(herd.take(i + 1).drop_last() =~= herd.take(i as int));
                assert(herd.take(i + 1).last() == self.yaks@[i as int]@);
                assert(text@ =~= head + herd_lines(herd.take(i + 1)));
            }
        }
        proof {
            assert(herd.take(n as int) =~= herd);
            assert(text@ =~= self@.report());
        }
        text
    }

    /// The days that have gone by since the shop was set up.
    #[must_use]
    pub fn elapsed_days(&self) -> (days: u32)
        ensures
            days == self@.elapsed_days,
    {
        self.elapsed_days
    }

    /// Everything the herd has produced since the shop was set up.
    #[must_use]
    pub fn produced_products(&self) -> (products: Products)
        ensures
            products@ == self@.produced,
    {
        self.produced_products
    }

    /// The view of a shop is one that a shop can hold.
    pub proof fn lemma_view_in_range(&self)
        ensures
            self@.in_range(),
    {
        self.produced_products.lemma_view_fits();
        assert forall|i: int| 0 <= i < self@.yaks.len() implies (#[trigger] self@.yaks[i]).age
            <= u32::MAX by {
            self.yaks@[i].lemma_view_in_range();
        }
    }

    /// The herd, in the order in which it was given.
    #[must_use]
    pub fn yaks(&self) -> (yaks: &[Yak])
        ensures
            yaks@.len() == self@.yaks.len(),
            forall|i: int| 0 <= i < yaks@.len() ==> (#[trigger] yaks@[i])@ == self@.yaks[i],
    {
        self.yaks.as_slice()
    }
}

} // verus!
