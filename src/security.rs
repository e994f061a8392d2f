use vstd::prelude::*;

verus! {

/// Largest value of a `u64`, the bound on a price per unit.
pub const PRICE_MAX: u64 = 0xffff_ffff_ffff_ffff;

/// What an entry holds: a purchase of `quantity` units on `date`, each at
/// `price_per_unit` millionths of the currency unit.
pub struct EntryModel {
    pub date: Seq<char>,
    pub quantity: u8,
    pub price_per_unit: u64,
}

/// What a security holds. Amounts of money are in millionths of the currency unit.
pub struct SecurityModel {
    pub id: u8,
    pub name: Seq<char>,
    pub quantity: u8,
    pub entries: Seq<EntryModel>,
    pub current_price_per_unit: u64,
    pub current_total_invested_value: u128,
    pub current_total_current_value: u128,
}

/// Sum of the quantities of the entries.
pub open spec fn quantity_sum(es: Seq<EntryModel>) -> nat
    decreases es.len(),
{
    if es.len() == 0 {
        0
    } else {
        quantity_sum(es.drop_last()) + es.last().quantity as nat
    }
}

/// Sum over the entries of quantity times price per unit.
pub open spec fn invested_sum(es: Seq<EntryModel>) -> nat
    decreases es.len(),
{
    if es.len() == 0 {
        0
    } else {
        invested_sum(es.drop_last()) + es.last().quantity as nat * es.last().price_per_unit as nat
    }
}

impl SecurityModel {
    /// The entries never hold more units than the running total counts.
    pub open spec fn wf(self) -> bool {
        quantity_sum(self.entries) <= self.quantity as nat
    }

    /// The security after one more entry: appended, and its quantity added to the total.
    pub open spec fn with_entry(self, e: EntryModel) -> SecurityModel {
        SecurityModel {
            entries: self.entries.push(e),
            quantity: (self.quantity + e.quantity) as u8,
            ..self
        }
    }

    /// The security with its current value recomputed: price times quantity.
    pub open spec fn with_current_recomputed(self) -> SecurityModel {
        SecurityModel {
            current_total_current_value: (self.current_price_per_unit as nat
                * self.quantity as nat) as u128,
            ..self
        }
    }

    /// The security with its invested value recomputed from its entries.
    pub open spec fn with_invested_recomputed(self) -> SecurityModel {
        SecurityModel { current_total_invested_value: invested_sum(self.entries) as u128, ..self }
    }
}

pub proof fn lemma_quantity_sum_prefix(es: Seq<EntryModel>, i: int)
    requires
        0 <= i <= es.len(),
    ensures
        quantity_sum(es.take(i)) <= quantity_sum(es),
    decreases es.len(),
{
    if i < es.len() {
        assert(es.take(i) =~= es.drop_last().take(i));
        lemma_quantity_sum_prefix(es.drop_last(), i);
    } else {
        assert(es.take(i) =~= es);
    }
}

pub proof fn lemma_invested_bound(es: Seq<EntryModel>)
    ensures
        invested_sum(es) <= quantity_sum(es) * PRICE_MAX as nat,
    decreases es.len(),
{
    if es.len() > 0 {
        lemma_invested_bound(es.drop_last());
        let q = es.last().quantity as nat;
        let p = es.last().price_per_unit as nat;
        assert(q * p <= q * PRICE_MAX as nat) by (nonlinear_arith)
            requires
                p <= PRICE_MAX as nat,
        ;
        assert((quantity_sum(es.drop_last()) + q) * PRICE_MAX as nat == quantity_sum(
            es.drop_last(),
        ) * PRICE_MAX as nat + q * PRICE_MAX as nat) by (nonlinear_arith);
    }
}

/// One purchase of a security.
#[derive(Debug)]
pub struct Entry {
    date: String,
    quantity: u8,
    price_per_unit: u64,
}

impl View for Entry {
    type V = EntryModel;

    closed spec fn view(&self) -> EntryModel {
        EntryModel { date: self.date@, quantity: self.quantity, price_per_unit: self.price_per_unit }
    }
}

impl Entry {
    pub fn new(date: String, quantity: u8, price_per_unit: u64) -> (r: Entry)
        ensures
            r@ == (EntryModel { date: date@, quantity, price_per_unit }),
    {
        Entry { date, quantity, price_per_unit }
    }
}

/// A named holding: its purchases, the running total of units, a manually set
/// current price and the two cached values derived from them.
#[derive(Debug)]
pub struct Security {
    pub id: u8,
    pub name: String,
    quantity: u8,
    entries: Vec<Entry>,
    current_price_per_unit: u64,
    current_total_invested_value: u128,
    current_total_current_value: u128,
}

impl View for Security {
    type V = SecurityModel;

    closed spec fn view(&self) -> SecurityModel {
        SecurityModel {
            id: self.id,
            name: self.name@,
            quantity: self.quantity,
            entries: self.entries@.map_values(|e: Entry| e@),
            current_price_per_unit: self.current_price_per_unit,
            current_total_invested_value: self.current_total_invested_value,
            current_total_current_value: self.current_total_current_value,
        }
    }
}

impl Security {
    pub fn new(id: u8, name: String, quantity: u8) -> (r: Security)
        ensures
            r@ == (SecurityModel {
                id,
                name: name@,
                quantity,
                entries: Seq::empty(),
                current_price_per_unit: 0,
                current_total_invested_value: 0,
                current_total_current_value: 0,
            }),
            r@.wf(),
    {
        let r = Security {
            id,
            name,
            quantity,
            entries: Vec::new(),
            current_price_per_unit: 0,
            current_total_invested_value: 0,
            current_total_current_value: 0,
        };
        assert(r@.entries =~= Seq::empty());
        r
    }

    /// Appends a purchase and adds its quantity to the running total; the
    /// cached values are left as they were.
    pub fn add_entry(&mut self, date: String, quantity: u8, price_per_unit: u64)
        requires
            old(self)@.wf(),
            old(self)@.quantity + quantity <= u8::MAX,
        ensures
            final(self)@ == old(self)@.with_entry(
                EntryModel { date: date@, quantity, price_per_unit },
            ),
            final(self)@.wf(),
    {
        let ghost before = self@;
        self.entries.push(Entry::new(date, quantity, price_per_unit));
        self.quantity = self.quantity + quantity;
        assert(self@.entries =~= before.entries.push(
            EntryModel { date: date@, quantity, price_per_unit },
        ));
        assert(self@.entries.drop_last() =~= before.entries);
    }

    pub fn update_current_price(&mut self, price_per_unit: u64)
        ensures
            final(self)@ == (SecurityModel { current_price_per_unit: price_per_unit, ..old(self)@ }),
    {
        self.current_price_per_unit = price_per_unit;
    }

    /// Whether the entries hold no more units than the running total counts.
    pub fn is_consistent(&self) -> (r: bool)
        ensures
            r == self@.wf(),
    {
        let ghost es = self@.entries;
        let mut sum: u16 = 0;
        let mut i: usize = 0;
        while i < self.entries.len()
            invariant
                i <= es.len(),
                es == self@.entries,
                sum as nat == quantity_sum(es.take(i as int)),
                sum <= self.quantity,
            decreases es.len() - i,
        {
            assert(es.take(i + 1).drop_last() =~= es.take(i as int));
            sum = sum + self.entries[i].quantity as u16;
            i = i + 1;
            if sum > self.quantity as u16 {
                proof {
                    lemma_quantity_sum_prefix(es, i as int);
                }
                return false;
            }
        }
        assert(es.take(i as int) =~= es);
        true
    }

    /// A security from stored values, if its entries hold no more units than
    /// its running total counts.
    pub fn restore(
        id: u8,
        name: String,
        quantity: u8,
        entries: Vec<Entry>,
        current_price_per_unit: u64,
        current_total_invested_value: u128,
        current_total_current_value: u128,
    ) -> (r: Option<Security>)
        ensures
            r is Some <==> quantity_sum(entries@.map_values(|e: Entry| e@)) <= quantity,
            r matches Some(s) ==> s@ == (SecurityModel {
                id,
                name: name@,
                quantity,
                entries: entries@.map_values(|e: Entry| e@),
                current_price_per_unit,
                current_total_invested_value,
                current_total_current_value,
            }),
    {
        let s = Security {
            id,
            name,
            quantity,
            entries,
            current_price_per_unit,
            current_total_invested_value,
            current_total_current_value,
        };
        if s.is_consistent() {
            Some(s)
        } else {
            None
        }
    }

    pub fn get_id(&self) -> (r: u8)
        ensures
            r == self@.id,
    {
        self.id
    }

    pub fn get_name(&self) -> (r: &String)
        ensures
            r@ == self@.name,
    {
        &self.name
    }

    pub fn get_current_price_per_unit(&self) -> (r: u64)
        ensures
            r == self@.current_price_per_unit,
    {
        self.current_price_per_unit
    }

    pub fn get_quantity(&self) -> (r: u8)
        ensures
            r == self@.quantity,
    {
        self.quantity
    }

    /// The entries in the order they were added, as (date, quantity, price per unit).
    pub fn get_entries(&self) -> (r: Vec<(String, u8, u64)>)
        ensures
            r@.len() == self@.entries.len(),
            forall|i: int|
                0 <= i < r@.len() ==> {
                    &&& (#[trigger] r@[i]).0@ == self@.entries[i].date
                    &&& r@[i].1 == self@.entries[i].quantity
                    &&& r@[i].2 == self@.entries[i].price_per_unit
                },
    {
        let mut r: Vec<(String, u8, u64)> = Vec::new();
        let mut i: usize = 0;
        while i < self.entries.len()
            invariant
                i <= self.entries@.len(),
                r@.len() == i,
                forall|j: int|
                    0 <= j < i ==> {
                        &&& (#[trigger] r@[j]).0@ == self@.entries[j].date
                        &&& r@[j].1 == self@.entries[j].quantity
                        &&& r@[j].2 == self@.entries[j].price_per_unit
                    },
            decreases self.entries@.len() - i,
        {
            let e = &self.entries[i];
            r.push((e.date.clone(), e.quantity, e.price_per_unit));
            i = i + 1;
        }
        r
    }

    pub fn get_total_invested_value(&self) -> (r: u128)
        ensures
            r == self@.current_total_invested_value,
    {
        self.current_total_invested_value
    }

    /// Sets the cached invested value to the sum of quantity times price over all entries.
    pub fn calculate_total_invested_value(&mut self)
        requires
            old(self)@.wf(),
        ensures
            final(self)@ == old(self)@.with_invested_recomputed(),
            final(self)@.current_total_invested_value as nat == invested_sum(old(self)@.entries),
    {
        let ghost es = self@.entries;
        proof {
            lemma_invested_bound(es);
        }
        let mut total: u128 = 0;
        let mut i: usize = 0;
        while i < self.entries.len()
            invariant
                i <= es.len(),
                es == self@.entries,
                quantity_sum(es) <= u8::MAX,
                total as nat == invested_sum(es.take(i as int)),
            decreases es.len() - i,
        {
            let e = &self.entries[i];
            proof {
                assert(es.take(i + 1).drop_last() =~= es.take(i as int));
                lemma_quantity_sum_prefix(es, i + 1);
                lemma_invested_bound(es.take(i + 1));
                assert(quantity_sum(es.take(i + 1)) * PRICE_MAX as nat <= u8::MAX as nat
                    * PRICE_MAX as nat) by (nonlinear_arith)
                    requires
                        quantity_sum(es.take(i + 1)) <= u8::MAX,
                ;
            }
            total = total + (e.quantity as u128) * (e.price_per_unit as u128);
            i = i + 1;
        }
        assert(es.take(i as int) =~= es);
        self.current_total_invested_value = total;
    }

    pub fn get_total_current_value(&self) -> (r: u128)
        ensures
            r == self@.current_total_current_value,
    {
        self.current_total_current_value
    }

    /// Sets the cached current value to the current price times the quantity.
    pub fn calculate_total_current_value(&mut self)
        ensures
            final(self)@ == old(self)@.with_current_recomputed(),
            final(self)@.current_total_current_value as nat == old(self)@.current_price_per_unit
                as nat * old(self)@.quantity as nat,
    {
        assert(self.current_price_per_unit as nat * self.quantity as nat <= PRICE_MAX as nat
            * u8::MAX as nat) by (nonlinear_arith);
        self.current_total_current_value = (self.current_price_per_unit as u128)
            * (self.quantity as u128);
    }
}

} // verus!
