//! The records that the store keeps.

use vstd::prelude::*;
use crate::text::same_text;

verus! {

/// An amount of money: the bit pattern of a binary64 number.
#[derive(Debug, Clone, Copy, PartialEq, Eq, Structural)]
pub struct Amount {
    pub bits: u64,
}

/// One line of a category table: a category and its amount.
pub struct CategoryEntry {
    pub name: String,
    pub amount: Amount,
}

/// A table from category names to amounts, such as the sources of income of
/// a tax return. No name occurs twice; the order of the lines carries no
/// meaning.
pub struct CategoryMap {
    entries: Vec<CategoryEntry>,
}

/// No two lines of `entries` have the same name.
pub open spec fn distinct_names(entries: Seq<CategoryEntry>) -> bool {
    forall|i: int, j: int|
        0 <= i < j < entries.len() ==> (#[trigger] entries[i]).name@ != (#[trigger] entries[j]).name@
}

/// The table that the lines of `entries` make up, a later line replacing an
/// earlier one of the same name.
pub open spec fn table_of(entries: Seq<CategoryEntry>) -> Map<Seq<char>, Amount>
    decreases entries.len(),
{
    if entries.len() == 0 {
        Map::empty()
    } else {
        table_of(entries.drop_last()).insert(entries.last().name@, entries.last().amount)
    }
}

/// A name that no line has is not in the table.
pub proof fn lemma_table_lacks(entries: Seq<CategoryEntry>, name: Seq<char>)
    requires
        forall|i: int| 0 <= i < entries.len() ==> (#[trigger] entries[i]).name@ != name,
    ensures
        !table_of(entries).dom().contains(name),
    decreases entries.len(),
{
    if entries.len() > 0 {
        let rest = entries.drop_last();
        assert forall|i: int| 0 <= i < rest.len() implies (#[trigger] rest[i]).name@ != name by {
            assert(rest[i] == entries[i]);
        }
        lemma_table_lacks(rest, name);
        assert(entries.last() == entries[entries.len() - 1]);
    }
}

/// Where names are distinct, the table maps the name of each line to the
/// amount of that line.
pub proof fn lemma_table_holds(entries: Seq<CategoryEntry>, i: int)
    requires
        distinct_names(entries),
        0 <= i < entries.len(),
    ensures
        table_of(entries).dom().contains(entries[i].name@),
        table_of(entries)[entries[i].name@] == entries[i].amount,
    decreases entries.len(),
{
    let rest = entries.drop_last();
    if i < entries.len() - 1 {
        assert forall|a: int, b: int| 0 <= a < b < rest.len() implies (#[trigger] rest[a]).name@ != (
        #[trigger] rest[b]).name@ by {
            assert(rest[a] == entries[a]);
            assert(rest[b] == entries[b]);
        }
        lemma_table_holds(rest, i);
        assert(rest[i] == entries[i]);
        assert(entries.last() == entries[entries.len() - 1]);
    }
}

/// Where names are distinct, the table has as many names as there are lines.
pub proof fn lemma_table_len(entries: Seq<CategoryEntry>)
    requires
        distinct_names(entries),
    ensures
        table_of(entries).dom().finite(),
        table_of(entries).dom().len() == entries.len(),
    decreases entries.len(),
{
    if entries.len() > 0 {
        let rest = entries.drop_last();
        let last = entries.last();
        assert forall|a: int, b: int| 0 <= a < b < rest.len() implies (#[trigger] rest[a]).name@ != (
        #[trigger] rest[b]).name@ by {
            assert(rest[a] == entries[a]);
            assert(rest[b] == entries[b]);
        }
        lemma_table_len(rest);
        assert forall|i: int| 0 <= i < rest.len() implies (#[trigger] rest[i]).name@ != last.name@ by {
            assert(rest[i] == entries[i]);
            assert(last == entries[entries.len() - 1]);
        }
        lemma_table_lacks(rest, last.name@);
    }
}

/// Replacing the amount of the line that bears a name puts the new amount
/// under that name, and changes nothing else.
pub proof fn lemma_table_update(entries: Seq<CategoryEntry>, i: int, entry: CategoryEntry)
    requires
        distinct_names(entries),
        0 <= i < entries.len(),
        entries[i].name@ == entry.name@,
    ensures
        table_of(entries.update(i, entry)) == table_of(entries).insert(entry.name@, entry.amount),
    decreases entries.len(),
{
    let rest = entries.drop_last();
    let updated = entries.update(i, entry);
    if i == entries.len() - 1 {
        assert(updated.drop_last() == rest);
        assert(updated.last() == entry);
        assert(entries.last() == entries[i]);
        assert(table_of(updated) == table_of(rest).insert(entry.name@, entry.amount));
        assert(table_of(entries) == table_of(rest).insert(entry.name@, entries[i].amount));
        assert(table_of(updated) == table_of(entries).insert(entry.name@, entry.amount));
    } else {
        assert forall|a: int, b: int| 0 <= a < b < rest.len() implies (#[trigger] rest[a]).name@ != (
        #[trigger] rest[b]).name@ by {
            assert(rest[a] == entries[a]);
            assert(rest[b] == entries[b]);
        }
        lemma_table_update(rest, i, entry);
        assert(rest[i] == entries[i]);
        assert(entries.last() == entries[entries.len() - 1]);
        assert(entries.last().name@ != entry.name@);
        assert(updated.drop_last() == rest.update(i, entry));
        assert(updated.last() == entries.last());
        assert(table_of(updated) == table_of(entries).insert(entry.name@, entry.amount));
    }
}

impl View for CategoryMap {
    type V = Map<Seq<char>, Amount>;

    /// The table: each name with its amount.
    closed spec fn view(&self) -> Map<Seq<char>, Amount> {
        table_of(self.entries@)
    }
}

impl CategoryMap {
    #[verifier::type_invariant]
    spec fn well_formed(&self) -> bool {
        distinct_names(self.entries@)
    }

    /// The empty table.
    pub fn new() -> (table: CategoryMap)
        ensures
            table@ == Map::<Seq<char>, Amount>::empty(),
    {
        CategoryMap { entries: Vec::new() }
    }

    /// The line that bears `name`, if there is one.
    fn position(&self, name: &str) -> (found: Option<usize>)
        ensures
            match found {
                Some(i) => i < self.entries@.len() && self.entries@[i as int].name@ == name@,
                None => forall|i: int|
                    0 <= i < self.entries@.len() ==> (#[trigger] self.entries@[i]).name@ != name@,
            },
    {
        let mut i: usize = 0;
        while i < self.entries.len()
            invariant
                i <= self.entries@.len(),
                forall|k: int| 0 <= k < i ==> (#[trigger] self.entries@[k]).name@ != name@,
            decreases self.entries@.len() - i,
        {
            if same_text(self.entries[i].name.as_str(), name) {
                return Some(i);
            }
            i = i + 1;
        }
        None
    }

    /// The amount under `name`, if the table has that name.
    pub fn get(&self, name: &str) -> (amount: Option<Amount>)
        ensures
            amount == if self@.dom().contains(name@) {
                Some(self@[name@])
            } else {
                None
            },
    {
        proof {
            use_type_invariant(self);
        }
        match self.position(name) {
            Some(i) => {
                proof {
                    lemma_table_holds(self.entries@, i as int);
                }
                Some(self.entries[i].amount)
            },
            None => {
                proof {
                    lemma_table_lacks(self.entries@, name@);
                }
                None
            },
        }
    }

    /// Puts `amount` under `name`, and returns the amount that was there
    /// before, if the table had that name.
    pub fn insert(&mut self, name: String, amount: Amount) -> (previous: Option<Amount>)
        ensures
            final(self)@ == old(self)@.insert(name@, amount),
            previous == if old(self)@.dom().contains(name@) {
                Some(old(self)@[name@])
            } else {
                None
            },
    {
        proof {
            use_type_invariant(&*self);
        }
        let found = self.position(name.as_str());
        let entry = CategoryEntry { name, amount };
        let mut entries: Vec<CategoryEntry> = Vec::new();
        core::mem::swap(&mut self.entries, &mut entries);
        let previous = match found {
            Some(i) => {
                let previous = entries[i].amount;
                proof {
                    lemma_table_holds(entries@, i as int);
                    lemma_table_update(entries@, i as int, entry);
                }
                entries.set(i, entry);
                Some(previous)
            },
            None => {
                proof {
                    lemma_table_lacks(entries@, entry.name@);
                    assert(entries@.push(entry).drop_last() == entries@);
                }
                entries.push(entry);
                None
            },
        };
        self.entries = entries;
        previous
    }

    /// How many names the table has.
    pub fn len(&self) -> (n: usize)
        ensures
            self@.dom().finite(),
            n == self@.dom().len(),
    {
        proof {
            use_type_invariant(self);
            lemma_table_len(self.entries@);
        }
        self.entries.len()
    }

    /// The lines of the table, in no order that means anything: each name
    /// once, with its amount.
    pub fn entries(&self) -> (entries: &Vec<CategoryEntry>)
        ensures
            distinct_names(entries@),
            table_of(entries@) == self@,
    {
        proof {
            use_type_invariant(self);
        }
        &self.entries
    }
}

impl Default for CategoryMap {
    /// The empty table.
    fn default() -> (table: CategoryMap)
        ensures
            table@ == Map::<Seq<char>, Amount>::empty(),
    {
        CategoryMap::new()
    }
}

/// A point in time: the whole seconds since the start of 1970 in universal
/// time, not counting leap seconds, and the nanoseconds past them. Within a
/// leap second the nanoseconds run on past a thousand million.
#[derive(Debug, Clone, Copy, PartialEq, Eq, Structural)]
pub struct Timestamp {
    pub seconds: i64,
    pub nanos: u32,
}

/// A person or entity whose documents and tax returns the store keeps.
pub struct Client {
    /// The identity that the store assigned; `None` before the client is
    /// stored.
    pub client_id: Option<i64>,
    pub first_name: String,
    pub last_name: String,
    /// A sensitive identifier, kept as it was given.
    pub social_security_number: String,
    pub address: String,
    pub phone_number: String,
    pub email: String,
    /// When the store created the record.
    pub created_at: Option<Timestamp>,
    /// When the store last changed the record.
    pub updated_at: Option<Timestamp>,
}

/// What a `Client` holds.
pub ghost struct ClientView {
    pub client_id: Option<i64>,
    pub first_name: Seq<char>,
    pub last_name: Seq<char>,
    pub social_security_number: Seq<char>,
    pub address: Seq<char>,
    pub phone_number: Seq<char>,
    pub email: Seq<char>,
    pub created_at: Option<Timestamp>,
    pub updated_at: Option<Timestamp>,
}

/// What an optional string holds.
pub open spec fn optional_text(text: Option<String>) -> Option<Seq<char>> {
    match text {
        Some(text) => Some(text@),
        None => None,
    }
}

impl View for Client {
    type V = ClientView;

    open spec fn view(&self) -> ClientView {
        ClientView {
            client_id: self.client_id,
            first_name: self.first_name@,
            last_name: self.last_name@,
            social_security_number: self.social_security_number@,
            address: self.address@,
            phone_number: self.phone_number@,
            email: self.email@,
            created_at: self.created_at,
            updated_at: self.updated_at,
        }
    }
}

/// The filing of one client for one year.
pub struct TaxReturn {
    /// The identity that the store assigned; `None` before the return is
    /// stored.
    pub tax_return_id: Option<i64>,
    /// The client whose return this is.
    pub client_id: i64,
    pub tax_year: i32,
    pub filing_status: String,
    pub income_sources: CategoryMap,
    pub deductions: CategoryMap,
    pub credits: CategoryMap,
    pub taxes_paid: Amount,
    pub tax_liability: Amount,
    pub refund_or_amount_due: Amount,
    /// When the store created the record.
    pub created_at: Option<Timestamp>,
    /// When the store last changed the record.
    pub updated_at: Option<Timestamp>,
}

/// What a `TaxReturn` holds.
pub ghost struct TaxReturnView {
    pub tax_return_id: Option<i64>,
    pub client_id: i64,
    pub tax_year: i32,
    pub filing_status: Seq<char>,
    pub income_sources: Map<Seq<char>, Amount>,
    pub deductions: Map<Seq<char>, Amount>,
    pub credits: Map<Seq<char>, Amount>,
    pub taxes_paid: Amount,
    pub tax_liability: Amount,
    pub refund_or_amount_due: Amount,
    pub created_at: Option<Timestamp>,
    pub updated_at: Option<Timestamp>,
}

impl View for TaxReturn {
    type V = TaxReturnView;

    open spec fn view(&self) -> TaxReturnView {
        TaxReturnView {
            tax_return_id: self.tax_return_id,
            client_id: self.client_id,
            tax_year: self.tax_year,
            filing_status: self.filing_status@,
            income_sources: self.income_sources@,
            deductions: self.deductions@,
            credits: self.credits@,
            taxes_paid: self.taxes_paid,
            tax_liability: self.tax_liability,
            refund_or_amount_due: self.refund_or_amount_due,
            created_at: self.created_at,
            updated_at: self.updated_at,
        }
    }
}

} // verus!
