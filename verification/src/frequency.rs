//! Frequency tables: for each variable, how often each value was seen
//! with each kind of missingness.

use vstd::prelude::*;
use crate::missing::Missing;

verus! {

/// One row of a variable's frequency table: a canonical value, its
/// missingness and the number of cells that held it.
pub struct Frequency {
    pub key: Seq<char>,
    pub missing: Missing,
    pub count: nat,
}

/// Whether a row is the one for this value and missingness.
pub open spec fn is_row_of(row: Frequency, key: Seq<char>, missing: Missing) -> bool {
    row.key == key && row.missing == missing
}

/// Whether the table has a row for this value and missingness.
pub open spec fn holds(rows: Seq<Frequency>, key: Seq<char>, missing: Missing) -> bool {
    exists|i: int| 0 <= i < rows.len() && is_row_of(#[trigger] rows[i], key, missing)
}

/// The place of the row for this value and missingness, where there is one.
pub open spec fn position(rows: Seq<Frequency>, key: Seq<char>, missing: Missing) -> int {
    choose|i: int| 0 <= i < rows.len() && is_row_of(#[trigger] rows[i], key, missing)
}

/// How often this value was seen with this missingness.
pub open spec fn count_of(rows: Seq<Frequency>, key: Seq<char>, missing: Missing) -> nat {
    if holds(rows, key, missing) {
        rows[position(rows, key, missing)].count
    } else {
        0
    }
}

/// The number of observations: the sum of all counts.
pub open spec fn total(rows: Seq<Frequency>) -> nat
    decreases rows.len(),
{
    if rows.len() == 0 {
        0
    } else {
        total(rows.drop_last()) + rows.last().count
    }
}

/// The number of observations that were system missing.
pub open spec fn system_missing(rows: Seq<Frequency>) -> nat
    decreases rows.len(),
{
    if rows.len() == 0 {
        0
    } else if rows.last().missing == Missing::SystemMissing {
        system_missing(rows.drop_last()) + rows.last().count
    } else {
        system_missing(rows.drop_last())
    }
}

/// Whether some value was seen at most `threshold` times.
pub open spec fn has_rare(rows: Seq<Frequency>, threshold: nat) -> bool {
    exists|i: int| 0 <= i < rows.len() && (#[trigger] rows[i]).count <= threshold
}

/// No two rows are for the same value and missingness.
pub open spec fn distinct_rows(rows: Seq<Frequency>) -> bool {
    forall|i: int, j: int|
        0 <= i < j < rows.len() ==> !is_row_of(#[trigger] rows[i], (#[trigger] rows[j]).key, rows[j].missing)
}

/// Every row stands for at least one observation.
pub open spec fn positive_rows(rows: Seq<Frequency>) -> bool {
    forall|i: int| 0 <= i < rows.len() ==> (#[trigger] rows[i]).count >= 1
}

/// The table after one more observation: the row's count goes up by one,
/// or a new row with count 1 is appended.
pub open spec fn observe(rows: Seq<Frequency>, key: Seq<char>, missing: Missing) -> Seq<Frequency> {
    if holds(rows, key, missing) {
        let i = position(rows, key, missing);
        rows.update(i, Frequency { key, missing, count: rows[i].count + 1 })
    } else {
        rows.push(Frequency { key, missing, count: 1 })
    }
}

/// A new row adds its count to the observations, and to the
/// system-missing ones if it is system missing.
pub proof fn lemma_total_push(rows: Seq<Frequency>, row: Frequency)
    ensures
        total(rows.push(row)) == total(rows) + row.count,
        system_missing(rows.push(row)) == system_missing(rows) + if row.missing
            == Missing::SystemMissing {
            row.count
        } else {
            0
        },
{
    assert(rows.push(row).drop_last() =~= rows);
}

/// Replacing a row changes the observations by the difference of the two
/// counts.
pub proof fn lemma_total_update(rows: Seq<Frequency>, i: int, row: Frequency)
    requires
        0 <= i < rows.len(),
    ensures
        total(rows.update(i, row)) + rows[i].count == total(rows) + row.count,
    decreases rows.len(),
{
    let updated = rows.update(i, row);
    if i == rows.len() - 1 {
        assert(updated.drop_last() =~= rows.drop_last());
    } else {
        assert(updated.drop_last() =~= rows.drop_last().update(i, row));
        lemma_total_update(rows.drop_last(), i, row);
    }
}

/// Replacing a row by one of the same missingness changes the
/// system-missing observations by the difference of the two counts, if the
/// rows are system missing, and not at all if they are not.
pub proof fn lemma_system_missing_update(rows: Seq<Frequency>, i: int, row: Frequency)
    requires
        0 <= i < rows.len(),
        row.missing == rows[i].missing,
    ensures
        system_missing(rows.update(i, row)) + if row.missing == Missing::SystemMissing {
            rows[i].count
        } else {
            0
        } == system_missing(rows) + if row.missing == Missing::SystemMissing {
            row.count
        } else {
            0
        },
    decreases rows.len(),
{
    let updated = rows.update(i, row);
    if i == rows.len() - 1 {
        assert(updated.drop_last() =~= rows.drop_last());
    } else {
        assert(updated.drop_last() =~= rows.drop_last().update(i, row));
        lemma_system_missing_update(rows.drop_last(), i, row);
    }
}

/// The system-missing observations are among the observations.
pub proof fn lemma_system_missing_bounded(rows: Seq<Frequency>)
    ensures
        system_missing(rows) <= total(rows),
    decreases rows.len(),
{
    if rows.len() > 0 {
        lemma_system_missing_bounded(rows.drop_last());
    }
}

/// A prefix of a table holds no more observations than the table.
pub proof fn lemma_total_prefix(rows: Seq<Frequency>, n: int)
    requires
        0 <= n <= rows.len(),
    ensures
        total(rows.take(n)) <= total(rows),
    decreases rows.len() - n,
{
    if n < rows.len() {
        lemma_total_prefix(rows, n + 1);
        assert(rows.take(n + 1).drop_last() =~= rows.take(n));
    } else {
        assert(rows.take(n) =~= rows);
    }
}

/// In a table without repeated rows, the row found for a value is the only
/// one for it.
pub proof fn lemma_position_unique(rows: Seq<Frequency>, i: int)
    requires
        distinct_rows(rows),
        0 <= i < rows.len(),
    ensures
        holds(rows, rows[i].key, rows[i].missing),
        position(rows, rows[i].key, rows[i].missing) == i,
        count_of(rows, rows[i].key, rows[i].missing) == rows[i].count,
{
    assert(is_row_of(rows[i], rows[i].key, rows[i].missing));
    let p = position(rows, rows[i].key, rows[i].missing);
    if p < i {
        assert(!is_row_of(rows[p], rows[i].key, rows[i].missing));
    } else if i < p {
        assert(!is_row_of(rows[i], rows[p].key, rows[p].missing));
    }
}

/// Each observation raises the number of observations by exactly one, and
/// keeps the table free of repeated and of empty rows.
pub proof fn lemma_observe_total(rows: Seq<Frequency>, key: Seq<char>, missing: Missing)
    ensures
        total(observe(rows, key, missing)) == total(rows) + 1,
        system_missing(observe(rows, key, missing)) == system_missing(rows) + if missing
            == Missing::SystemMissing {
            1nat
        } else {
            0nat
        },
        distinct_rows(rows) ==> distinct_rows(observe(rows, key, missing)),
        positive_rows(rows) ==> positive_rows(observe(rows, key, missing)),
{
    let after = observe(rows, key, missing);
    if holds(rows, key, missing) {
        let i = position(rows, key, missing);
        let row = Frequency { key, missing, count: rows[i].count + 1 };
        lemma_total_update(rows, i, row);
        lemma_system_missing_update(rows, i, row);
        if distinct_rows(rows) {
            assert forall|a: int, b: int| 0 <= a < b < after.len() implies !is_row_of(
                #[trigger] after[a],
                (#[trigger] after[b]).key,
                after[b].missing,
            ) by {
                assert(!is_row_of(rows[a], rows[b].key, rows[b].missing));
            }
        }
    } else {
        let row = Frequency { key, missing, count: 1 };
        lemma_total_push(rows, row);
        if distinct_rows(rows) {
            assert forall|a: int, b: int| 0 <= a < b < after.len() implies !is_row_of(
                #[trigger] after[a],
                (#[trigger] after[b]).key,
                after[b].missing,
            ) by {
                if b < rows.len() {
                    assert(!is_row_of(rows[a], rows[b].key, rows[b].missing));
                } else {
                    assert(!is_row_of(rows[a], key, missing));
                }
            }
        }
    }
}

/// Each observation raises exactly one counter by exactly one.
pub proof fn lemma_observe_count(
    rows: Seq<Frequency>,
    key: Seq<char>,
    missing: Missing,
    other_key: Seq<char>,
    other_missing: Missing,
)
    requires
        distinct_rows(rows),
    ensures
        count_of(observe(rows, key, missing), other_key, other_missing) == count_of(
            rows,
            other_key,
            other_missing,
        ) + if other_key == key && other_missing == missing {
            1nat
        } else {
            0nat
        },
{
    let after = observe(rows, key, missing);
    lemma_observe_total(rows, key, missing);
    let same = other_key == key && other_missing == missing;
    if holds(rows, key, missing) {
        let i = position(rows, key, missing);
        lemma_position_unique(rows, i);
        assert(after.len() == rows.len());
        lemma_position_unique(after, i);
        if holds(rows, other_key, other_missing) {
            let j = position(rows, other_key, other_missing);
            lemma_position_unique(rows, j);
            assert(is_row_of(after[j], other_key, other_missing));
            lemma_position_unique(after, j);
        } else if holds(after, other_key, other_missing) {
            let j = position(after, other_key, other_missing);
            assert(is_row_of(rows[j], other_key, other_missing));
        }
    } else {
        let n = rows.len() as int;
        assert(after[n] == Frequency { key, missing, count: 1 });
        lemma_position_unique(after, n);
        if holds(rows, other_key, other_missing) {
            let j = position(rows, other_key, other_missing);
            lemma_position_unique(rows, j);
            assert(is_row_of(after[j], other_key, other_missing));
            lemma_position_unique(after, j);
        } else if holds(after, other_key, other_missing) {
            let j = position(after, other_key, other_missing);
            if j < n {
                assert(is_row_of(rows[j], other_key, other_missing));
            }
        }
    }
}

/// One row of a variable's frequency table.
#[derive(Debug)]
pub struct FrequencyEntry {
    pub key: String,
    pub missing: Missing,
    pub count: u64,
}

impl View for FrequencyEntry {
    type V = Frequency;

    open spec fn view(&self) -> Frequency {
        Frequency { key: self.key@, missing: self.missing, count: self.count as nat }
    }
}

/// The rows that a list of entries stands for.
pub open spec fn rows_of(entries: Seq<FrequencyEntry>) -> Seq<Frequency> {
    Seq::new(entries.len(), |i: int| entries[i]@)
}

/// The frequency table of one variable. Rows stay in the order in which
/// their values were first seen.
#[derive(Debug)]
pub struct SubTable {
    entries: Vec<FrequencyEntry>,
    observations: u64,
}

impl View for SubTable {
    type V = Seq<Frequency>;

    closed spec fn view(&self) -> Seq<Frequency> {
        rows_of(self.entries@)
    }
}

impl SubTable {
    /// No value has two rows, no row is empty, and the running number of
    /// observations is the sum of the counts.
    #[verifier::type_invariant]
    pub closed spec fn well_formed(self) -> bool {
        &&& distinct_rows(self@)
        &&& positive_rows(self@)
        &&& self.observations == total(self@)
    }

    /// What `well_formed` says, over the view.
    pub proof fn lemma_well_formed(self)
        requires
            self.well_formed(),
        ensures
            distinct_rows(self@),
            positive_rows(self@),
            total(self@) <= u64::MAX,
    {
    }

    pub fn new() -> (table: SubTable)
        ensures
            table@ == Seq::<Frequency>::empty(),
    {
        let table = SubTable { entries: Vec::new(), observations: 0 };
        assert(table@ =~= Seq::<Frequency>::empty());
        table
    }

    /// Counts one more observation of `key` with `missing`.
    pub fn observe(&mut self, key: String, missing: Missing)
        requires
            total(old(self)@) < u64::MAX,
        ensures
            final(self)@ == observe(old(self)@, key@, missing),
            total(final(self)@) == total(old(self)@) + 1,
    {
        proof {
            use_type_invariant(&*self);
        }
        let ghost before = self@;
        let mut taken = SubTable { entries: Vec::new(), observations: 0 };
        assert(taken@ =~= Seq::<Frequency>::empty());
        core::mem::swap(self, &mut taken);
        let SubTable { mut entries, observations } = taken;
        assert(rows_of(entries@) == before);
        let mut i: usize = 0;
        while i < entries.len()
            invariant
                i <= entries.len(),
                rows_of(entries@) == before,
                forall|j: int| 0 <= j < i ==> !is_row_of(#[trigger] before[j], key@, missing),
            ensures
                i <= entries.len(),
                rows_of(entries@) == before,
                i < entries.len() ==> is_row_of(before[i as int], key@, missing),
                i == entries.len() ==> !holds(before, key@, missing),
            decreases entries.len() - i,
        {
            assert(before[i as int] == entries[i as int]@);
            if entries[i].missing == missing && entries[i].key == key {
                break ;
            }
            i += 1;
        }
        proof {
            lemma_observe_total(before, key@, missing);
        }
        if i < entries.len() {
            proof {
                assert(before[i as int] == entries[i as int]@);
                assert(is_row_of(before[i as int], key@, missing));
                lemma_position_unique(before, i as int);
                lemma_total_prefix(before, i as int + 1);
                assert(before.take(i as int + 1).drop_last() =~= before.take(i as int));
            }
            let count = entries[i].count;
            entries.set(i, FrequencyEntry { key, missing, count: count + 1 });
            assert(rows_of(entries@) =~= observe(before, key@, missing));
        } else {
            assert(!holds(before, key@, missing));
            entries.push(FrequencyEntry { key, missing, count: 1 });
            assert(rows_of(entries@) =~= observe(before, key@, missing));
        }
        *self = SubTable { entries, observations: observations + 1 };
    }

    /// The number of observations of this variable.
    pub fn row_count(&self) -> (n: u64)
        ensures
            n == total(self@),
    {
        proof {
            use_type_invariant(self);
        }
        self.observations
    }

    /// The number of distinct values seen, each kind of missingness apart.
    pub fn distinct(&self) -> (n: usize)
        ensures
            n == self@.len(),
    {
        self.entries.len()
    }

    /// The row at `position`, in order of first appearance.
    pub fn entry(&self, position: usize) -> (entry: &FrequencyEntry)
        requires
            position < self@.len(),
        ensures
            entry@ == self@[position as int],
    {
        &self.entries[position]
    }

    /// How often `key` was seen with `missing`.
    pub fn count_of(&self, key: &str, missing: Missing) -> (n: u64)
        ensures
            n == count_of(self@, key@, missing),
    {
        proof {
            use_type_invariant(self);
        }
        let wanted = key.to_owned();
        let mut i: usize = 0;
        while i < self.entries.len()
            invariant
                i <= self.entries.len(),
                wanted@ == key@,
                self@.len() == self.entries.len(),
                distinct_rows(self@),
                forall|j: int| 0 <= j < i ==> !is_row_of(#[trigger] self@[j], key@, missing),
            decreases self.entries.len() - i,
        {
            if self.entries[i].missing == missing && self.entries[i].key == wanted {
                proof {
                    assert(is_row_of(self@[i as int], key@, missing));
                    lemma_position_unique(self@, i as int);
                }
                return self.entries[i].count;
            }
            i += 1;
        }
        0
    }

    /// The number of observations that were system missing.
    pub fn system_missing_count(&self) -> (n: u64)
        ensures
            n == system_missing(self@),
            n <= total(self@),
    {
        proof {
            use_type_invariant(self);
            lemma_system_missing_bounded(self@);
        }
        let mut n: u64 = 0;
        let mut i: usize = 0;
        while i < self.entries.len()
            invariant
                i <= self.entries.len(),
                self@.len() == self.entries.len(),
                total(self@) <= u64::MAX,
                n == system_missing(self@.take(i as int)),
            decreases self.entries.len() - i,
        {
            proof {
                let next = self@.take(i as int + 1);
                assert(next.drop_last() =~= self@.take(i as int));
                assert(next.last() == self.entries[i as int]@);
                lemma_system_missing_bounded(next);
                lemma_total_prefix(self@, i as int + 1);
            }
            if self.entries[i].missing == Missing::SystemMissing {
                n = n + self.entries[i].count;
            }
            i += 1;
        }
        assert(self@.take(i as int) =~= self@);
        n
    }

    /// Whether some value was seen at most `threshold` times.
    pub fn has_count_at_most(&self, threshold: u64) -> (found: bool)
        ensures
            found == has_rare(self@, threshold as nat),
    {
        let mut i: usize = 0;
        while i < self.entries.len()
            invariant
                i <= self.entries.len(),
                self@.len() == self.entries.len(),
                forall|j: int| 0 <= j < i ==> (#[trigger] self@[j]).count > threshold,
            decreases self.entries.len() - i,
        {
            if self.entries[i].count <= threshold {
                assert(self@[i as int].count <= threshold);
                return true;
            }
            i += 1;
        }
        false
    }
}

/// The frequency table of the variable with the given index, counted from
/// 1; empty where nothing was seen of it.
pub open spec fn sub_table_of(tables: Seq<Seq<Frequency>>, variable_index: int) -> Seq<Frequency> {
    if 1 <= variable_index <= tables.len() {
        tables[variable_index - 1]
    } else {
        Seq::empty()
    }
}

/// The tables, with empty ones added so that there is one for
/// `variable_index`.
pub open spec fn grown_to(tables: Seq<Seq<Frequency>>, variable_index: int) -> Seq<Seq<Frequency>> {
    if tables.len() >= variable_index {
        tables
    } else {
        tables + Seq::new((variable_index - tables.len()) as nat, |i: int| Seq::<Frequency>::empty())
    }
}

/// The tables after one more observation of a variable.
pub open spec fn observe_in(
    tables: Seq<Seq<Frequency>>,
    variable_index: int,
    key: Seq<char>,
    missing: Missing,
) -> Seq<Seq<Frequency>>
    recommends
        variable_index >= 1,
{
    let grown = grown_to(tables, variable_index);
    grown.update(variable_index - 1, observe(grown[variable_index - 1], key, missing))
}

/// One observation raises the number of observations of its variable by
/// one and leaves the tables of all other variables as they were.
pub proof fn lemma_observe_in(
    tables: Seq<Seq<Frequency>>,
    variable_index: int,
    key: Seq<char>,
    missing: Missing,
    other: int,
)
    requires
        variable_index >= 1,
    ensures
        total(sub_table_of(observe_in(tables, variable_index, key, missing), variable_index))
            == total(sub_table_of(tables, variable_index)) + 1,
        sub_table_of(observe_in(tables, variable_index, key, missing), variable_index) == observe(
            sub_table_of(tables, variable_index),
            key,
            missing,
        ),
        other != variable_index ==> sub_table_of(
            observe_in(tables, variable_index, key, missing),
            other,
        ) == sub_table_of(tables, other),
{
    lemma_observe_total(sub_table_of(tables, variable_index), key, missing);
}

/// The frequency tables of a dataset, one for each variable, in index
/// order.
#[derive(Debug)]
pub struct FrequencyTable {
    tables: Vec<SubTable>,
}

impl View for FrequencyTable {
    type V = Seq<Seq<Frequency>>;

    closed spec fn view(&self) -> Seq<Seq<Frequency>> {
        Seq::new(self.tables.len() as nat, |i: int| self.tables[i]@)
    }
}

impl FrequencyTable {
    pub fn new() -> (table: FrequencyTable)
        ensures
            table@ == Seq::<Seq<Frequency>>::empty(),
    {
        let table = FrequencyTable { tables: Vec::new() };
        assert(table@ =~= Seq::<Seq<Frequency>>::empty());
        table
    }

    /// The number of variables that have a table.
    pub fn len(&self) -> (n: usize)
        ensures
            n == self@.len(),
    {
        self.tables.len()
    }

    /// Makes sure that the variable with this index has a table, adding
    /// empty ones up to it.
    pub fn reserve(&mut self, variable_index: i32)
        ensures
            final(self)@ == grown_to(old(self)@, variable_index as int),
    {
        let ghost before = self@;
        if variable_index >= 1 {
            while self.tables.len() < variable_index as usize
                invariant
                    variable_index >= 1,
                    before.len() <= self@.len(),
                    self@.len() <= before.len() || self@.len() <= variable_index,
                    self@.len() == self.tables.len(),
                    forall|i: int| 0 <= i < before.len() ==> self@[i] == before[i],
                    forall|i: int| before.len() <= i < self@.len() ==> self@[i] == Seq::<Frequency>::empty(),
                decreases variable_index - self.tables.len(),
            {
                let ghost previous = self@;
                self.tables.push(SubTable::new());
                assert(self@ =~= previous.push(Seq::<Frequency>::empty()));
            }
        }
        assert(self@ =~= grown_to(before, variable_index as int));
    }

    /// Counts one more observation of `key` with `missing` for the variable
    /// with this index, counted from 1. The variable's table is created if
    /// it has none yet.
    pub fn observe(&mut self, variable_index: i32, key: String, missing: Missing)
        requires
            variable_index >= 1,
            total(sub_table_of(old(self)@, variable_index as int)) < u64::MAX,
        ensures
            final(self)@ == observe_in(old(self)@, variable_index as int, key@, missing),
            total(sub_table_of(final(self)@, variable_index as int)) == total(
                sub_table_of(old(self)@, variable_index as int),
            ) + 1,
            forall|other: int|
                other != variable_index ==> sub_table_of(final(self)@, other) == sub_table_of(
                    old(self)@,
                    other,
                ),
    {
        let ghost before = self@;
        self.reserve(variable_index);
        let ghost grown = self@;
        let at: usize = (variable_index - 1) as usize;
        assert(grown.len() == self.tables.len());
        assert(grown[at as int] == sub_table_of(before, variable_index as int));
        assert(self.tables[at as int]@ == grown[at as int]);
        self.tables[at].observe(key, missing);
        assert(self@ =~= observe_in(before, variable_index as int, key@, missing));
        assert forall|other: int| other != variable_index implies sub_table_of(self@, other)
            == sub_table_of(before, other) by {
            if 1 <= other <= self@.len() {
                assert(self@[other - 1] == grown[other - 1]);
            }
        }
    }

    /// The table of the variable with this index, if it has one.
    pub fn sub_table(&self, variable_index: i32) -> (found: Option<&SubTable>)
        ensures
            1 <= variable_index <= self@.len() ==> found is Some && found->0@ == self@[variable_index
                - 1],
            !(1 <= variable_index <= self@.len()) ==> found is None,
            found is Some ==> found->0@ == sub_table_of(self@, variable_index as int),
    {
        if variable_index >= 1 && ((variable_index - 1) as usize) < self.tables.len() {
            Some(&self.tables[(variable_index - 1) as usize])
        } else {
            None
        }
    }

    /// The number of observations of the variable with this index.
    pub fn row_count(&self, variable_index: i32) -> (n: u64)
        ensures
            n == total(sub_table_of(self@, variable_index as int)),
    {
        match self.sub_table(variable_index) {
            Some(table) => table.row_count(),
            None => 0,
        }
    }
}

} // verus!
