//! The report: file metadata and, for each check that ran, its tallies and
//! the locators of what it found.

use vstd::prelude::*;

verus! {

/// Points at the data that made a check fail.
#[derive(Debug, PartialEq, Eq)]
pub struct Locator {
    pub variable_name: String,
    /// Index of the variable, counted from 1.
    pub variable_index: i32,
    /// Index of the row, counted from 1; -1 where no single row is meant.
    pub value_index: i32,
    pub reason: Option<String>,
}

/// What a [`Locator`] holds, as mathematical values.
pub struct LocatorView {
    pub variable_name: Seq<char>,
    pub variable_index: i32,
    pub value_index: i32,
    pub reason: Option<Seq<char>>,
}

/// The text of an optional string.
pub open spec fn optional_text(text: Option<String>) -> Option<Seq<char>> {
    match text {
        Some(t) => Some(t@),
        None => None,
    }
}

impl View for Locator {
    type V = LocatorView;

    open spec fn view(&self) -> LocatorView {
        LocatorView {
            variable_name: self.variable_name@,
            variable_index: self.variable_index,
            value_index: self.value_index,
            reason: optional_text(self.reason),
        }
    }
}

fn clone_optional(text: &Option<String>) -> (copy: Option<String>)
    ensures
        optional_text(copy) == optional_text(*text),
{
    match text {
        Some(t) => Some(t.clone()),
        None => None,
    }
}

impl Clone for Locator {
    fn clone(&self) -> (copy: Locator)
        ensures
            copy@ == self@,
    {
        Locator {
            variable_name: self.variable_name.clone(),
            variable_index: self.variable_index,
            value_index: self.value_index,
            reason: clone_optional(&self.reason),
        }
    }
}

impl Locator {
    /// Whether two locators agree in all four fields.
    pub fn same_as(&self, other: &Locator) -> (same: bool)
        ensures
            same == (self@ == other@),
    {
        let same_reason = match (&self.reason, &other.reason) {
            (Some(a), Some(b)) => *a == *b,
            (None, None) => true,
            _ => false,
        };
        same_reason && self.variable_index == other.variable_index && self.value_index
            == other.value_index && self.variable_name == other.variable_name
    }
}

/// No locator occurs twice.
pub open spec fn distinct_locators(locators: Seq<LocatorView>) -> bool {
    forall|i: int, j: int| 0 <= i < j < locators.len() ==> locators[i] != locators[j]
}

/// The locators with one more added, unless it is among them already.
pub open spec fn with_locator(locators: Seq<LocatorView>, locator: LocatorView) -> Seq<LocatorView> {
    if locators.contains(locator) {
        locators
    } else {
        locators.push(locator)
    }
}

/// Adding a locator a second time changes nothing: the set holds it once.
pub proof fn lemma_locator_added_once(locators: Seq<LocatorView>, locator: LocatorView)
    ensures
        with_locator(with_locator(locators, locator), locator) == with_locator(locators, locator),
        with_locator(locators, locator).contains(locator),
        with_locator(Seq::empty(), locator).len() == 1,
        distinct_locators(locators) ==> distinct_locators(with_locator(locators, locator)),
{
    let once = with_locator(locators, locator);
    if !locators.contains(locator) {
        assert(once[locators.len() as int] == locator);
        if distinct_locators(locators) {
            assert forall|i: int, j: int| 0 <= i < j < once.len() implies once[i] != once[j] by {
                if j == locators.len() {
                    assert(locators.contains(locators[i]));
                }
            }
        }
    }
    assert(!Seq::<LocatorView>::empty().contains(locator));
}

/// A set of locators that keeps them in the order in which they were first
/// added.
#[derive(Debug, PartialEq, Eq)]
pub struct LocatorSet {
    items: Vec<Locator>,
}

impl View for LocatorSet {
    type V = Seq<LocatorView>;

    closed spec fn view(&self) -> Seq<LocatorView> {
        Seq::new(self.items.len() as nat, |i: int| self.items[i]@)
    }
}

impl LocatorSet {
    #[verifier::type_invariant]
    pub closed spec fn well_formed(self) -> bool {
        distinct_locators(self@)
    }

    /// What `well_formed` says, over the view.
    pub proof fn lemma_well_formed(self)
        requires
            self.well_formed(),
        ensures
            distinct_locators(self@),
    {
    }

    pub fn new() -> (set: LocatorSet)
        ensures
            set@ == Seq::<LocatorView>::empty(),
    {
        let set = LocatorSet { items: Vec::new() };
        assert(set@ =~= Seq::<LocatorView>::empty());
        set
    }

    /// The number of locators in the set.
    pub fn len(&self) -> (n: usize)
        ensures
            n == self@.len(),
            distinct_locators(self@),
    {
        proof {
            use_type_invariant(self);
        }
        self.items.len()
    }

    /// The locator at `position`, in order of insertion.
    pub fn get(&self, position: usize) -> (locator: &Locator)
        requires
            position < self@.len(),
        ensures
            locator@ == self@[position as int],
    {
        &self.items[position]
    }

    /// Whether the set holds a locator with these four fields.
    pub fn contains(&self, locator: &Locator) -> (found: bool)
        ensures
            found == self@.contains(locator@),
    {
        let mut i: usize = 0;
        while i < self.items.len()
            invariant
                i <= self.items.len(),
                self@.len() == self.items.len(),
                forall|j: int| 0 <= j < i ==> self@[j] != locator@,
            decreases self.items.len() - i,
        {
            if self.items[i].same_as(locator) {
                assert(self@[i as int] == locator@);
                return true;
            }
            i += 1;
        }
        false
    }

    /// Adds a locator, unless the set holds it already. Says whether it was
    /// added.
    pub fn insert(&mut self, locator: Locator) -> (added: bool)
        ensures
            final(self)@ == with_locator(old(self)@, locator@),
            added == !old(self)@.contains(locator@),
    {
        proof {
            use_type_invariant(&*self);
        }
        if self.contains(&locator) {
            false
        } else {
            let mut items: Vec<Locator> = Vec::new();
            core::mem::swap(&mut self.items, &mut items);
            items.push(locator);
            proof {
                let grown = Seq::new(items.len() as nat, |i: int| items[i]@);
                assert(grown =~= old(self)@.push(locator@));
                assert forall|i: int, j: int| 0 <= i < j < grown.len() implies grown[i]
                    != grown[j] by {
                    if j < old(self)@.len() {
                        assert(old(self)@[i] != old(self)@[j]);
                    } else {
                        assert(old(self)@.contains(old(self)@[i]));
                    }
                }
            }
            self.items = items;
            true
        }
    }
}

/// The locators of an optional set.
pub open spec fn optional_locators(set: Option<LocatorSet>) -> Option<Seq<LocatorView>> {
    match set {
        Some(s) => Some(s@),
        None => None,
    }
}

/// The outcome of one check.
#[derive(Debug, PartialEq, Eq)]
pub struct Status {
    /// The number of variables that passed.
    pub pass: i64,
    /// The number of variables that failed.
    pub fail: i64,
    /// What the check looks for.
    pub desc: String,
    /// Where the check failed; absent until it has failed somewhere.
    pub locator: Option<LocatorSet>,
}

/// What a [`Status`] holds, as mathematical values.
pub struct StatusView {
    pub pass: int,
    pub fail: int,
    pub desc: Seq<char>,
    pub locator: Option<Seq<LocatorView>>,
}

impl StatusView {
    /// The status of a check that has not looked at anything yet.
    pub open spec fn fresh(desc: Seq<char>) -> StatusView {
        StatusView { pass: 0, fail: 0, desc, locator: None }
    }

    /// The locators, none where the set is absent.
    pub open spec fn locators(self) -> Seq<LocatorView> {
        match self.locator {
            Some(locators) => locators,
            None => Seq::empty(),
        }
    }

    /// The status with one more locator.
    pub open spec fn with_locator(self, locator: LocatorView) -> StatusView {
        StatusView { locator: Some(with_locator(self.locators(), locator)), ..self }
    }

    /// The status after one more variable passed.
    pub open spec fn passed(self) -> StatusView {
        StatusView { pass: self.pass + 1, ..self }
    }

    /// The status after one more variable failed at `locator`.
    pub open spec fn failed(self, locator: LocatorView) -> StatusView {
        StatusView { fail: self.fail + 1, ..self }.with_locator(locator)
    }
}

/// Adding the same locator to a status twice leaves one locator.
pub proof fn lemma_status_locator_added_once(status: StatusView, locator: LocatorView)
    ensures
        status.with_locator(locator).with_locator(locator) == status.with_locator(locator),
        status.locator is None ==> status.with_locator(locator).locators().len() == 1,
{
    lemma_locator_added_once(status.locators(), locator);
}

impl View for Status {
    type V = StatusView;

    open spec fn view(&self) -> StatusView {
        StatusView {
            pass: self.pass as int,
            fail: self.fail as int,
            desc: self.desc@,
            locator: optional_locators(self.locator),
        }
    }
}

impl Status {
    /// The status of a check that has not looked at anything yet.
    pub fn new(desc: &str) -> (status: Status)
        ensures
            status@ == StatusView::fresh(desc@),
    {
        Status { pass: 0, fail: 0, desc: desc.to_owned(), locator: None }
    }

    /// Adds a locator to the status's set, creating the set if there is
    /// none. A locator that the set holds already is not added again.
    pub fn add_locator(&mut self, locator: Locator)
        ensures
            final(self)@ == old(self)@.with_locator(locator@),
    {
        let mut set = match self.locator.take() {
            Some(set) => set,
            None => LocatorSet::new(),
        };
        set.insert(locator);
        self.locator = Some(set);
    }

    /// Counts one more variable that passed.
    pub fn record_pass(&mut self)
        requires
            old(self).pass < i64::MAX,
        ensures
            final(self)@ == old(self)@.passed(),
    {
        self.pass = self.pass + 1;
    }

    /// Counts one more variable that failed, and where.
    pub fn record_fail(&mut self, locator: Locator)
        requires
            old(self).fail < i64::MAX,
        ensures
            final(self)@ == old(self)@.failed(locator@),
    {
        self.fail = self.fail + 1;
        self.add_locator(locator);
    }
}

/// Facts about the file as a whole.
#[derive(Debug, PartialEq, Eq)]
pub struct Metadata {
    pub file_name: String,
    /// The number of rows that the file reports.
    pub raw_case_count: i32,
    /// The number of variables that the file reports.
    pub variable_count: i32,
    /// The number of distinct values of the primary variable; absent until
    /// that variable has been found.
    pub case_count: Option<u64>,
    pub creation_time: i64,
    pub modified_time: i64,
    pub file_label: String,
    pub file_format_version: i64,
    pub file_encoding: Option<String>,
    pub compression: String,
}

/// What a [`Metadata`] holds, as mathematical values.
pub struct MetadataView {
    pub file_name: Seq<char>,
    pub raw_case_count: i32,
    pub variable_count: i32,
    pub case_count: Option<u64>,
    pub creation_time: i64,
    pub modified_time: i64,
    pub file_label: Seq<char>,
    pub file_format_version: i64,
    pub file_encoding: Option<Seq<char>>,
    pub compression: Seq<char>,
}

impl MetadataView {
    /// The metadata of a file of which nothing is known yet.
    pub open spec fn blank(file_name: Seq<char>) -> MetadataView {
        MetadataView {
            file_name,
            raw_case_count: 0,
            variable_count: 0,
            case_count: None,
            creation_time: 0,
            modified_time: 0,
            file_label: Seq::empty(),
            file_format_version: 0,
            file_encoding: None,
            compression: Seq::empty(),
        }
    }
}

impl View for Metadata {
    type V = MetadataView;

    open spec fn view(&self) -> MetadataView {
        MetadataView {
            file_name: self.file_name@,
            raw_case_count: self.raw_case_count,
            variable_count: self.variable_count,
            case_count: self.case_count,
            creation_time: self.creation_time,
            modified_time: self.modified_time,
            file_label: self.file_label@,
            file_format_version: self.file_format_version,
            file_encoding: optional_text(self.file_encoding),
            compression: self.compression@,
        }
    }
}

impl Clone for Metadata {
    fn clone(&self) -> (copy: Metadata)
        ensures
            copy@ == self@,
    {
        Metadata {
            file_name: self.file_name.clone(),
            raw_case_count: self.raw_case_count,
            variable_count: self.variable_count,
            case_count: self.case_count,
            creation_time: self.creation_time,
            modified_time: self.modified_time,
            file_label: self.file_label.clone(),
            file_format_version: self.file_format_version,
            file_encoding: clone_optional(&self.file_encoding),
            compression: self.compression.clone(),
        }
    }
}

impl Metadata {
    /// The metadata of a file of which nothing is known yet.
    pub fn new(file_name: &str) -> (metadata: Metadata)
        ensures
            metadata@ == MetadataView::blank(file_name@),
    {
        Metadata {
            file_name: file_name.to_owned(),
            raw_case_count: 0,
            variable_count: 0,
            case_count: None,
            creation_time: 0,
            modified_time: 0,
            file_label: String::new(),
            file_format_version: 0,
            file_encoding: None,
            compression: String::new(),
        }
    }
}

/// One line of the summary: a check and its outcome.
pub struct SummaryRow {
    pub name: Seq<char>,
    pub status: StatusView,
}

/// Whether the summary has a line for the check of this name.
pub open spec fn names(rows: Seq<SummaryRow>, name: Seq<char>) -> bool {
    exists|i: int| 0 <= i < rows.len() && (#[trigger] rows[i]).name == name
}

/// The place of the first line for the check of this name.
pub open spec fn slot_of(rows: Seq<SummaryRow>, name: Seq<char>) -> int {
    choose|i: int|
        0 <= i < rows.len() && (#[trigger] rows[i]).name == name && forall|j: int|
            0 <= j < i ==> (#[trigger] rows[j]).name != name
}

/// The outcome of the check of this name, if the summary has one.
pub open spec fn status_of(rows: Seq<SummaryRow>, name: Seq<char>) -> Option<StatusView> {
    if names(rows, name) {
        Some(rows[slot_of(rows, name)].status)
    } else {
        None
    }
}

/// The summary with a line for the check of this name: as it was, if it
/// had one; else with a fresh line at its end.
pub open spec fn with_check(rows: Seq<SummaryRow>, name: Seq<char>, desc: Seq<char>) -> Seq<SummaryRow> {
    if names(rows, name) {
        rows
    } else {
        rows.push(SummaryRow { name, status: StatusView::fresh(desc) })
    }
}

/// The summary with the outcome of the check of this name replaced.
pub open spec fn with_status(rows: Seq<SummaryRow>, name: Seq<char>, status: StatusView) -> Seq<
    SummaryRow,
> {
    if names(rows, name) {
        rows.update(slot_of(rows, name), SummaryRow { name, status })
    } else {
        rows
    }
}

/// No two lines are for the same check.
pub open spec fn distinct_names(rows: Seq<SummaryRow>) -> bool {
    forall|i: int, j: int| 0 <= i < j < rows.len() ==> (#[trigger] rows[i]).name != (#[trigger] rows[j]).name
}

/// Whether the first line for `name` is at `slot`.
pub open spec fn is_slot_of(rows: Seq<SummaryRow>, name: Seq<char>, slot: int) -> bool {
    &&& 0 <= slot < rows.len()
    &&& rows[slot].name == name
    &&& forall|j: int| 0 <= j < slot ==> (#[trigger] rows[j]).name != name
}

proof fn lemma_first_at_or_before(rows: Seq<SummaryRow>, name: Seq<char>, at: int)
    requires
        0 <= at < rows.len(),
        rows[at].name == name,
    ensures
        is_slot_of(rows, name, slot_of(rows, name)),
        slot_of(rows, name) <= at,
    decreases at,
{
    if forall|j: int| 0 <= j < at ==> (#[trigger] rows[j]).name != name {
        assert(is_slot_of(rows, name, at));
        let slot = slot_of(rows, name);
        assert(is_slot_of(rows, name, slot));
        if slot > at {
            assert(rows[at].name != name);
        }
    } else {
        let j = choose|j: int| 0 <= j < at && (#[trigger] rows[j]).name == name;
        lemma_first_at_or_before(rows, name, j);
    }
}

/// A summary that has a line for a check has a first one, and only one
/// place is the first.
pub proof fn lemma_slot_of(rows: Seq<SummaryRow>, name: Seq<char>)
    requires
        names(rows, name),
    ensures
        is_slot_of(rows, name, slot_of(rows, name)),
        forall|slot: int| is_slot_of(rows, name, slot) ==> slot == slot_of(rows, name),
{
    let at = choose|i: int| 0 <= i < rows.len() && (#[trigger] rows[i]).name == name;
    lemma_first_at_or_before(rows, name, at);
    let first = slot_of(rows, name);
    assert forall|slot: int| is_slot_of(rows, name, slot) implies slot == first by {
        if slot < first {
            assert(rows[slot].name != name);
        } else if first < slot {
            assert(rows[first].name != name);
        }
    }
}

/// Entering a check gives it a line, fresh if it had none, and leaves the
/// lines of all other checks as they were.
pub proof fn lemma_with_check(
    rows: Seq<SummaryRow>,
    name: Seq<char>,
    desc: Seq<char>,
    other: Seq<char>,
)
    ensures
        names(with_check(rows, name, desc), name),
        status_of(with_check(rows, name, desc), name) == Some(
            if names(rows, name) {
                status_of(rows, name)->0
            } else {
                StatusView::fresh(desc)
            },
        ),
        other != name ==> status_of(with_check(rows, name, desc), other) == status_of(rows, other),
        distinct_names(rows) ==> distinct_names(with_check(rows, name, desc)),
{
    let entered = with_check(rows, name, desc);
    if !names(rows, name) {
        let n = rows.len() as int;
        assert(entered[n].name == name);
        assert(is_slot_of(entered, name, n));
        lemma_slot_of(entered, name);
        if other != name {
            if names(rows, other) {
                lemma_slot_of(rows, other);
                let slot = slot_of(rows, other);
                assert(entered[slot].name == other);
                assert(is_slot_of(entered, other, slot));
                lemma_slot_of(entered, other);
            } else if names(entered, other) {
                let at = choose|i: int| 0 <= i < entered.len() && (#[trigger] entered[i]).name == other;
                assert(rows[at].name == other);
            }
        }
        if distinct_names(rows) {
            assert forall|i: int, j: int| 0 <= i < j < entered.len() implies (#[trigger] entered[i]).name
                != (#[trigger] entered[j]).name by {
                if j < n {
                    assert(rows[i].name != rows[j].name);
                } else {
                    assert(rows[i].name != name);
                }
            }
        }
    }
}

/// Replacing the outcome of a check that has a line changes that outcome
/// and nothing else.
pub proof fn lemma_with_status(
    rows: Seq<SummaryRow>,
    name: Seq<char>,
    status: StatusView,
    other: Seq<char>,
)
    requires
        names(rows, name),
    ensures
        with_status(rows, name, status).len() == rows.len(),
        names(with_status(rows, name, status), other) == names(rows, other),
        status_of(with_status(rows, name, status), name) == Some(status),
        other != name ==> status_of(with_status(rows, name, status), other) == status_of(rows, other),
        distinct_names(rows) ==> distinct_names(with_status(rows, name, status)),
{
    let changed = with_status(rows, name, status);
    lemma_slot_of(rows, name);
    let slot = slot_of(rows, name);
    assert forall|i: int| 0 <= i < rows.len() implies (#[trigger] changed[i]).name == rows[i].name by {}
    assert(is_slot_of(changed, name, slot)) by {
        assert forall|j: int| 0 <= j < slot implies (#[trigger] changed[j]).name != name by {
            assert(rows[j].name != name);
        }
    }
    assert(names(changed, name));
    lemma_slot_of(changed, name);
    if names(rows, other) {
        lemma_slot_of(rows, other);
        let at = slot_of(rows, other);
        assert(changed[at].name == other);
        assert(is_slot_of(changed, other, at)) by {
            assert forall|j: int| 0 <= j < at implies (#[trigger] changed[j]).name != other by {
                assert(rows[j].name != other);
            }
        }
        lemma_slot_of(changed, other);
    } else if names(changed, other) {
        let at = choose|i: int| 0 <= i < changed.len() && (#[trigger] changed[i]).name == other;
        assert(rows[at].name == other);
    }
    if distinct_names(rows) {
        assert forall|i: int, j: int| 0 <= i < j < changed.len() implies (#[trigger] changed[i]).name
            != (#[trigger] changed[j]).name by {
            assert(rows[i].name != rows[j].name);
        }
    }
}

#[derive(Debug, PartialEq, Eq)]
struct SummaryEntry {
    name: String,
    status: Status,
}

/// The outcomes of the checks that ran, in the order in which they were
/// first entered.
#[derive(Debug, PartialEq, Eq)]
pub struct Summary {
    entries: Vec<SummaryEntry>,
}

impl View for Summary {
    type V = Seq<SummaryRow>;

    closed spec fn view(&self) -> Seq<SummaryRow> {
        Seq::new(
            self.entries.len() as nat,
            |i: int| SummaryRow { name: self.entries[i].name@, status: self.entries[i].status@ },
        )
    }
}

impl Summary {
    pub fn new() -> (summary: Summary)
        ensures
            summary@ == Seq::<SummaryRow>::empty(),
    {
        let summary = Summary { entries: Vec::new() };
        assert(summary@ =~= Seq::<SummaryRow>::empty());
        summary
    }

    /// The number of checks in the summary.
    pub fn len(&self) -> (n: usize)
        ensures
            n == self@.len(),
    {
        self.entries.len()
    }

    /// The name of the check at `position`.
    pub fn name_at(&self, position: usize) -> (name: &String)
        requires
            position < self@.len(),
        ensures
            name@ == self@[position as int].name,
    {
        &self.entries[position].name
    }

    /// The outcome of the check at `position`.
    pub fn status_at(&self, position: usize) -> (status: &Status)
        requires
            position < self@.len(),
        ensures
            status@ == self@[position as int].status,
    {
        &self.entries[position].status
    }

    /// The place of the first line for the check of this name.
    pub fn find(&self, name: &str) -> (found: Option<usize>)
        ensures
            found is Some == names(self@, name@),
            found is Some ==> found->0 == slot_of(self@, name@) && found->0 < self@.len()
                && self@[found->0 as int].name == name@,
    {
        let wanted = name.to_owned();
        let mut i: usize = 0;
        while i < self.entries.len()
            invariant
                i <= self.entries.len(),
                self@.len() == self.entries.len(),
                wanted@ == name@,
                forall|j: int| 0 <= j < i ==> (#[trigger] self@[j]).name != name@,
            decreases self.entries.len() - i,
        {
            if self.entries[i].name == wanted {
                assert(self@[i as int].name == name@);
                return Some(i);
            }
            i += 1;
        }
        None
    }

    /// The outcome of the check of this name, if it ran.
    pub fn get(&self, name: &str) -> (status: Option<&Status>)
        ensures
            status is Some == names(self@, name@),
            status is Some ==> Some(status->0@) == status_of(self@, name@),
    {
        match self.find(name) {
            Some(i) => Some(&self.entries[i].status),
            None => None,
        }
    }

    /// Makes sure that the summary has a line for the check of this name:
    /// a fresh one at its end, if it has none yet. A line that is there
    /// already is left as it is, description and all.
    pub fn enter(&mut self, name: &str, desc: &str)
        ensures
            final(self)@ == with_check(old(self)@, name@, desc@),
    {
        match self.find(name) {
            Some(_) => {},
            None => {
                self.entries.push(SummaryEntry { name: name.to_owned(), status: Status::new(desc) });
                assert(self@ =~= old(self)@.push(
                    SummaryRow { name: name@, status: StatusView::fresh(desc@) },
                ));
            },
        }
    }

    /// Makes sure that the summary has a line for the check of this name,
    /// and hands out its outcome for the check to update. A line that is
    /// there already is left as it is, description and all.
    pub fn entry(&mut self, name: &str, desc: &str) -> (status: &mut Status)
        ensures
            Some(status@) == status_of(with_check(old(self)@, name@, desc@), name@),
            final(self)@ == with_status(with_check(old(self)@, name@, desc@), name@, final(status)@),
    {
        let slot = match self.find(name) {
            Some(i) => i,
            None => {
                let ghost before = self@;
                self.entries.push(SummaryEntry { name: name.to_owned(), status: Status::new(desc) });
                proof {
                    let row = SummaryRow { name: name@, status: StatusView::fresh(desc@) };
                    assert(self@ =~= before.push(row));
                    assert(self@[before.len() as int].name == name@);
                }
                self.entries.len() - 1
            },
        };
        assert(self@ == with_check(old(self)@, name@, desc@));
        assert(slot == slot_of(self@, name@));
        assert(names(self@, name@));
        &mut self.entries[slot].status
    }
}

/// The result of a read.
#[derive(Debug, PartialEq, Eq)]
pub struct Report {
    pub metadata: Metadata,
    pub summary: Summary,
}

/// What a [`Report`] holds, as mathematical values.
pub struct ReportView {
    pub metadata: MetadataView,
    pub summary: Seq<SummaryRow>,
}

impl View for Report {
    type V = ReportView;

    open spec fn view(&self) -> ReportView {
        ReportView { metadata: self.metadata@, summary: self.summary@ }
    }
}

impl Report {
    /// An empty report on the file of this name.
    pub fn new(file_name: &str) -> (report: Report)
        ensures
            report@ == (ReportView {
                metadata: MetadataView::blank(file_name@),
                summary: Seq::empty(),
            }),
    {
        Report { metadata: Metadata::new(file_name), summary: Summary::new() }
    }
}

} // verus!
