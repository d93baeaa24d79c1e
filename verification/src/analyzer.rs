//! What a reader of historical logs has chosen, and the listing of a
//! directory of logs, newest first.
use crate::log_name::{
    cpu_stress_fields, log_name_head, name_pieces, parse_cpu_stress_filename,
    parse_selectable_stress_filename, parse_storage_stress_filename, selectable_stress_fields,
    storage_stress_fields, LogNameFields,
};
use crate::text::{
    has_prefix, has_suffix, range_has_prefix, range_has_suffix, texts_view, to_chars,
};
use crate::timestamp::{parse_timestamp, timestamp_of, Timestamp};
use vstd::prelude::*;
use vstd::string::*;

verus! {

/// The families of logs the analyzer can list.
#[derive(Clone, Copy, Debug, PartialEq, Eq, Structural)]
pub enum AnalyzerTab {
    StorageStress,
    CpuStress,
    SelectableStress,
}

/// How long a mark for deletion stands before it lapses, in nanoseconds.
pub const MARK_LIFETIME_NANOS: u64 = 10_000_000_000;

/// What a reader of historical logs has chosen: the family shown, the log
/// selected for analysis, and the log marked for deletion with the time the
/// mark was set. Positions count from the top of the listing.
#[derive(Clone, Copy, Debug)]
pub struct Analyzer {
    pub analyzer_tab: AnalyzerTab,
    pub selected_log_index: Option<usize>,
    pub dev_mode: bool,
    pub marked_for_delete: Option<(usize, u64)>,
}

impl AnalyzerTab {
    /// The prefix that the names of the family's logs begin with.
    pub open spec fn family_text(self) -> Seq<char> {
        match self {
            AnalyzerTab::StorageStress => "storage_stress_"@,
            AnalyzerTab::CpuStress => "cpu_stress_"@,
            AnalyzerTab::SelectableStress => "selectable_"@,
        }
    }

    /// The prefix that the names of the family's logs begin with.
    pub fn family(self) -> (prefix: &'static str)
        ensures
            prefix@ == self.family_text(),
    {
        match self {
            AnalyzerTab::StorageStress => "storage_stress_",
            AnalyzerTab::CpuStress => "cpu_stress_",
            AnalyzerTab::SelectableStress => "selectable_",
        }
    }

    /// `name` is listed under the family: it begins with the family's prefix
    /// and ends with the extension.
    pub open spec fn lists(self, name: Seq<char>) -> bool {
        has_prefix(name, self.family_text()) && has_suffix(name, ".csv"@)
    }

    /// What the family reads from a log's name.
    pub open spec fn fields_of(self, name: Seq<char>) -> Option<LogNameFields> {
        match self {
            AnalyzerTab::StorageStress => storage_stress_fields(name),
            AnalyzerTab::CpuStress => cpu_stress_fields(name),
            AnalyzerTab::SelectableStress => selectable_stress_fields(name),
        }
    }

    /// The moment a log is ordered by: the one its name's date reads as, and
    /// none for a name the family cannot read.
    pub open spec fn key_of(self, name: Seq<char>) -> Option<Timestamp> {
        match self.fields_of(name) {
            None => None,
            Some(fields) => timestamp_of(fields.1),
        }
    }

    /// Whether `name` is listed under the family.
    pub fn is_log_name(self, name: &str) -> (r: bool)
        ensures
            r == self.lists(name@),
    {
        let chars = to_chars(name);
        let family = to_chars(self.family());
        let extension = to_chars(".csv");
        assert(chars@.subrange(0, chars@.len() as int) == chars@);
        range_has_prefix(&chars, 0, chars.len(), &family) && range_has_suffix(
            &chars,
            0,
            chars.len(),
            &extension,
        )
    }

    /// Reads a log's name as the family does.
    pub fn parse_name(self, name: &str) -> (r: Option<
        (String, String, String, Option<u32>, Option<u32>),
    >)
        ensures
            match r {
                Some(t) => self.fields_of(name@) == Some((t.0@, t.1@, t.2@, t.3, t.4)),
                None => self.fields_of(name@) is None,
            },
    {
        match self {
            AnalyzerTab::StorageStress => parse_storage_stress_filename(name),
            AnalyzerTab::CpuStress => parse_cpu_stress_filename(name),
            AnalyzerTab::SelectableStress => parse_selectable_stress_filename(name),
        }
    }

    /// The moment a log is ordered by.
    pub fn sort_key(self, name: &str) -> (key: Option<Timestamp>)
        ensures
            key == self.key_of(name@),
    {
        match self.parse_name(name) {
            None => None,
            Some(fields) => parse_timestamp(fields.1.as_str()),
        }
    }
}

impl Default for Analyzer {
    fn default() -> (a: Self)
        ensures
            a == (Analyzer {
                analyzer_tab: AnalyzerTab::StorageStress,
                selected_log_index: None,
                dev_mode: false,
                marked_for_delete: None,
            }),
    {
        Analyzer {
            analyzer_tab: AnalyzerTab::StorageStress,
            selected_log_index: None,
            dev_mode: false,
            marked_for_delete: None,
        }
    }
}

impl Analyzer {
    /// An analyzer that shows storage logs, with nothing selected or marked.
    /// In dev mode the logs are looked for under the working directory.
    pub fn with_dev_mode(dev_mode: bool) -> (a: Self)
        ensures
            a == (Analyzer {
                analyzer_tab: AnalyzerTab::StorageStress,
                selected_log_index: None,
                dev_mode,
                marked_for_delete: None,
            }),
    {
        Analyzer {
            analyzer_tab: AnalyzerTab::StorageStress,
            selected_log_index: None,
            dev_mode,
            marked_for_delete: None,
        }
    }

    /// Whether the log at `index` is marked for deletion.
    pub open spec fn marks(self, index: usize) -> bool {
        self.marked_for_delete matches Some((i, _)) && i == index
    }

    /// Whether the log at `index` is marked for deletion.
    pub fn is_marked(&self, index: usize) -> (r: bool)
        ensures
            r == self.marks(index),
    {
        match self.marked_for_delete {
            Some((i, _)) => i == index,
            None => false,
        }
    }

    /// Shows another family. The selection and the mark do not carry over,
    /// even where the family chosen is the one already shown.
    pub fn select_tab(&mut self, tab: AnalyzerTab)
        ensures
            *final(self) == (Analyzer {
                analyzer_tab: tab,
                selected_log_index: None,
                marked_for_delete: None,
                ..*old(self)
            }),
    {
        self.analyzer_tab = tab;
        self.selected_log_index = None;
        self.marked_for_delete = None;
    }

    /// Whether a mark set at `marked_at` has lapsed at `now`: more than the
    /// mark's lifetime has passed since.
    pub open spec fn lapsed(marked_at: u64, now: u64) -> bool {
        now > marked_at && now - marked_at > MARK_LIFETIME_NANOS
    }

    /// Drops the mark for deletion where it has lapsed at `now`. Gives the
    /// position that was marked where it did.
    pub fn expire_mark(&mut self, now: u64) -> (expired: Option<usize>)
        ensures
            match old(self).marked_for_delete {
                Some((index, at)) => if Self::lapsed(at, now) {
                    expired == Some(index) && *final(self) == (Analyzer {
                        marked_for_delete: None,
                        ..*old(self)
                    })
                } else {
                    expired is None && *final(self) == *old(self)
                },
                None => expired is None && *final(self) == *old(self),
            },
    {
        match self.marked_for_delete {
            Some((index, at)) => {
                if now > at && now - at > MARK_LIFETIME_NANOS {
                    self.marked_for_delete = None;
                    Some(index)
                } else {
                    None
                }
            },
            None => None,
        }
    }

    /// A primary click on the log at `index`: selects it for analysis and
    /// drops any mark for deletion.
    pub fn primary_click(&mut self, index: usize)
        ensures
            *final(self) == (Analyzer {
                selected_log_index: Some(index),
                marked_for_delete: None,
                ..*old(self)
            }),
    {
        self.selected_log_index = Some(index);
        self.marked_for_delete = None;
    }

    /// A secondary click on the log at `index` at the time `now`. On a log
    /// that is not marked it sets the mark and gives `false`. On the marked
    /// log it asks for the deletion by giving `true`, drops the mark, and
    /// drops the selection where that log was the one selected.
    pub fn secondary_click(&mut self, index: usize, now: u64) -> (delete: bool)
        ensures
            delete == old(self).marks(index),
            delete ==> *final(self) == (Analyzer {
                marked_for_delete: None,
                selected_log_index: if old(self).selected_log_index == Some(index) {
                    None
                } else {
                    old(self).selected_log_index
                },
                ..*old(self)
            }),
            !delete ==> *final(self) == (Analyzer {
                marked_for_delete: Some((index, now)),
                ..*old(self)
            }),
    {
        if self.is_marked(index) {
            self.marked_for_delete = None;
            if self.selected_log_index == Some(index) {
                self.selected_log_index = None;
            }
            true
        } else {
            self.marked_for_delete = Some((index, now));
            false
        }
    }
}

/// Whether a log with the key `a` is listed before one with the key `b`
/// whatever their order was: `a` is the later moment, or `a` is a moment and
/// `b` is none.
pub open spec fn key_before(a: Option<Timestamp>, b: Option<Timestamp>) -> bool {
    match a {
        None => false,
        Some(x) => match b {
            None => true,
            Some(y) => x.later_than(y),
        },
    }
}

/// Whether a log with the key `a` is listed before one with the key `b`
/// whatever their order was.
pub fn is_key_before(a: &Option<Timestamp>, b: &Option<Timestamp>) -> (r: bool)
    ensures
        r == key_before(*a, *b),
{
    match a {
        None => false,
        Some(x) => match b {
            None => true,
            Some(y) => x.is_later_than(y),
        },
    }
}

impl AnalyzerTab {
    /// The names among `names` that are listed under the family, in order.
    pub open spec fn listed(self, names: Seq<Seq<char>>) -> Seq<Seq<char>>
        decreases names.len(),
    {
        if names.len() == 0 {
            Seq::empty()
        } else if self.lists(names.last()) {
            self.listed(names.drop_last()).push(names.last())
        } else {
            self.listed(names.drop_last())
        }
    }

    /// A listing with `name` put in its place: before the logs it is newer
    /// than, and after every other.
    pub open spec fn placed(self, sorted: Seq<Seq<char>>, name: Seq<char>) -> Seq<Seq<char>>
        decreases sorted.len(),
    {
        if sorted.len() == 0 {
            seq![name]
        } else if key_before(self.key_of(name), self.key_of(sorted.last())) {
            self.placed(sorted.drop_last(), name).push(sorted.last())
        } else {
            sorted.push(name)
        }
    }

    /// The names ordered newest first. Names of one moment, and names that
    /// read as no moment, keep the order they came in; those that read as no
    /// moment come last.
    pub open spec fn newest_first(self, names: Seq<Seq<char>>) -> Seq<Seq<char>>
        decreases names.len(),
    {
        if names.len() == 0 {
            Seq::empty()
        } else {
            self.placed(self.newest_first(names.drop_last()), names.last())
        }
    }

    /// The listing of a directory that holds `names`: those of the family,
    /// newest first.
    pub open spec fn listing(self, names: Seq<Seq<char>>) -> Seq<Seq<char>> {
        self.newest_first(self.listed(names))
    }

    /// Where a name goes in a listing: the place `at` such that the name is
    /// newer than every log from `at` on and not newer than the one before.
    pub proof fn lemma_placed_at(self, sorted: Seq<Seq<char>>, name: Seq<char>, at: int)
        requires
            0 <= at <= sorted.len(),
            forall|j: int|
                at <= j < sorted.len() ==> key_before(
                    self.key_of(name),
                    self.key_of(#[trigger] sorted[j]),
                ),
            at > 0 ==> !key_before(self.key_of(name), self.key_of(sorted[at - 1])),
        ensures
            self.placed(sorted, name) == sorted.insert(at, name),
        decreases sorted.len(),
    {
        if sorted.len() == 0 {
            assert(sorted.insert(at, name) =~= seq![name]);
        } else if at == sorted.len() {
            assert(sorted.insert(at, name) =~= sorted.push(name));
        } else {
            assert(key_before(self.key_of(name), self.key_of(sorted[sorted.len() - 1])));
            self.lemma_placed_at(sorted.drop_last(), name, at);
            assert(sorted.drop_last().insert(at, name).push(sorted.last()) =~= sorted.insert(
                at,
                name,
            ));
        }
    }

    /// Lists a directory: keeps the names of the family's logs and orders
    /// them newest first by the moment each name reads as.
    pub fn list_logs(self, names: Vec<String>) -> (out: Vec<String>)
        ensures
            texts_view(out@) == self.listing(texts_view(names@)),
    {
        let mut out: Vec<String> = Vec::new();
        let mut keys: Vec<Option<Timestamp>> = Vec::new();
        let ghost all = texts_view(names@);
        assert(all.take(0) =~= Seq::<Seq<char>>::empty());
        assert(texts_view(out@) =~= Seq::<Seq<char>>::empty());
        for name in it: names.into_iter()
            invariant
                it.seq() == names@,
                all == texts_view(names@),
                out@.len() == keys@.len(),
                forall|j: int| 0 <= j < out@.len() ==> keys@[j] == self.key_of((#[trigger] out@[j])@),
                texts_view(out@) == self.listing(all.take(it.index() as int)),
        {
            let ghost k = it.index() as int;
            let ghost seen = all.take(k);
            proof {
                assert(all.take(k + 1).drop_last() =~= seen);
                assert(all.take(k + 1).last() == name@);
            }
            if self.is_log_name(name.as_str()) {
                let key = self.sort_key(name.as_str());
                let mut at: usize = out.len();
                while at > 0 && is_key_before(&key, &keys[at - 1])
                    invariant
                        at <= out@.len(),
                        out@.len() == keys@.len(),
                        forall|j: int|
                            0 <= j < out@.len() ==> keys@[j] == self.key_of(
                                (#[trigger] out@[j])@,
                            ),
                        forall|j: int|
                            at <= j < out@.len() ==> key_before(key, #[trigger] keys@[j]),
                    decreases at,
                {
                    at -= 1;
                }
                proof {
                    let sorted = texts_view(out@);
                    assert forall|j: int| at <= j < sorted.len() implies key_before(
                        self.key_of(name@),
                        self.key_of(#[trigger] sorted[j]),
                    ) by {
                        assert(keys@[j] == self.key_of(out@[j]@));
                    }
                    if at > 0 {
                        assert(keys@[at - 1] == self.key_of(out@[at - 1]@));
                    }
                    self.lemma_placed_at(sorted, name@, at as int);
                    assert(texts_view(out@.insert(at as int, name)) =~= sorted.insert(
                        at as int,
                        name@,
                    ));
                    assert(self.listed(all.take(k + 1)) == self.listed(seen).push(name@));
                    assert(self.listed(seen).push(name@).drop_last() =~= self.listed(seen));
                }
                out.insert(at, name);
                keys.insert(at, key);
            }
        }
        assert(all.take(all.len() as int) =~= all);
        out
    }
}

/// Where `a` is not listed before `b` on account of its key, and `b` not
/// before `c`, `a` is not listed before `c` either.
pub proof fn lemma_key_order(a: Option<Timestamp>, b: Option<Timestamp>, c: Option<Timestamp>)
    ensures
        !key_before(a, a),
        key_before(a, b) ==> !key_before(b, a),
        !key_before(a, b) && !key_before(b, c) ==> !key_before(a, c),
{
}

impl AnalyzerTab {
    /// No name of the listing is newer than one that stands before it.
    pub open spec fn ordered(self, names: Seq<Seq<char>>) -> bool {
        forall|i: int, j: int|
            0 <= i < j < names.len() ==> !key_before(
                self.key_of(#[trigger] names[j]),
                self.key_of(#[trigger] names[i]),
            )
    }

    /// Putting a name in its place keeps a listing ordered, and adds that
    /// name and no other.
    pub proof fn lemma_placed(self, sorted: Seq<Seq<char>>, name: Seq<char>)
        requires
            self.ordered(sorted),
        ensures
            self.ordered(self.placed(sorted, name)),
            self.placed(sorted, name).to_multiset() == sorted.to_multiset().insert(name),
        decreases sorted.len(),
    {
        broadcast use vstd::seq_lib::group_to_multiset_ensures;

        let kx = self.key_of(name);
        if sorted.len() == 0 {
            assert(seq![name] =~= sorted.push(name));
        } else if key_before(kx, self.key_of(sorted.last())) {
            let front = sorted.drop_last();
            let last = sorted.last();
            assert forall|i: int, j: int| 0 <= i < j < front.len() implies !key_before(
                self.key_of(#[trigger] front[j]),
                self.key_of(#[trigger] front[i]),
            ) by {
                assert(front[i] == sorted[i] && front[j] == sorted[j]);
            }
            self.lemma_placed(front, name);
            let inner = self.placed(front, name);
            let result = inner.push(last);
            assert(sorted =~= front.push(last));
            assert(result.to_multiset() =~= sorted.to_multiset().insert(name));
            assert forall|i: int, j: int| 0 <= i < j < result.len() implies !key_before(
                self.key_of(#[trigger] result[j]),
                self.key_of(#[trigger] result[i]),
            ) by {
                if j < inner.len() {
                    assert(result[i] == inner[i] && result[j] == inner[j]);
                } else {
                    assert(result[i] == inner[i]);
                    assert(inner.to_multiset().count(inner[i]) > 0);
                    if inner[i] == name {
                        lemma_key_order(kx, self.key_of(last), kx);
                    } else {
                        assert(front.to_multiset().count(inner[i]) > 0);
                        let w = choose|w: int| 0 <= w < front.len() && front[w] == inner[i];
                        assert(sorted[w] == inner[i]);
                        assert(sorted[sorted.len() - 1] == last);
                    }
                }
            }
        } else {
            let result = sorted.push(name);
            assert forall|i: int, j: int| 0 <= i < j < result.len() implies !key_before(
                self.key_of(#[trigger] result[j]),
                self.key_of(#[trigger] result[i]),
            ) by {
                if j < sorted.len() {
                    assert(result[i] == sorted[i] && result[j] == sorted[j]);
                } else {
                    assert(result[i] == sorted[i]);
                    if i < sorted.len() - 1 {
                        assert(sorted[sorted.len() - 1] == sorted.last());
                        lemma_key_order(
                            kx,
                            self.key_of(sorted.last()),
                            self.key_of(sorted[i]),
                        );
                    }
                }
            }
        }
    }

    /// Ordering names newest first gives an ordered listing of the same
    /// names, each as often as it came.
    pub proof fn lemma_newest_first(self, names: Seq<Seq<char>>)
        ensures
            self.ordered(self.newest_first(names)),
            self.newest_first(names).to_multiset() == names.to_multiset(),
        decreases names.len(),
    {
        broadcast use vstd::seq_lib::group_to_multiset_ensures;

        if names.len() > 0 {
            self.lemma_newest_first(names.drop_last());
            self.lemma_placed(self.newest_first(names.drop_last()), names.last());
            assert(names =~= names.drop_last().push(names.last()));
        }
    }

    /// Every name of a directory's listing is one of the family's logs in that
    /// directory, and no name of the listing is newer than one before it.
    pub proof fn lemma_listing(self, names: Seq<Seq<char>>)
        ensures
            self.ordered(self.listing(names)),
            self.listing(names).to_multiset() == self.listed(names).to_multiset(),
            names.len() == 0 ==> self.listing(names).len() == 0,
    {
        self.lemma_newest_first(self.listed(names));
    }
}

impl AnalyzerTab {
    /// The positions of a listing whose names read as logs of the family, in
    /// the order of the listing. A name that does not read is left out, and
    /// hides no other.
    pub open spec fn shown(self, names: Seq<Seq<char>>) -> Seq<usize>
        decreases names.len(),
    {
        if names.len() == 0 {
            Seq::empty()
        } else {
            let before = self.shown(names.drop_last());
            if self.fields_of(names.last()) is Some {
                before.push((names.len() - 1) as usize)
            } else {
                before
            }
        }
    }

    /// The rows of a listing that are shown to a reader: the positions whose
    /// names read as logs of the family, in the order of the listing.
    pub fn shown_rows(self, listing: &Vec<String>) -> (rows: Vec<usize>)
        ensures
            rows@ == self.shown(texts_view(listing@)),
    {
        let mut rows: Vec<usize> = Vec::new();
        let ghost names = texts_view(listing@);
        let mut i: usize = 0;
        assert(names.take(0) =~= Seq::<Seq<char>>::empty());
        while i < listing.len()
            invariant
                i <= listing@.len(),
                names == texts_view(listing@),
                rows@ == self.shown(names.take(i as int)),
            decreases listing@.len() - i,
        {
            proof {
                assert(names.take(i + 1).drop_last() =~= names.take(i as int));
                assert(names.take(i + 1).last() == listing@[i as int]@);
            }
            if self.parse_name(listing[i].as_str()).is_some() {
                rows.push(i);
            }
            i += 1;
        }
        assert(names.take(i as int) =~= names);
        rows
    }

    /// The rows shown are positions of the listing whose names read, each
    /// once and in rising order, and no position whose name reads is missing.
    pub proof fn lemma_shown(self, names: Seq<Seq<char>>)
        requires
            names.len() <= usize::MAX,
        ensures
            forall|k: int|
                0 <= k < self.shown(names).len() ==> (#[trigger] self.shown(names)[k])
                    < names.len() && self.fields_of(names[self.shown(names)[k] as int]) is Some,
            forall|j: int, k: int|
                0 <= j < k < self.shown(names).len() ==> (#[trigger] self.shown(names)[j]) < (
                #[trigger] self.shown(names)[k]),
            forall|i: int|
                0 <= i < names.len() && self.fields_of(#[trigger] names[i]) is Some
                    ==> self.shown(names).contains(i as usize),
        decreases names.len(),
    {
        if names.len() > 0 {
            let front = names.drop_last();
            let before = self.shown(front);
            let rows = self.shown(names);
            self.lemma_shown(front);
            assert forall|k: int| 0 <= k < rows.len() implies (#[trigger] rows[k]) < names.len()
                && self.fields_of(names[rows[k] as int]) is Some by {
                if k < before.len() {
                    assert(rows[k] == before[k]);
                    assert(front[before[k] as int] == names[before[k] as int]);
                }
            }
            assert forall|j: int, k: int| 0 <= j < k < rows.len() implies (#[trigger] rows[j]) < (
            #[trigger] rows[k]) by {
                assert(rows[j] == before[j]);
                if k < before.len() {
                    assert(rows[k] == before[k]);
                }
            }
            assert forall|i: int|
                0 <= i < names.len() && self.fields_of(
                    #[trigger] names[i],
                ) is Some implies rows.contains(i as usize) by {
                if i < front.len() {
                    assert(front[i] == names[i]);
                    let w = choose|w: int| 0 <= w < before.len() && before[w] == i as usize;
                    assert(rows[w] == i as usize);
                } else {
                    assert(rows[rows.len() - 1] == i as usize);
                }
            }
        }
    }

    /// A name that reads as a log of the family is listed under the family.
    pub proof fn lemma_read_is_listed(self, name: Seq<char>)
        requires
            self.fields_of(name) is Some,
        ensures
            self.lists(name),
    {
        let family = self.family_text();
        assert(log_name_head(name, family) is Some);
        assert(name_pieces(name, family) is Some);
        let tail = name.skip(family.len() as int);
        let extension = ".csv"@;
        assert(name.skip(name.len() - extension.len()) =~= tail.skip(
            tail.len() - extension.len(),
        ));
    }
}

} // verus!
