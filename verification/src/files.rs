//! The directory indexer: what a scan of the asset directory does to the
//! catalogue.
//!
//! Listing the directory and reading the files is the caller's part. It hands
//! over one [`FileEntry`] per regular file, with the bytes or with the fact
//! that they could not be read.

use vstd::prelude::*;
use crate::catalog::{lemma_appended_wf, lemma_fingerprint_position, CatalogView};
use crate::data::{Sound, SoundView};
use crate::db::{insert_if_absent, views, Catalog, CatalogError};
use crate::fingerprint::{fingerprint, md5_digest};

verus! {

/// One file of the asset directory as the scan met it.
#[derive(Debug, PartialEq, Eq)]
pub struct FileEntry {
    /// Base name of the file.
    pub name: String,
    /// Path below the asset root.
    pub path: String,
    /// The file's bytes; `None` where reading it failed.
    pub contents: Option<Vec<u8>>,
}

/// What a [`FileEntry`] stands for in contracts.
pub ghost struct FileEntryView {
    pub name: Seq<char>,
    pub path: Seq<char>,
    pub contents: Option<Seq<u8>>,
}

impl View for FileEntry {
    type V = FileEntryView;

    open spec fn view(&self) -> FileEntryView {
        FileEntryView {
            name: self.name@,
            path: self.path@,
            contents: match self.contents {
                Some(bytes) => Some(bytes@),
                None => None,
            },
        }
    }
}

/// The entries that a sequence of files stands for.
pub open spec fn entry_views(entries: Seq<FileEntry>) -> Seq<FileEntryView> {
    Seq::new(entries.len(), |i: int| entries[i]@)
}

/// What became of one file during reconciliation.
#[derive(Debug, Clone, Copy, PartialEq, Eq, Structural)]
pub enum EntryOutcome {
    /// A new catalogue entry was made, with this identity.
    Inserted(i64),
    /// The contents were known already, under this identity.
    Skipped(i64),
    /// The file could not be read, or the catalogue could not take it.
    Failed,
}

/// The tally of one reconciliation.
#[derive(Debug, Clone, Copy, PartialEq, Eq, Structural)]
pub struct IndexReport {
    /// Files looked at.
    pub scanned: usize,
    /// Files that became new catalogue entries.
    pub inserted: usize,
    /// Files whose contents the catalogue knew already.
    pub skipped: usize,
    /// Files that could not be read or stored.
    pub failed: usize,
}

/// The sound that a readable file gives, as a scan reports it.
pub open spec fn scanned_sound(entry: FileEntryView) -> SoundView
    recommends
        entry.contents is Some,
{
    SoundView {
        name: entry.name,
        path: entry.path,
        md5sum: md5_digest(entry.contents->0),
        id: 0,
        play_count: 0,
    }
}

/// The sounds of the readable files among `entries`, in their order.
pub open spec fn scanned_sounds(entries: Seq<FileEntryView>) -> Seq<SoundView>
    decreases entries.len(),
{
    if entries.len() == 0 {
        Seq::empty()
    } else if entries.last().contents is Some {
        scanned_sounds(entries.drop_last()).push(scanned_sound(entries.last()))
    } else {
        scanned_sounds(entries.drop_last())
    }
}

/// What reconciling `entry` into the catalogue `c` comes to.
pub open spec fn entry_outcome(c: CatalogView, entry: FileEntryView) -> EntryOutcome {
    match entry.contents {
        None => EntryOutcome::Failed,
        Some(bytes) => {
            let md5sum = md5_digest(bytes);
            if c.has_fingerprint(md5sum) {
                EntryOutcome::Skipped(c.by_fingerprint(md5sum).unwrap().id as i64)
            } else if c.exhausted() {
                EntryOutcome::Failed
            } else {
                EntryOutcome::Inserted((c.last_id + 1) as i64)
            }
        },
    }
}

/// The catalogue `c` after `entry` was reconciled into it.
pub open spec fn after_entry(c: CatalogView, entry: FileEntryView) -> CatalogView {
    if entry_outcome(c, entry) is Inserted {
        c.appended(entry.name, entry.path, md5_digest(entry.contents->0), 0)
    } else {
        c
    }
}

/// The catalogue `c` after `entries` were reconciled into it, first to last.
pub open spec fn after_entries(c: CatalogView, entries: Seq<FileEntryView>) -> CatalogView
    decreases entries.len(),
{
    if entries.len() == 0 {
        c
    } else {
        after_entry(after_entries(c, entries.drop_last()), entries.last())
    }
}

/// How many of `entries` become new catalogue entries when they are
/// reconciled into `c`, first to last.
pub open spec fn count_inserted(c: CatalogView, entries: Seq<FileEntryView>) -> nat
    decreases entries.len(),
{
    if entries.len() == 0 {
        0
    } else {
        let before = after_entries(c, entries.drop_last());
        count_inserted(c, entries.drop_last()) + if entry_outcome(before, entries.last())
            is Inserted {
            1nat
        } else {
            0nat
        }
    }
}

/// How many of `entries` are skipped as known.
pub open spec fn count_skipped(c: CatalogView, entries: Seq<FileEntryView>) -> nat
    decreases entries.len(),
{
    if entries.len() == 0 {
        0
    } else {
        let before = after_entries(c, entries.drop_last());
        count_skipped(c, entries.drop_last()) + if entry_outcome(before, entries.last())
            is Skipped {
            1nat
        } else {
            0nat
        }
    }
}

/// How many of `entries` fail.
pub open spec fn count_failed(c: CatalogView, entries: Seq<FileEntryView>) -> nat
    decreases entries.len(),
{
    if entries.len() == 0 {
        0
    } else {
        let before = after_entries(c, entries.drop_last());
        count_failed(c, entries.drop_last()) + if entry_outcome(before, entries.last())
            is Failed {
            1nat
        } else {
            0nat
        }
    }
}

/// Computes the sounds of a scan: one per readable file, in the order of the
/// files, each with its fingerprint and not yet in any catalogue. Files that
/// could not be read are left out.
pub fn index_sounds_from_disk(entries: &Vec<FileEntry>) -> (sounds: Vec<Sound>)
    ensures
        views(sounds@) == scanned_sounds(entry_views(entries@)),
{
    let ghost all = entry_views(entries@);
    let mut sounds: Vec<Sound> = Vec::new();
    let mut i: usize = 0;
    assert(all.take(0) =~= Seq::<FileEntryView>::empty());
    while i < entries.len()
        invariant
            i <= entries.len(),
            all == entry_views(entries@),
            views(sounds@) == scanned_sounds(all.take(i as int)),
        decreases entries.len() - i,
    {
        let ghost before = views(sounds@);
        proof {
            assert(all.take(i + 1).drop_last() =~= all.take(i as int));
            assert(all.take(i + 1).last() == entries@[i as int]@);
        }
        let entry = &entries[i];
        match &entry.contents {
            Some(bytes) => {
                let md5sum = fingerprint(bytes.as_slice());
                let sound = Sound::new(entry.name.clone(), entry.path.clone(), md5sum);
                sounds.push(sound);
                assert(views(sounds@) =~= before.push(scanned_sound(entry@)));
            },
            None => {},
        }
        i += 1;
    }
    assert(all.take(i as int) =~= all);
    sounds
}

/// Reconciles one file into the catalogue.
///
/// A file that could not be read fails and changes nothing. A readable file
/// whose fingerprint the catalogue knows is skipped, whatever its name. Any
/// other becomes a new entry with play count zero, unless the catalogue has
/// no identity left, which counts as a failure.
pub fn reconcile_entry(store: &mut Catalog, entry: &FileEntry) -> (outcome: EntryOutcome)
    requires
        old(store).wf(),
    ensures
        final(store).wf(),
        outcome == entry_outcome(old(store)@, entry@),
        final(store)@ == after_entry(old(store)@, entry@),
{
    match &entry.contents {
        None => EntryOutcome::Failed,
        Some(bytes) => {
            let md5sum = fingerprint(bytes.as_slice());
            match insert_if_absent(store, entry.name.as_str(), entry.path.as_str(), &md5sum) {
                Ok((id, true)) => EntryOutcome::Inserted(id),
                Ok((id, false)) => EntryOutcome::Skipped(id),
                Err(_) => EntryOutcome::Failed,
            }
        },
    }
}

/// Reconciles a scan into the catalogue, file by file in the order given,
/// and reports the tally. One file's failure does not stop the others.
pub fn reconcile(entries: &Vec<FileEntry>, store: &mut Catalog) -> (report: IndexReport)
    requires
        old(store).wf(),
    ensures
        final(store).wf(),
        final(store)@ == after_entries(old(store)@, entry_views(entries@)),
        report.scanned == entries@.len(),
        report.inserted == count_inserted(old(store)@, entry_views(entries@)),
        report.skipped == count_skipped(old(store)@, entry_views(entries@)),
        report.failed == count_failed(old(store)@, entry_views(entries@)),
        report.scanned == report.inserted + report.skipped + report.failed,
{
    let ghost all = entry_views(entries@);
    let ghost start = store@;
    let mut report = IndexReport { scanned: 0, inserted: 0, skipped: 0, failed: 0 };
    let mut i: usize = 0;
    assert(all.take(0) =~= Seq::<FileEntryView>::empty());
    while i < entries.len()
        invariant
            i <= entries.len(),
            all == entry_views(entries@),
            store.wf(),
            store@ == after_entries(start, all.take(i as int)),
            report.scanned == i,
            report.inserted == count_inserted(start, all.take(i as int)),
            report.skipped == count_skipped(start, all.take(i as int)),
            report.failed == count_failed(start, all.take(i as int)),
            report.scanned == report.inserted + report.skipped + report.failed,
        decreases entries.len() - i,
    {
        proof {
            assert(all.take(i + 1).drop_last() =~= all.take(i as int));
            assert(all.take(i + 1).last() == entries@[i as int]@);
        }
        match reconcile_entry(store, &entries[i]) {
            EntryOutcome::Inserted(_) => {
                report.inserted = report.inserted + 1;
            },
            EntryOutcome::Skipped(_) => {
                report.skipped = report.skipped + 1;
            },
            EntryOutcome::Failed => {
                report.failed = report.failed + 1;
            },
        }
        report.scanned = report.scanned + 1;
        i += 1;
    }
    assert(all.take(i as int) =~= all);
    report
}

/// Reconciling `entry` into `c` would add nothing: the file is unreadable,
/// its contents are known, or the catalogue can take no more.
pub open spec fn settled(c: CatalogView, entry: FileEntryView) -> bool {
    !(entry_outcome(c, entry) is Inserted)
}

/// Reconciling a file keeps the catalogue well formed, keeps every entry
/// where it was, and never forgets a fingerprint.
pub proof fn lemma_after_entry_keeps(c: CatalogView, entry: FileEntryView)
    requires
        c.wf(),
    ensures
        after_entry(c, entry).wf(),
        after_entry(c, entry).rows.len() == c.rows.len() + if entry_outcome(c, entry)
            is Inserted {
            1int
        } else {
            0int
        },
        entry_outcome(c, entry) is Inserted ==> after_entry(c, entry).rows.last().play_count == 0,
        forall|i: int| 0 <= i < c.rows.len() ==> after_entry(c, entry).rows[i] == c.rows[i],
        forall|md5sum: Seq<u8>| #[trigger]
            c.has_fingerprint(md5sum) ==> after_entry(c, entry).has_fingerprint(md5sum),
        c.exhausted() ==> after_entry(c, entry) == c,
        c.last_id <= after_entry(c, entry).last_id,
{
    let d = after_entry(c, entry);
    if entry_outcome(c, entry) is Inserted {
        lemma_appended_wf(c, entry.name, entry.path, md5_digest(entry.contents->0), 0);
    }
    assert forall|md5sum: Seq<u8>| #[trigger] c.has_fingerprint(md5sum) implies d.has_fingerprint(
        md5sum,
    ) by {
        let i = c.fingerprint_position(md5sum);
        assert(c.is_at_fingerprint(md5sum, i));
        assert(d.is_at_fingerprint(md5sum, i));
    }
}

/// Once a file was reconciled, reconciling it again would add nothing.
pub proof fn lemma_after_entry_settles(c: CatalogView, entry: FileEntryView)
    requires
        c.wf(),
    ensures
        settled(after_entry(c, entry), entry),
{
    let d = after_entry(c, entry);
    if entry_outcome(c, entry) is Inserted {
        assert(d.is_at_fingerprint(md5_digest(entry.contents->0), c.rows.len() as int));
    }
}

/// A file that is settled stays settled while others are reconciled.
pub proof fn lemma_settled_persists(c: CatalogView, entry: FileEntryView, other: FileEntryView)
    requires
        c.wf(),
        settled(c, other),
    ensures
        settled(after_entry(c, entry), other),
{
    lemma_after_entry_keeps(c, entry);
    if other.contents is Some {
        let md5sum = md5_digest(other.contents->0);
        if c.has_fingerprint(md5sum) {
            assert(after_entry(c, entry).has_fingerprint(md5sum));
        }
    }
}

/// Reconciling a scan keeps the catalogue well formed and settles every
/// file of the scan.
pub proof fn lemma_after_entries_settles(c: CatalogView, entries: Seq<FileEntryView>)
    requires
        c.wf(),
    ensures
        after_entries(c, entries).wf(),
        forall|j: int|
            0 <= j < entries.len() ==> settled(after_entries(c, entries), #[trigger] entries[j]),
    decreases entries.len(),
{
    if entries.len() > 0 {
        let front = entries.drop_last();
        let before = after_entries(c, front);
        lemma_after_entries_settles(c, front);
        lemma_after_entry_keeps(before, entries.last());
        lemma_after_entry_settles(before, entries.last());
        assert forall|j: int| 0 <= j < entries.len() implies settled(
            after_entries(c, entries),
            #[trigger] entries[j],
        ) by {
            if j < front.len() {
                assert(entries[j] == front[j]);
                lemma_settled_persists(before, entries.last(), front[j]);
            }
        }
    }
}

/// Reconciling files that are all settled changes nothing and inserts
/// nothing.
pub proof fn lemma_settled_entries_add_nothing(c: CatalogView, entries: Seq<FileEntryView>)
    requires
        forall|j: int| 0 <= j < entries.len() ==> settled(c, #[trigger] entries[j]),
    ensures
        after_entries(c, entries) == c,
        count_inserted(c, entries) == 0,
    decreases entries.len(),
{
    if entries.len() > 0 {
        let front = entries.drop_last();
        assert forall|j: int| 0 <= j < front.len() implies settled(c, #[trigger] front[j]) by {
            assert(front[j] == entries[j]);
        }
        lemma_settled_entries_add_nothing(c, front);
        assert(settled(c, entries[entries.len() - 1]));
    }
}

/// Reconciliation never touches what is there: every entry that the
/// catalogue held stays at its place as it was, play count included; the
/// catalogue grows by the files that were inserted, and none of the new
/// entries has been played.
pub proof fn lemma_reconcile_keeps_entries(c: CatalogView, entries: Seq<FileEntryView>)
    requires
        c.wf(),
    ensures
        after_entries(c, entries).rows.len() == c.rows.len() + count_inserted(c, entries),
        forall|i: int|
            0 <= i < c.rows.len() ==> #[trigger] after_entries(c, entries).rows[i] == c.rows[i],
        forall|i: int|
            c.rows.len() <= i < after_entries(c, entries).rows.len() ==> (#[trigger] after_entries(
                c,
                entries,
            ).rows[i]).play_count == 0,
    decreases entries.len(),
{
    if entries.len() > 0 {
        let before = after_entries(c, entries.drop_last());
        lemma_reconcile_keeps_entries(c, entries.drop_last());
        lemma_after_entries_settles(c, entries.drop_last());
        lemma_after_entry_keeps(before, entries.last());
    }
}

/// Reconciliation is idempotent: after a scan was reconciled, reconciling
/// the same scan again inserts nothing and leaves every entry as it is, so
/// the entries, their number and their fingerprints are the same, and no
/// fingerprint occurs twice.
pub proof fn lemma_reconcile_idempotent(c: CatalogView, entries: Seq<FileEntryView>)
    requires
        c.wf(),
    ensures
        after_entries(c, entries).wf(),
        after_entries(after_entries(c, entries), entries) == after_entries(c, entries),
        count_inserted(after_entries(c, entries), entries) == 0,
{
    lemma_after_entries_settles(c, entries);
    lemma_settled_entries_add_nothing(after_entries(c, entries), entries);
}

/// Two readable files with the same bytes come to one catalogue entry,
/// whatever their names: after both were reconciled into a catalogue that
/// still has identities to give, exactly one entry has their fingerprint, and
/// the second file was skipped as known.
pub proof fn lemma_identical_contents_one_entry(
    c: CatalogView,
    first: FileEntryView,
    second: FileEntryView,
)
    requires
        c.wf(),
        !c.exhausted(),
        first.contents is Some,
        second.contents == first.contents,
    ensures
        ({
            let md5sum = md5_digest(first.contents->0);
            let d = after_entries(c, seq![first, second]);
            &&& d.wf()
            &&& d == after_entry(c, first)
            &&& entry_outcome(after_entry(c, first), second) is Skipped
            &&& d.has_fingerprint(md5sum)
            &&& forall|i: int, j: int|
                d.is_at_fingerprint(md5sum, i) && d.is_at_fingerprint(md5sum, j) ==> i == j
            &&& d.rows.len() == c.rows.len() + if c.has_fingerprint(md5sum) {
                0int
            } else {
                1int
            }
        }),
{
    let md5sum = md5_digest(first.contents->0);
    let both = seq![first, second];
    let one = after_entry(c, first);
    assert(both.drop_last() =~= seq![first]);
    assert(seq![first].drop_last() =~= Seq::<FileEntryView>::empty());
    assert(after_entries(c, seq![first]) == one) by {
        assert(after_entries(c, seq![first].drop_last()) == c);
        assert(seq![first].last() == first);
    }
    assert(both.last() == second);
    lemma_after_entry_keeps(c, first);
    lemma_after_entry_settles(c, first);
    if entry_outcome(c, first) is Inserted {
        assert(one.is_at_fingerprint(md5sum, c.rows.len() as int));
    }
    assert(one.has_fingerprint(md5sum));
    let d = after_entries(c, both);
    assert(d == one);
    assert forall|i: int, j: int|
        d.is_at_fingerprint(md5sum, i) && d.is_at_fingerprint(md5sum, j) implies i == j by {
        lemma_fingerprint_position(d, md5sum, i);
        lemma_fingerprint_position(d, md5sum, j);
    }
}

} // verus!
