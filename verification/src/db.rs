//! The catalogue store: the table of known sounds and its operations.
//!
//! A [`Catalog`] is the store as the process holds it. Whoever keeps a
//! durable copy writes through after each successful change and hands the
//! saved entries to [`restore`] at the next start.

use vstd::prelude::*;
use crate::catalog::{
    lemma_appended_wf, lemma_fingerprint_position, lemma_id_position, lemma_incremented_wf,
    lemma_name_position, max_id, rows_consistent, CatalogView,
};
use crate::data::{Sound, SoundView};
use crate::fingerprint::same_fingerprint;
use crate::text::text_eq;

verus! {

/// Why a catalogue operation did not take place.
#[derive(Debug, Clone, Copy, PartialEq, Eq, Structural)]
pub enum CatalogError {
    /// No entry has the identity asked for.
    NotFound,
    /// An entry with the same fingerprint is already there.
    Duplicate,
    /// The store cannot hold the result, or what it was given is corrupt.
    Storage,
}

/// The entries that a sequence of sounds stands for.
pub open spec fn views(sounds: Seq<Sound>) -> Seq<SoundView> {
    Seq::new(sounds.len(), |i: int| sounds[i]@)
}

/// What an optional sound stands for.
pub open spec fn view_of(sound: Option<Sound>) -> Option<SoundView> {
    match sound {
        Some(s) => Some(s@),
        None => None,
    }
}

/// The table of known sounds.
#[derive(Debug)]
pub struct Catalog {
    rows: Vec<Sound>,
    last_id: i64,
}

impl View for Catalog {
    type V = CatalogView;

    closed spec fn view(&self) -> CatalogView {
        CatalogView { rows: views(self.rows@), last_id: self.last_id as int }
    }
}

impl Catalog {
    /// The invariant that every operation keeps.
    pub open spec fn wf(&self) -> bool {
        self@.wf()
    }

    /// Number of entries.
    pub fn len(&self) -> (n: usize)
        ensures
            n == self@.rows.len(),
    {
        self.rows.len()
    }

    fn position_of_id(&self, id: i64) -> (at: Option<usize>)
        ensures
            match at {
                Some(i) => self@.is_at_id(id as int, i as int),
                None => !self@.has_id(id as int),
            },
    {
        let mut i: usize = 0;
        while i < self.rows.len()
            invariant
                i <= self.rows.len(),
                forall|j: int| 0 <= j < i ==> !self@.is_at_id(id as int, j),
            decreases self.rows.len() - i,
        {
            if self.rows[i].id == id {
                return Some(i);
            }
            i += 1;
        }
        None
    }

    fn position_of_fingerprint(&self, md5sum: &[u8; 16]) -> (at: Option<usize>)
        ensures
            match at {
                Some(i) => self@.is_at_fingerprint(md5sum@, i as int),
                None => !self@.has_fingerprint(md5sum@),
            },
    {
        let mut i: usize = 0;
        while i < self.rows.len()
            invariant
                i <= self.rows.len(),
                forall|j: int| 0 <= j < i ==> !self@.is_at_fingerprint(md5sum@, j),
            decreases self.rows.len() - i,
        {
            if same_fingerprint(&self.rows[i].md5sum, md5sum) {
                return Some(i);
            }
            i += 1;
        }
        None
    }

    fn position_of_name(&self, name: &str) -> (at: Option<usize>)
        ensures
            match at {
                Some(i) => self@.is_first_named(name@, i as int),
                None => !self@.has_name(name@),
            },
    {
        let mut i: usize = 0;
        while i < self.rows.len()
            invariant
                i <= self.rows.len(),
                forall|j: int| 0 <= j < i ==> (#[trigger] self@.rows[j]).name != name@,
            decreases self.rows.len() - i,
        {
            if text_eq(self.rows[i].name.as_str(), name) {
                return Some(i);
            }
            i += 1;
        }
        None
    }

    fn push_row(&mut self, name: String, path: String, md5sum: [u8; 16], play_count: i64) -> (id:
        i64)
        requires
            old(self).wf(),
            !old(self)@.exhausted(),
            !old(self)@.has_fingerprint(md5sum@),
        ensures
            final(self).wf(),
            final(self)@ == old(self)@.appended(name@, path@, md5sum@, play_count as int),
            id == old(self)@.last_id + 1,
    {
        let id = self.last_id + 1;
        proof {
            lemma_appended_wf(self@, name@, path@, md5sum@, play_count as int);
        }
        self.rows.push(Sound { name, path, md5sum, id, play_count });
        self.last_id = id;
        assert(self@.rows =~= old(self)@.appended(
            name@,
            path@,
            md5sum@,
            play_count as int,
        ).rows);
        id
    }
}

/// Creates the store, with no entry in it.
pub fn make_some_db() -> (db: Catalog)
    ensures
        db.wf(),
        db@ == CatalogView::empty(),
{
    let db = Catalog { rows: Vec::new(), last_id: 0 };
    assert(db@.rows =~= Seq::empty());
    db
}

/// Counts one more play of the entry `sound_id`.
///
/// Fails with `NotFound` when no entry has that identity, and with `Storage`
/// when the count is already the largest that can be held; the catalogue is
/// then as it was.
pub fn increment_play_count(db: &mut Catalog, sound_id: i64) -> (done: Result<(), CatalogError>)
    requires
        old(db).wf(),
    ensures
        final(db).wf(),
        !old(db)@.has_id(sound_id as int) ==> done == Err::<(), CatalogError>(
            CatalogError::NotFound,
        ) && final(db)@ == old(db)@,
        old(db)@.has_id(sound_id as int) && old(db)@.by_id(sound_id as int).unwrap().play_count
            >= i64::MAX ==> done == Err::<(), CatalogError>(CatalogError::Storage) && final(db)@
            == old(db)@,
        old(db)@.has_id(sound_id as int) && old(db)@.by_id(sound_id as int).unwrap().play_count
            < i64::MAX ==> done == Ok::<(), CatalogError>(()) && final(db)@ == old(db)@.incremented(
            sound_id as int,
        ),
{
    match db.position_of_id(sound_id) {
        None => Err(CatalogError::NotFound),
        Some(i) => {
            proof {
                lemma_id_position(db@, sound_id as int, i as int);
            }
            if db.rows[i].play_count == i64::MAX {
                Err(CatalogError::Storage)
            } else {
                proof {
                    lemma_incremented_wf(db@, sound_id as int);
                }
                let mut row = db.rows[i].duplicate();
                row.play_count = row.play_count + 1;
                db.rows.set(i, row);
                assert(db@.rows =~= old(db)@.incremented(sound_id as int).rows);
                Ok(())
            }
        },
    }
}

/// The oldest entry called `name`, if there is one.
pub fn get_sound_by_name(db: &Catalog, name: &str) -> (found: Option<Sound>)
    ensures
        view_of(found) == db@.by_name(name@),
{
    match db.position_of_name(name) {
        None => None,
        Some(i) => {
            proof {
                lemma_name_position(db@, name@, i as int);
            }
            Some(db.rows[i].duplicate())
        },
    }
}

/// The entry with identity `id`, if there is one.
pub fn get_sound_by_id(db: &Catalog, id: i64) -> (found: Option<Sound>)
    requires
        db.wf(),
    ensures
        view_of(found) == db@.by_id(id as int),
{
    match db.position_of_id(id) {
        None => None,
        Some(i) => {
            proof {
                lemma_id_position(db@, id as int, i as int);
            }
            Some(db.rows[i].duplicate())
        },
    }
}

/// A snapshot of all entries, oldest first.
pub fn get_sounds_list(db: &Catalog) -> (sounds: Vec<Sound>)
    ensures
        views(sounds@) == db@.rows,
{
    let mut sounds: Vec<Sound> = Vec::new();
    let mut i: usize = 0;
    while i < db.rows.len()
        invariant
            i <= db.rows.len(),
            sounds@.len() == i,
            forall|j: int| 0 <= j < i ==> (#[trigger] sounds@[j])@ == db.rows@[j]@,
        decreases db.rows.len() - i,
    {
        sounds.push(db.rows[i].duplicate());
        i += 1;
    }
    assert(views(sounds@) =~= db@.rows);
    sounds
}

/// Inserts `sound` as a new entry under the next identity; the identity that
/// `sound` carries is not looked at.
///
/// Fails with `Duplicate` when an entry with its fingerprint is there, else
/// with `Storage` when no identity is left; the catalogue is then as it was.
pub fn insert_sound(db: &mut Catalog, sound: &Sound) -> (done: Result<(), CatalogError>)
    requires
        old(db).wf(),
    ensures
        final(db).wf(),
        old(db)@.has_fingerprint(sound@.md5sum) ==> done == Err::<(), CatalogError>(
            CatalogError::Duplicate,
        ) && final(db)@ == old(db)@,
        !old(db)@.has_fingerprint(sound@.md5sum) && old(db)@.exhausted() ==> done == Err::<
            (),
            CatalogError,
        >(CatalogError::Storage) && final(db)@ == old(db)@,
        !old(db)@.has_fingerprint(sound@.md5sum) && !old(db)@.exhausted() ==> done == Ok::<
            (),
            CatalogError,
        >(()) && final(db)@ == old(db)@.appended(
            sound@.name,
            sound@.path,
            sound@.md5sum,
            sound@.play_count,
        ),
{
    match db.position_of_fingerprint(&sound.md5sum) {
        Some(_) => Err(CatalogError::Duplicate),
        None => {
            if db.last_id == i64::MAX {
                Err(CatalogError::Storage)
            } else {
                let _ = db.push_row(
                    sound.name.clone(),
                    sound.path.clone(),
                    sound.md5sum,
                    sound.play_count,
                );
                Ok(())
            }
        },
    }
}

/// Makes sure that the catalogue knows the fingerprint `md5sum`.
///
/// Where an entry with that fingerprint exists, its identity comes back with
/// `false` and nothing changes, whatever name and path were given. Otherwise
/// a new entry with play count zero is appended, and its identity comes back
/// with `true`. Fails with `Storage` when an entry is needed and no identity
/// is left.
pub fn insert_if_absent(db: &mut Catalog, name: &str, relative_path: &str, md5sum: &[u8; 16]) -> (done:
    Result<(i64, bool), CatalogError>)
    requires
        old(db).wf(),
    ensures
        final(db).wf(),
        old(db)@.has_fingerprint(md5sum@) ==> done == Ok::<(i64, bool), CatalogError>(
            (old(db)@.by_fingerprint(md5sum@).unwrap().id as i64, false),
        ) && final(db)@ == old(db)@,
        !old(db)@.has_fingerprint(md5sum@) && old(db)@.exhausted() ==> done == Err::<
            (i64, bool),
            CatalogError,
        >(CatalogError::Storage) && final(db)@ == old(db)@,
        !old(db)@.has_fingerprint(md5sum@) && !old(db)@.exhausted() ==> done == Ok::<
            (i64, bool),
            CatalogError,
        >(((old(db)@.last_id + 1) as i64, true)) && final(db)@ == old(db)@.appended(
            name@,
            relative_path@,
            md5sum@,
            0,
        ),
{
    match db.position_of_fingerprint(md5sum) {
        Some(i) => {
            proof {
                lemma_fingerprint_position(db@, md5sum@, i as int);
            }
            Ok((db.rows[i].id, false))
        },
        None => {
            if db.last_id == i64::MAX {
                Err(CatalogError::Storage)
            } else {
                let id = db.push_row(name.to_owned(), relative_path.to_owned(), *md5sum, 0);
                Ok((id, true))
            }
        },
    }
}

/// Rebuilds a catalogue from entries that were saved earlier, in their order.
///
/// The entries are taken as they are if every identity is positive and no
/// identity and no fingerprint occurs twice; the next identity to hand out
/// then follows the largest one among them. Anything else is corrupt and
/// fails with `Storage`.
pub fn restore(rows: Vec<Sound>) -> (restored: Result<Catalog, CatalogError>)
    ensures
        match restored {
            Ok(db) => {
                &&& rows_consistent(views(rows@))
                &&& db.wf()
                &&& db@ == (CatalogView { rows: views(rows@), last_id: max_id(views(rows@)) })
            },
            Err(e) => e == CatalogError::Storage && !rows_consistent(views(rows@)),
        },
{
    let ghost all = views(rows@);
    let mut last: i64 = 0;
    let mut i: usize = 0;
    assert(all.take(0) =~= Seq::<SoundView>::empty());
    while i < rows.len()
        invariant
            i <= rows.len(),
            all == views(rows@),
            rows_consistent(all.take(i as int)),
            last == max_id(all.take(i as int)),
            0 <= last,
            forall|k: int| 0 <= k < i ==> (#[trigger] all[k]).id <= last,
        decreases rows.len() - i,
    {
        if rows[i].id < 1 {
            assert(all[i as int].id < 1);
            return Err(CatalogError::Storage);
        }
        let mut j: usize = 0;
        while j < i
            invariant
                j <= i,
                i < rows.len(),
                all == views(rows@),
                forall|k: int| 0 <= k < j ==> (#[trigger] all[k]).id != all[i as int].id,
                forall|k: int| 0 <= k < j ==> (#[trigger] all[k]).md5sum != all[i as int].md5sum,
            decreases i - j,
        {
            if rows[j].id == rows[i].id || same_fingerprint(&rows[j].md5sum, &rows[i].md5sum) {
                assert(all[j as int].id == all[i as int].id || all[j as int].md5sum
                    == all[i as int].md5sum);
                return Err(CatalogError::Storage);
            }
            j += 1;
        }
        proof {
            let before = all.take(i as int);
            let after = all.take(i + 1);
            assert(after.drop_last() =~= before);
            assert(after.last() == all[i as int]);
            assert forall|a: int| 0 <= a < after.len() implies after[a] == all[a] by {}
            assert forall|a: int, b: int| 0 <= a < b < after.len() implies (#[trigger] after[a]).id
                != (#[trigger] after[b]).id && after[a].md5sum != after[b].md5sum by {
                if b < i {
                    assert(before[a].id != before[b].id);
                    assert(before[a].md5sum != before[b].md5sum);
                }
            }
        }
        if rows[i].id > last {
            last = rows[i].id;
        }
        i += 1;
    }
    assert(all.take(i as int) =~= all);
    let db = Catalog { rows, last_id: last };
    Ok(db)
}

} // verus!
