//! The catalogue as a mathematical object: a sequence of entries in the
//! order of their insertion, and the largest identity handed out so far.

use vstd::prelude::*;
use crate::data::SoundView;

verus! {

/// What a catalogue stands for in contracts.
pub ghost struct CatalogView {
    /// The entries, oldest first.
    pub rows: Seq<SoundView>,
    /// The largest identity ever assigned; zero while nothing was inserted.
    pub last_id: int,
}

/// Whether `rows` can be the entries of a catalogue: every identity is
/// positive, and no identity and no fingerprint occurs twice.
pub open spec fn rows_consistent(rows: Seq<SoundView>) -> bool {
    &&& forall|i: int| 0 <= i < rows.len() ==> 1 <= (#[trigger] rows[i]).id <= i64::MAX
    &&& forall|i: int|
        0 <= i < rows.len() ==> i64::MIN <= (#[trigger] rows[i]).play_count <= i64::MAX
    &&& forall|i: int, j: int|
        0 <= i < j < rows.len() ==> (#[trigger] rows[i]).id != (#[trigger] rows[j]).id
    &&& forall|i: int, j: int|
        0 <= i < j < rows.len() ==> (#[trigger] rows[i]).md5sum != (#[trigger] rows[j]).md5sum
}

/// The largest identity among `rows`, zero for none.
pub open spec fn max_id(rows: Seq<SoundView>) -> int
    decreases rows.len(),
{
    if rows.len() == 0 {
        0
    } else {
        let rest = max_id(rows.drop_last());
        if rows.last().id > rest {
            rows.last().id
        } else {
            rest
        }
    }
}

impl CatalogView {
    /// The catalogue before anything was inserted.
    pub open spec fn empty() -> CatalogView {
        CatalogView { rows: Seq::empty(), last_id: 0 }
    }

    /// The invariant of every catalogue.
    pub open spec fn wf(self) -> bool {
        &&& rows_consistent(self.rows)
        &&& 0 <= self.last_id <= i64::MAX
        &&& forall|i: int| 0 <= i < self.rows.len() ==> (#[trigger] self.rows[i]).id <= self.last_id
    }

    /// `i` is the position of the oldest entry called `name`.
    pub open spec fn is_first_named(self, name: Seq<char>, i: int) -> bool {
        &&& 0 <= i < self.rows.len()
        &&& self.rows[i].name == name
        &&& forall|j: int| 0 <= j < i ==> (#[trigger] self.rows[j]).name != name
    }

    /// Some entry is called `name`.
    pub open spec fn has_name(self, name: Seq<char>) -> bool {
        exists|i: int| self.is_first_named(name, i)
    }

    /// The position of the oldest entry called `name`.
    pub open spec fn name_position(self, name: Seq<char>) -> int {
        choose|i: int| self.is_first_named(name, i)
    }

    /// The oldest entry called `name`, if there is one.
    pub open spec fn by_name(self, name: Seq<char>) -> Option<SoundView> {
        if self.has_name(name) {
            Some(self.rows[self.name_position(name)])
        } else {
            None
        }
    }

    /// `i` is the position of an entry with identity `id`.
    pub open spec fn is_at_id(self, id: int, i: int) -> bool {
        0 <= i < self.rows.len() && self.rows[i].id == id
    }

    /// Some entry has identity `id`.
    pub open spec fn has_id(self, id: int) -> bool {
        exists|i: int| self.is_at_id(id, i)
    }

    /// The position of the entry with identity `id`.
    pub open spec fn id_position(self, id: int) -> int {
        choose|i: int| self.is_at_id(id, i)
    }

    /// The entry with identity `id`, if there is one.
    pub open spec fn by_id(self, id: int) -> Option<SoundView> {
        if self.has_id(id) {
            Some(self.rows[self.id_position(id)])
        } else {
            None
        }
    }

    /// `i` is the position of an entry with fingerprint `md5sum`.
    pub open spec fn is_at_fingerprint(self, md5sum: Seq<u8>, i: int) -> bool {
        0 <= i < self.rows.len() && self.rows[i].md5sum == md5sum
    }

    /// Some entry has fingerprint `md5sum`.
    pub open spec fn has_fingerprint(self, md5sum: Seq<u8>) -> bool {
        exists|i: int| self.is_at_fingerprint(md5sum, i)
    }

    /// The position of the entry with fingerprint `md5sum`.
    pub open spec fn fingerprint_position(self, md5sum: Seq<u8>) -> int {
        choose|i: int| self.is_at_fingerprint(md5sum, i)
    }

    /// The entry with fingerprint `md5sum`, if there is one.
    pub open spec fn by_fingerprint(self, md5sum: Seq<u8>) -> Option<SoundView> {
        if self.has_fingerprint(md5sum) {
            Some(self.rows[self.fingerprint_position(md5sum)])
        } else {
            None
        }
    }

    /// No identity is left to hand out.
    pub open spec fn exhausted(self) -> bool {
        self.last_id >= i64::MAX
    }

    /// The catalogue after a new entry was appended under the next identity.
    pub open spec fn appended(
        self,
        name: Seq<char>,
        path: Seq<char>,
        md5sum: Seq<u8>,
        play_count: int,
    ) -> CatalogView {
        CatalogView {
            rows: self.rows.push(
                SoundView { name, path, md5sum, id: self.last_id + 1, play_count },
            ),
            last_id: self.last_id + 1,
        }
    }

    /// The catalogue after the entry with identity `id` was played once more.
    pub open spec fn incremented(self, id: int) -> CatalogView {
        let i = self.id_position(id);
        CatalogView {
            rows: self.rows.update(i, self.rows[i].with_play_count(self.rows[i].play_count + 1)),
            ..self
        }
    }
}

/// In a well-formed catalogue an identity names one position.
pub proof fn lemma_id_position(c: CatalogView, id: int, i: int)
    requires
        c.wf(),
        c.is_at_id(id, i),
    ensures
        c.has_id(id),
        c.id_position(id) == i,
        c.by_id(id) == Some(c.rows[i]),
{
    let k = c.id_position(id);
    assert(c.is_at_id(id, k));
    if k < i {
        assert(c.rows[k].id != c.rows[i].id);
    } else if i < k {
        assert(c.rows[i].id != c.rows[k].id);
    }
}

/// In a well-formed catalogue a fingerprint names one position.
pub proof fn lemma_fingerprint_position(c: CatalogView, md5sum: Seq<u8>, i: int)
    requires
        c.wf(),
        c.is_at_fingerprint(md5sum, i),
    ensures
        c.has_fingerprint(md5sum),
        c.fingerprint_position(md5sum) == i,
        c.by_fingerprint(md5sum) == Some(c.rows[i]),
{
    let k = c.fingerprint_position(md5sum);
    assert(c.is_at_fingerprint(md5sum, k));
    if k < i {
        assert(c.rows[k].md5sum != c.rows[i].md5sum);
    } else if i < k {
        assert(c.rows[i].md5sum != c.rows[k].md5sum);
    }
}

/// The oldest entry of a name is at one position.
pub proof fn lemma_name_position(c: CatalogView, name: Seq<char>, i: int)
    requires
        c.is_first_named(name, i),
    ensures
        c.has_name(name),
        c.name_position(name) == i,
        c.by_name(name) == Some(c.rows[i]),
{
    let k = c.name_position(name);
    assert(c.is_first_named(name, k));
    if k < i {
        assert(c.rows[k].name != name);
    } else if i < k {
        assert(c.rows[i].name != name);
    }
}

/// Appending under a fresh fingerprint keeps the catalogue well formed.
pub proof fn lemma_appended_wf(
    c: CatalogView,
    name: Seq<char>,
    path: Seq<char>,
    md5sum: Seq<u8>,
    play_count: int,
)
    requires
        c.wf(),
        !c.exhausted(),
        !c.has_fingerprint(md5sum),
        i64::MIN <= play_count <= i64::MAX,
    ensures
        c.appended(name, path, md5sum, play_count).wf(),
{
    let d = c.appended(name, path, md5sum, play_count);
    assert forall|i: int, j: int| 0 <= i < j < d.rows.len() implies (#[trigger] d.rows[i]).md5sum
        != (#[trigger] d.rows[j]).md5sum by {
        if j == c.rows.len() {
            assert(d.rows[i] == c.rows[i]);
            if c.rows[i].md5sum == md5sum {
                assert(c.is_at_fingerprint(md5sum, i));
            }
        } else {
            assert(d.rows[i] == c.rows[i]);
            assert(d.rows[j] == c.rows[j]);
        }
    }
    assert forall|i: int, j: int| 0 <= i < j < d.rows.len() implies (#[trigger] d.rows[i]).id != (
    #[trigger] d.rows[j]).id by {
        assert(d.rows[i] == c.rows[i]);
        if j < c.rows.len() {
            assert(d.rows[j] == c.rows[j]);
        }
    }
    assert forall|i: int| 0 <= i < d.rows.len() implies 1 <= (#[trigger] d.rows[i]).id
        <= d.last_id by {
        if i < c.rows.len() {
            assert(d.rows[i] == c.rows[i]);
        }
    }
    assert forall|i: int| 0 <= i < d.rows.len() implies i64::MIN <= (
    #[trigger] d.rows[i]).play_count <= i64::MAX by {
        if i < c.rows.len() {
            assert(d.rows[i] == c.rows[i]);
        }
    }
}

/// Counting one more play keeps the catalogue well formed.
pub proof fn lemma_incremented_wf(c: CatalogView, id: int)
    requires
        c.wf(),
        c.has_id(id),
        c.by_id(id).unwrap().play_count < i64::MAX,
    ensures
        c.incremented(id).wf(),
        c.incremented(id).rows.len() == c.rows.len(),
{
    let k = c.id_position(id);
    assert(c.is_at_id(id, k));
    let d = c.incremented(id);
    assert forall|i: int| 0 <= i < d.rows.len() implies {
        &&& (#[trigger] d.rows[i]).id == c.rows[i].id
        &&& d.rows[i].md5sum == c.rows[i].md5sum
        &&& d.rows[i].name == c.rows[i].name
    } by {}
    assert forall|i: int, j: int| 0 <= i < j < d.rows.len() implies (#[trigger] d.rows[i]).md5sum
        != (#[trigger] d.rows[j]).md5sum by {
        assert(c.rows[i].md5sum != c.rows[j].md5sum);
    }
    assert forall|i: int, j: int| 0 <= i < j < d.rows.len() implies (#[trigger] d.rows[i]).id != (
    #[trigger] d.rows[j]).id by {
        assert(c.rows[i].id != c.rows[j].id);
    }
    assert forall|i: int| 0 <= i < d.rows.len() implies 1 <= (#[trigger] d.rows[i]).id
        <= d.last_id by {
        assert(1 <= c.rows[i].id <= c.last_id);
    }
    assert forall|i: int| 0 <= i < d.rows.len() implies i64::MIN <= (
    #[trigger] d.rows[i]).play_count <= i64::MAX by {
        assert(i64::MIN <= c.rows[i].play_count <= i64::MAX);
    }
}

} // verus!
