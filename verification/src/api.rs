//! What the HTTP face of the sound board says: the listing in display order,
//! and the answer to a playback request.

use vstd::prelude::*;
use vstd::seq_lib::{group_to_multiset_ensures, to_multiset_build, to_multiset_remove};
use crate::data::SoundView;
use crate::db::{get_sounds_list, Catalog};
use crate::playback::{PlaybackError, Played};
use crate::text::{
    bytes_before, lemma_bytes_before_irreflexive, lemma_bytes_before_transitive, name_before,
    text_before,
};

verus! {

/// The body of a playback request: the name of the sound.
#[derive(Debug, PartialEq, Eq)]
pub struct PlaySoundPayload {
    name: String,
}

impl View for PlaySoundPayload {
    type V = Seq<char>;

    closed spec fn view(&self) -> Seq<char> {
        self.name@
    }
}

impl PlaySoundPayload {
    /// A request for the sound called `name`.
    pub fn new(name: String) -> (payload: PlaySoundPayload)
        ensures
            payload@ == name@,
    {
        PlaySoundPayload { name }
    }

    /// The name asked for.
    pub fn name(&self) -> (name: &str)
        ensures
            name@ == self@,
    {
        self.name.as_str()
    }
}

/// One line of the listing.
#[derive(Debug, PartialEq, Eq)]
pub struct SoundSummary {
    pub name: String,
    pub play_count: i64,
}

/// What a [`SoundSummary`] stands for in contracts.
pub ghost struct SummaryView {
    pub name: Seq<char>,
    pub play_count: int,
}

impl View for SoundSummary {
    type V = SummaryView;

    open spec fn view(&self) -> SummaryView {
        SummaryView { name: self.name@, play_count: self.play_count as int }
    }
}

/// The lines that a sequence of summaries stands for.
pub open spec fn summary_views(lines: Seq<SoundSummary>) -> Seq<SummaryView> {
    Seq::new(lines.len(), |i: int| lines[i]@)
}

/// The listing line of a catalogue entry.
pub open spec fn summary_of(sound: SoundView) -> SummaryView {
    SummaryView { name: sound.name, play_count: sound.play_count }
}

/// The listing lines of `rows`, in the order of `rows`.
pub open spec fn summaries(rows: Seq<SoundView>) -> Seq<SummaryView> {
    Seq::new(rows.len(), |i: int| summary_of(rows[i]))
}

/// `a` is displayed strictly before `b`: the more often played first, and
/// among equally often played ones the name that sorts first.
pub open spec fn displayed_before(a: SummaryView, b: SummaryView) -> bool {
    a.play_count > b.play_count || (a.play_count == b.play_count && name_before(a.name, b.name))
}

/// `lines` is in display order: no line would have to come before an
/// earlier one.
pub open spec fn in_display_order(lines: Seq<SummaryView>) -> bool {
    forall|i: int, j: int|
        0 <= i < j < lines.len() ==> !displayed_before(#[trigger] lines[j], #[trigger] lines[i])
}

/// The display order is transitive.
pub proof fn lemma_displayed_before_transitive(a: SummaryView, b: SummaryView, c: SummaryView)
    requires
        displayed_before(a, b),
        displayed_before(b, c),
    ensures
        displayed_before(a, c),
{
    if a.play_count == b.play_count && b.play_count == c.play_count {
        lemma_bytes_before_transitive(
            vstd::utf8::encode_utf8(a.name),
            vstd::utf8::encode_utf8(b.name),
            vstd::utf8::encode_utf8(c.name),
        );
    }
}

/// No line is displayed before itself.
pub proof fn lemma_displayed_before_irreflexive(a: SummaryView)
    ensures
        !displayed_before(a, a),
{
    lemma_bytes_before_irreflexive(vstd::utf8::encode_utf8(a.name));
}

/// Inserting into a sequence adds one item to what it holds.
proof fn lemma_insert_holds_one_more<A>(s: Seq<A>, at: int, item: A)
    requires
        0 <= at <= s.len(),
    ensures
        s.insert(at, item).to_multiset() =~= s.to_multiset().insert(item),
{
    broadcast use group_to_multiset_ensures;

    let t = s.insert(at, item);
    assert(t.remove(at) =~= s);
    to_multiset_remove(t, at);
    assert(t[at] == item);
    assert(t.contains(item));
}

fn shown_before(a: &SoundSummary, b: &SoundSummary) -> (before: bool)
    ensures
        before == displayed_before(a@, b@),
{
    a.play_count > b.play_count || (a.play_count == b.play_count && text_before(
        a.name.as_str(),
        b.name.as_str(),
    ))
}

/// The listing: one line per catalogue entry, the most played first and
/// names ascending among equals.
pub fn sounds_listing(db: &Catalog) -> (lines: Vec<SoundSummary>)
    ensures
        in_display_order(summary_views(lines@)),
        summary_views(lines@).to_multiset() == summaries(db@.rows).to_multiset(),
        lines@.len() == db@.rows.len(),
{
    broadcast use group_to_multiset_ensures;

    let sounds = get_sounds_list(db);
    let ghost rows = db@.rows;
    let mut lines: Vec<SoundSummary> = Vec::new();
    let mut i: usize = 0;
    assert(summaries(rows.take(0)) =~= Seq::<SummaryView>::empty());
    assert(summary_views(lines@) =~= Seq::<SummaryView>::empty());
    while i < sounds.len()
        invariant
            i <= sounds.len(),
            crate::db::views(sounds@) == rows,
            lines@.len() == i,
            in_display_order(summary_views(lines@)),
            summary_views(lines@).to_multiset() == summaries(rows.take(i as int)).to_multiset(),
        decreases sounds.len() - i,
    {
        let item = SoundSummary {
            name: sounds[i].name.clone(),
            play_count: sounds[i].play_count,
        };
        let ghost before = summary_views(lines@);
        let ghost line = item@;
        assert(line == summary_of(rows[i as int])) by {
            assert(rows[i as int] == sounds@[i as int]@);
        }
        let mut at: usize = 0;
        while at < lines.len() && !shown_before(&item, &lines[at])
            invariant
                at <= lines.len(),
                before == summary_views(lines@),
                line == item@,
                forall|j: int| 0 <= j < at ==> !displayed_before(line, #[trigger] before[j]),
            decreases lines.len() - at,
        {
            at += 1;
        }
        lines.insert(at, item);
        proof {
            let after = summary_views(lines@);
            assert(after =~= before.insert(at as int, line));
            lemma_insert_holds_one_more(before, at as int, line);
            let known = summaries(rows.take(i as int));
            assert(summaries(rows.take(i + 1)) =~= known.push(line));
            to_multiset_build(known, line);
            assert(after.to_multiset() =~= known.push(line).to_multiset());
            assert forall|a: int, b: int| 0 <= a < b < after.len() implies !displayed_before(
                #[trigger] after[b],
                #[trigger] after[a],
            ) by {
                if b < at {
                    assert(after[a] == before[a] && after[b] == before[b]);
                } else if b == at {
                    assert(after[a] == before[a]);
                } else if a < at {
                    assert(after[a] == before[a] && after[b] == before[b - 1]);
                } else if a == at {
                    assert(after[b] == before[b - 1]);
                    assert(displayed_before(line, before[at as int]));
                    if displayed_before(before[b - 1], line) {
                        lemma_displayed_before_transitive(before[b - 1], line, before[at as int]);
                        if b - 1 == at {
                            lemma_displayed_before_irreflexive(before[at as int]);
                        }
                    }
                } else {
                    assert(after[a] == before[a - 1] && after[b] == before[b - 1]);
                }
            }
        }
        i += 1;
    }
    assert(rows.take(i as int) =~= rows);
    lines
}

/// The answer that a playback request gets.
#[derive(Debug, PartialEq, Eq)]
pub struct PlayResponse {
    /// `"ok"` or `"error"`.
    pub status: String,
    /// Whether a player was started.
    pub has_played: bool,
    /// Says what went wrong; absent on success.
    pub message: Option<String>,
}

/// The words for each way a request can be turned down.
pub open spec fn error_message(error: PlaybackError) -> Seq<char> {
    match error {
        PlaybackError::NotFound => "File not found"@,
        PlaybackError::Busy => "Another sound is playing"@,
        PlaybackError::LaunchError => "Failed to play sound"@,
    }
}

/// Words the answer to a playback request: `"ok"` with `has_played` for a
/// request that was carried out, `"error"` with the message of its kind for
/// one that was not.
pub fn play_response(answer: Result<Played, PlaybackError>) -> (response: PlayResponse)
    ensures
        response.has_played == (answer is Ok),
        answer is Ok ==> response.status@ == "ok"@ && response.message is None,
        answer matches Err(e) ==> response.status@ == "error"@ && response.message is Some
            && response.message->0@ == error_message(e),
{
    match answer {
        Ok(_) => PlayResponse { status: "ok".to_owned(), has_played: true, message: None },
        Err(e) => {
            let message = match e {
                PlaybackError::NotFound => "File not found".to_owned(),
                PlaybackError::Busy => "Another sound is playing".to_owned(),
                PlaybackError::LaunchError => "Failed to play sound".to_owned(),
            };
            PlayResponse { status: "error".to_owned(), has_played: false, message: Some(message) }
        },
    }
}

} // verus!
