//! The playback arbiter: at most one playback is being launched at a time.
//!
//! The arbiter owns the busy flag and the handles of the players it has seen
//! start. It never starts or stops a process itself: [`Arbiter::begin_play`]
//! says what to launch, the caller launches it, and
//! [`Arbiter::end_launch`] takes the news. [`play`] runs the whole request
//! for a caller that brings the launcher along.

use vstd::prelude::*;
use crate::catalog::{lemma_id_position, lemma_incremented_wf, lemma_name_position, CatalogView};
use crate::data::{Sound, SoundView};
use crate::db::{get_sound_by_name, increment_play_count, view_of, Catalog};

verus! {

/// Names one running player process.
#[derive(Debug, Clone, Copy, PartialEq, Eq, Structural)]
pub struct ProcessHandle {
    pub pid: u32,
}

/// Why a playback request was turned down.
#[derive(Debug, Clone, Copy, PartialEq, Eq, Structural)]
pub enum PlaybackError {
    /// No sound has the name asked for.
    NotFound,
    /// Another playback is being launched; the caller may try again.
    Busy,
    /// The player could not be started.
    LaunchError,
}

/// What the caller is to launch after a request was accepted.
#[derive(Debug, PartialEq, Eq)]
pub struct Dispatch {
    /// Identity of the sound.
    pub sound_id: i64,
    /// Its path below the asset root.
    pub path: String,
}

/// What a [`Dispatch`] stands for in contracts.
pub ghost struct DispatchView {
    pub sound_id: int,
    pub path: Seq<char>,
}

impl View for Dispatch {
    type V = DispatchView;

    open spec fn view(&self) -> DispatchView {
        DispatchView { sound_id: self.sound_id as int, path: self.path@ }
    }
}

/// A player that has started and whose play is not yet counted.
#[derive(Debug, Clone, Copy, PartialEq, Eq, Structural)]
pub struct Launched {
    pub sound_id: i64,
    pub handle: ProcessHandle,
}

/// A request that was carried out: the player runs.
#[derive(Debug, Clone, Copy, PartialEq, Eq, Structural)]
pub struct Played {
    /// Identity of the sound.
    pub sound_id: i64,
    /// The player that was started.
    pub handle: ProcessHandle,
    /// Whether the catalogue counted the play. A play that could not be
    /// counted is still a play.
    pub counted: bool,
}

/// What an arbiter stands for in contracts.
pub ghost struct ArbiterView {
    /// A playback is being launched.
    pub busy: bool,
    /// The players seen to start since the last stop, oldest first.
    pub active: Seq<ProcessHandle>,
}

/// What the answer to a request stands for.
pub open spec fn dispatch_view(answer: Result<Dispatch, PlaybackError>) -> Result<
    DispatchView,
    PlaybackError,
> {
    match answer {
        Ok(d) => Ok(d@),
        Err(e) => Err(e),
    }
}

impl ArbiterView {
    /// An arbiter at rest.
    pub open spec fn idle() -> ArbiterView {
        ArbiterView { busy: false, active: Seq::empty() }
    }

    /// The answer to a request for the sound that the name resolved to.
    pub open spec fn begin_answer(self, sound: Option<SoundView>) -> Result<
        DispatchView,
        PlaybackError,
    > {
        match sound {
            None => Err(PlaybackError::NotFound),
            Some(s) => if self.busy {
                Err(PlaybackError::Busy)
            } else {
                Ok(DispatchView { sound_id: s.id, path: s.path })
            },
        }
    }

    /// The arbiter after that request: busy if and only if it was busy or
    /// the request was accepted.
    pub open spec fn after_begin(self, sound: Option<SoundView>) -> ArbiterView {
        if self.begin_answer(sound) is Ok {
            ArbiterView { busy: true, ..self }
        } else {
            self
        }
    }

    /// The arbiter after the launch ended: free, and one handle richer if a
    /// player started.
    pub open spec fn after_launch(self, launched: Option<ProcessHandle>) -> ArbiterView {
        ArbiterView {
            busy: false,
            active: match launched {
                Some(h) => self.active.push(h),
                None => self.active,
            },
        }
    }

    /// The arbiter after everything was stopped.
    pub open spec fn after_stop(self) -> ArbiterView {
        ArbiterView::idle()
    }
}

/// What the end of a launch means for the request.
pub open spec fn launch_answer(dispatch: DispatchView, launched: Option<ProcessHandle>) -> Result<
    Launched,
    PlaybackError,
> {
    match launched {
        Some(handle) => Ok(Launched { sound_id: dispatch.sound_id as i64, handle }),
        None => Err(PlaybackError::LaunchError),
    }
}

/// Whether the catalogue `c` can count one more play of the entry `id`.
pub open spec fn countable(c: CatalogView, id: int) -> bool {
    c.has_id(id) && c.by_id(id).unwrap().play_count < i64::MAX
}

/// The catalogue after a play of the entry `id` was recorded.
pub open spec fn after_record(c: CatalogView, id: int) -> CatalogView {
    if countable(c, id) {
        c.incremented(id)
    } else {
        c
    }
}

/// The answer to a whole request for `name`, where `launched` is what the
/// launcher reports if it comes to be asked.
pub open spec fn play_answer(
    a: ArbiterView,
    c: CatalogView,
    name: Seq<char>,
    launched: Option<ProcessHandle>,
) -> Result<Played, PlaybackError> {
    match a.begin_answer(c.by_name(name)) {
        Err(e) => Err(e),
        Ok(dispatch) => match launch_answer(dispatch, launched) {
            Err(e) => Err(e),
            Ok(l) => Ok(
                Played {
                    sound_id: l.sound_id,
                    handle: l.handle,
                    counted: countable(c, l.sound_id as int),
                },
            ),
        },
    }
}

/// The arbiter after that request.
pub open spec fn arbiter_after_play(
    a: ArbiterView,
    c: CatalogView,
    name: Seq<char>,
    launched: Option<ProcessHandle>,
) -> ArbiterView {
    if a.begin_answer(c.by_name(name)) is Ok {
        a.after_begin(c.by_name(name)).after_launch(launched)
    } else {
        a
    }
}

/// The catalogue after that request.
pub open spec fn catalog_after_play(
    a: ArbiterView,
    c: CatalogView,
    name: Seq<char>,
    launched: Option<ProcessHandle>,
) -> CatalogView {
    match play_answer(a, c, name, launched) {
        Ok(played) => after_record(c, played.sound_id as int),
        Err(_) => c,
    }
}

/// The busy flag and the players in flight.
#[derive(Debug)]
pub struct Arbiter {
    busy: bool,
    active: Vec<ProcessHandle>,
}

impl View for Arbiter {
    type V = ArbiterView;

    closed spec fn view(&self) -> ArbiterView {
        ArbiterView { busy: self.busy, active: self.active@ }
    }
}

impl Arbiter {
    /// An arbiter at rest: free, with no player in flight.
    pub fn new() -> (arbiter: Arbiter)
        ensures
            arbiter@ == ArbiterView::idle(),
    {
        Arbiter { busy: false, active: Vec::new() }
    }

    /// Whether a playback is being launched.
    pub fn is_busy(&self) -> (busy: bool)
        ensures
            busy == self@.busy,
    {
        self.busy
    }

    /// The players in flight, oldest first.
    pub fn active(&self) -> (handles: Vec<ProcessHandle>)
        ensures
            handles@ == self@.active,
    {
        self.active.clone()
    }

    /// Takes a playback request for the sound that its name resolved to.
    ///
    /// An unknown name is answered with `NotFound` and leaves the flag
    /// alone. A known sound is answered with `Busy`, at once, while another
    /// launch is under way. Otherwise the flag is taken and the answer says
    /// what to launch; the caller owes an [`Arbiter::end_launch`].
    pub fn begin_play(&mut self, sound: &Option<Sound>) -> (answer: Result<Dispatch, PlaybackError>)
        ensures
            dispatch_view(answer) == old(self)@.begin_answer(view_of(*sound)),
            final(self)@ == old(self)@.after_begin(view_of(*sound)),
    {
        match sound {
            None => Err(PlaybackError::NotFound),
            Some(s) => {
                if self.busy {
                    Err(PlaybackError::Busy)
                } else {
                    self.busy = true;
                    Ok(Dispatch { sound_id: s.id, path: s.path.clone() })
                }
            },
        }
    }

    /// Takes the news of a launch: the handle of the player that started, or
    /// `None` where it failed. The flag is free afterwards in either case.
    pub fn end_launch(&mut self, dispatch: &Dispatch, launched: Option<ProcessHandle>) -> (answer:
        Result<Launched, PlaybackError>)
        ensures
            answer == launch_answer(dispatch@, launched),
            final(self)@ == old(self)@.after_launch(launched),
    {
        self.busy = false;
        match launched {
            Some(handle) => {
                self.active.push(handle);
                Ok(Launched { sound_id: dispatch.sound_id, handle })
            },
            None => Err(PlaybackError::LaunchError),
        }
    }

    /// The kill switch: hands out every player in flight, for the caller to
    /// terminate, forgets them, and frees the flag if it was taken.
    pub fn stop_all(&mut self) -> (stopped: Vec<ProcessHandle>)
        ensures
            stopped@ == old(self)@.active,
            final(self)@ == old(self)@.after_stop(),
    {
        let mut stopped: Vec<ProcessHandle> = Vec::new();
        std::mem::swap(&mut stopped, &mut self.active);
        self.busy = false;
        stopped
    }
}

/// Counts the play of a player that has started. Where the catalogue cannot
/// count it the play stands all the same, and `counted` says so.
pub fn record_play(store: &mut Catalog, launched: &Launched) -> (played: Played)
    requires
        old(store).wf(),
    ensures
        final(store).wf(),
        final(store)@ == after_record(old(store)@, launched.sound_id as int),
        played == (Played {
            sound_id: launched.sound_id,
            handle: launched.handle,
            counted: countable(old(store)@, launched.sound_id as int),
        }),
{
    let counted = increment_play_count(store, launched.sound_id).is_ok();
    Played { sound_id: launched.sound_id, handle: launched.handle, counted }
}

/// Ends an accepted request once the launcher has reported: frees the flag,
/// and counts the play if a player started.
pub fn finish_play(
    arbiter: &mut Arbiter,
    store: &mut Catalog,
    dispatch: &Dispatch,
    launched: Option<ProcessHandle>,
) -> (answer: Result<Played, PlaybackError>)
    requires
        old(store).wf(),
    ensures
        final(store).wf(),
        final(arbiter)@ == old(arbiter)@.after_launch(launched),
        match launched {
            Some(handle) => {
                &&& answer == Ok::<Played, PlaybackError>(
                    Played {
                        sound_id: dispatch.sound_id,
                        handle,
                        counted: countable(old(store)@, dispatch.sound_id as int),
                    },
                )
                &&& final(store)@ == after_record(old(store)@, dispatch.sound_id as int)
            },
            None => {
                &&& answer == Err::<Played, PlaybackError>(PlaybackError::LaunchError)
                &&& final(store)@ == old(store)@
            },
        },
{
    match arbiter.end_launch(dispatch, launched) {
        Err(e) => Err(e),
        Ok(l) => Ok(record_play(store, &l)),
    }
}

/// Carries out one playback request for `name`.
///
/// The name is resolved first: an unknown one is answered with `NotFound`,
/// and neither the flag nor any play count is touched. Then the flag is
/// tried: if it is taken the answer is `Busy`, at once. Otherwise `launch` is
/// called, once, with the sound's path. Whatever it reports, the flag is free
/// again when this returns. `None` from it gives `LaunchError`; a handle
/// gives `Played`, and the play is counted once, or not at all where the
/// catalogue cannot count it.
pub fn play<F: FnOnce(String) -> Option<ProcessHandle>>(
    arbiter: &mut Arbiter,
    store: &mut Catalog,
    name: &str,
    launch: F,
) -> (answer: Result<Played, PlaybackError>)
    requires
        old(store).wf(),
        forall|path: String| call_requires(launch, (path,)),
    ensures
        final(store).wf(),
        !old(store)@.has_name(name@) ==> answer == Err::<Played, PlaybackError>(
            PlaybackError::NotFound,
        ) && final(arbiter)@ == old(arbiter)@ && final(store)@ == old(store)@,
        old(store)@.has_name(name@) && old(arbiter)@.busy ==> answer == Err::<
            Played,
            PlaybackError,
        >(PlaybackError::Busy) && final(arbiter)@ == old(arbiter)@ && final(store)@ == old(
            store,
        )@,
        !final(arbiter)@.busy || old(arbiter)@.busy,
        exists|launched: Option<ProcessHandle>|
            {
                &&& old(arbiter)@.begin_answer(old(store)@.by_name(name@)) matches Ok(d)
                    ==> exists|path: String| path@ == d.path && call_ensures(
                        launch,
                        (path,),
                        launched,
                    )
                &&& answer == #[trigger] play_answer(old(arbiter)@, old(store)@, name@, launched)
                &&& final(arbiter)@ == arbiter_after_play(
                    old(arbiter)@,
                    old(store)@,
                    name@,
                    launched,
                )
                &&& final(store)@ == catalog_after_play(
                    old(arbiter)@,
                    old(store)@,
                    name@,
                    launched,
                )
            },
{
    let sound = get_sound_by_name(store, name);
    match arbiter.begin_play(&sound) {
        Err(e) => {
            assert(Err::<Played, PlaybackError>(e) == play_answer(
                old(arbiter)@,
                old(store)@,
                name@,
                None,
            ));
            Err(e)
        },
        Ok(dispatch) => {
            let launched = launch(dispatch.path.clone());
            let answer = finish_play(arbiter, store, &dispatch, launched);
            assert(answer == play_answer(old(arbiter)@, old(store)@, name@, launched));
            answer
        },
    }
}

/// The arbiter and the catalogue after one request for `name` was made for
/// each of `handles`, in turn, each launch reporting that handle.
pub open spec fn after_plays(
    a: ArbiterView,
    c: CatalogView,
    name: Seq<char>,
    handles: Seq<ProcessHandle>,
) -> (ArbiterView, CatalogView)
    decreases handles.len(),
{
    if handles.len() == 0 {
        (a, c)
    } else {
        let (a1, c1) = after_plays(a, c, name, handles.drop_last());
        (
            arbiter_after_play(a1, c1, name, Some(handles.last())),
            catalog_after_play(a1, c1, name, Some(handles.last())),
        )
    }
}

/// The answer to the last of those requests.
pub open spec fn last_play_answer(
    a: ArbiterView,
    c: CatalogView,
    name: Seq<char>,
    handles: Seq<ProcessHandle>,
) -> Result<Played, PlaybackError>
    recommends
        handles.len() > 0,
{
    let (a1, c1) = after_plays(a, c, name, handles.drop_last());
    play_answer(a1, c1, name, Some(handles.last()))
}

/// The request was carried out and the play was counted.
pub open spec fn played_and_counted(answer: Result<Played, PlaybackError>) -> bool {
    answer matches Ok(p) && p.counted
}

/// Counting a play of the entry `id` changes that entry's play count and
/// nothing else: every name, identity and position stays.
pub proof fn lemma_incremented_rows(c: CatalogView, id: int)
    requires
        c.wf(),
        c.has_id(id),
    ensures
        c.incremented(id).rows.len() == c.rows.len(),
        c.incremented(id).last_id == c.last_id,
        forall|i: int|
            0 <= i < c.rows.len() ==> #[trigger] c.incremented(id).rows[i] == if c.rows[i].id
                == id {
                c.rows[i].with_play_count(c.rows[i].play_count + 1)
            } else {
                c.rows[i]
            },
{
    let k = c.id_position(id);
    assert(c.is_at_id(id, k));
    assert forall|i: int| 0 <= i < c.rows.len() implies #[trigger] c.incremented(id).rows[i]
        == if c.rows[i].id == id {
        c.rows[i].with_play_count(c.rows[i].play_count + 1)
    } else {
        c.rows[i]
    } by {
        if c.rows[i].id == id {
            lemma_id_position(c, id, i);
        }
    }
}

/// A request that is carried out and counted leaves the arbiter free and
/// raises the play count of the sound called `name` by one; the catalogue
/// stays well formed and the name still resolves to the same sound.
pub proof fn lemma_counted_play(
    a: ArbiterView,
    c: CatalogView,
    name: Seq<char>,
    handle: ProcessHandle,
)
    requires
        c.wf(),
        played_and_counted(play_answer(a, c, name, Some(handle))),
    ensures
        !a.busy,
        c.has_name(name),
        !arbiter_after_play(a, c, name, Some(handle)).busy,
        catalog_after_play(a, c, name, Some(handle)).wf(),
        catalog_after_play(a, c, name, Some(handle)).by_name(name) == Some(
            c.by_name(name).unwrap().with_play_count(c.by_name(name).unwrap().play_count + 1),
        ),
{
    let at = c.name_position(name);
    assert(c.is_first_named(name, at));
    let sound = c.rows[at];
    let id = sound.id;
    lemma_id_position(c, id, at);
    lemma_incremented_wf(c, id);
    lemma_incremented_rows(c, id);
    let d = catalog_after_play(a, c, name, Some(handle));
    assert(d == c.incremented(id));
    assert(d.is_first_named(name, at)) by {
        assert forall|j: int| 0 <= j < at implies (#[trigger] d.rows[j]).name != name by {
            assert(c.rows[j].name != name);
        }
    }
    lemma_name_position(d, name, at);
}

/// Play counts only grow by plays: `n` requests for one name that are each
/// carried out and counted raise that sound's play count by exactly `n`.
pub proof fn lemma_play_count_grows_by_plays(
    a: ArbiterView,
    c: CatalogView,
    name: Seq<char>,
    handles: Seq<ProcessHandle>,
)
    requires
        c.wf(),
        c.has_name(name),
        forall|k: int|
            1 <= k <= handles.len() ==> played_and_counted(
                #[trigger] last_play_answer(a, c, name, handles.take(k)),
            ),
    ensures
        after_plays(a, c, name, handles).1.wf(),
        after_plays(a, c, name, handles).1.by_name(name) == Some(
            c.by_name(name).unwrap().with_play_count(
                c.by_name(name).unwrap().play_count + handles.len(),
            ),
        ),
    decreases handles.len(),
{
    if handles.len() == 0 {
        assert(c.by_name(name).unwrap().with_play_count(c.by_name(name).unwrap().play_count + 0)
            == c.by_name(name).unwrap());
    } else {
        let front = handles.drop_last();
        assert forall|k: int| 1 <= k <= front.len() implies played_and_counted(
            #[trigger] last_play_answer(a, c, name, front.take(k)),
        ) by {
            assert(front.take(k) =~= handles.take(k));
        }
        lemma_play_count_grows_by_plays(a, c, name, front);
        let (a1, c1) = after_plays(a, c, name, front);
        assert(handles.take(handles.len() as int) =~= handles);
        assert(played_and_counted(last_play_answer(a, c, name, handles.take(handles.len() as int))));
        lemma_counted_play(a1, c1, name, handles.last());
    }
}

/// Such requests are all carried out and counted when they start from a free
/// arbiter and a known name, and the count has room for them.
pub proof fn lemma_plays_are_counted(
    a: ArbiterView,
    c: CatalogView,
    name: Seq<char>,
    handles: Seq<ProcessHandle>,
)
    requires
        c.wf(),
        !a.busy,
        c.has_name(name),
        c.by_name(name).unwrap().play_count + handles.len() <= i64::MAX,
    ensures
        !after_plays(a, c, name, handles).0.busy,
        forall|k: int|
            1 <= k <= handles.len() ==> played_and_counted(
                #[trigger] last_play_answer(a, c, name, handles.take(k)),
            ),
    decreases handles.len(),
{
    if handles.len() > 0 {
        let front = handles.drop_last();
        lemma_plays_are_counted(a, c, name, front);
        lemma_play_count_grows_by_plays(a, c, name, front);
        let (a1, c1) = after_plays(a, c, name, front);
        let at = c1.name_position(name);
        assert(c1.has_name(name));
        assert(c1.is_first_named(name, at));
        lemma_id_position(c1, c1.rows[at].id, at);
        assert(played_and_counted(play_answer(a1, c1, name, Some(handles.last()))));
        lemma_counted_play(a1, c1, name, handles.last());
        assert forall|k: int| 1 <= k <= handles.len() implies played_and_counted(
            #[trigger] last_play_answer(a, c, name, handles.take(k)),
        ) by {
            if k < handles.len() {
                assert(front.take(k) =~= handles.take(k));
            } else {
                assert(handles.take(k) =~= handles);
            }
        }
    }
}

/// Mutual exclusion: of two requests for known sounds, where the second
/// comes while the first holds the flag, the first is accepted and the
/// second is answered `Busy` and changes nothing. Once the first player has
/// started, the first request is carried out and the flag is free.
pub proof fn lemma_mutual_exclusion(
    a: ArbiterView,
    first: SoundView,
    second: SoundView,
    handle: ProcessHandle,
)
    requires
        !a.busy,
    ensures
        a.begin_answer(Some(first)) is Ok,
        a.after_begin(Some(first)).busy,
        a.after_begin(Some(first)).begin_answer(Some(second)) == Err::<
            DispatchView,
            PlaybackError,
        >(PlaybackError::Busy),
        a.after_begin(Some(first)).after_begin(Some(second)) == a.after_begin(Some(first)),
        launch_answer(a.begin_answer(Some(first))->Ok_0, Some(handle)) is Ok,
        !a.after_begin(Some(first)).after_launch(Some(handle)).busy,
{
}

/// No two requests are accepted without the end of a launch between them,
/// whatever the arbiter's state.
pub proof fn lemma_one_at_a_time(a: ArbiterView, first: Option<SoundView>, second: Option<SoundView>)
    ensures
        !(a.begin_answer(first) is Ok && a.after_begin(first).begin_answer(second) is Ok),
{
}

/// A failed launch does not wedge the device: the request is answered
/// `LaunchError`, the flag is free afterwards, and the very next request for
/// a known sound is accepted.
pub proof fn lemma_flag_released_on_failure(a: ArbiterView, dispatch: DispatchView, next: SoundView)
    ensures
        launch_answer(dispatch, None) == Err::<Launched, PlaybackError>(
            PlaybackError::LaunchError,
        ),
        !a.after_launch(None).busy,
        a.after_launch(None).active == a.active,
        a.after_launch(None).begin_answer(Some(next)) is Ok,
{
}

/// The same for a whole request: where the launcher fails on a known name
/// with the flag free, the answer is `LaunchError`, no play is counted, and
/// the flag is free for the next request.
pub proof fn lemma_failed_play_releases(a: ArbiterView, c: CatalogView, name: Seq<char>)
    requires
        !a.busy,
        c.has_name(name),
    ensures
        play_answer(a, c, name, None) == Err::<Played, PlaybackError>(PlaybackError::LaunchError),
        !arbiter_after_play(a, c, name, None).busy,
        catalog_after_play(a, c, name, None) == c,
        forall|handle: ProcessHandle| #[trigger]
            play_answer(arbiter_after_play(a, c, name, None), c, name, Some(handle)) is Ok,
{
}

/// A request for an unknown name is answered `NotFound` and touches
/// neither the flag nor any play count, whatever state the arbiter is in.
pub proof fn lemma_unknown_name(
    a: ArbiterView,
    c: CatalogView,
    name: Seq<char>,
    launched: Option<ProcessHandle>,
)
    requires
        !c.has_name(name),
    ensures
        play_answer(a, c, name, launched) == Err::<Played, PlaybackError>(PlaybackError::NotFound),
        arbiter_after_play(a, c, name, launched) == a,
        catalog_after_play(a, c, name, launched) == c,
{
}

/// The kill switch frees the flag and forgets every player, whatever the
/// state before.
pub proof fn lemma_stop_frees(a: ArbiterView, next: SoundView)
    ensures
        !a.after_stop().busy,
        a.after_stop().active.len() == 0,
        a.after_stop().begin_answer(Some(next)) is Ok,
{
}

} // verus!
