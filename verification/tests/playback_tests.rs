use soundboard::data::Sound;
use soundboard::db::{get_sound_by_name, get_sounds_list, insert_if_absent, make_some_db, restore, Catalog};
use soundboard::fingerprint::fingerprint;
use soundboard::playback::{
    finish_play, play, record_play, Arbiter, Dispatch, Launched, PlaybackError, Played,
    ProcessHandle,
};

fn two_sounds() -> Catalog {
    let mut db = make_some_db();
    insert_if_absent(&mut db, "a.wav", "a.wav", &fingerprint(b"aaa")).unwrap();
    insert_if_absent(&mut db, "b.wav", "sub/b.wav", &fingerprint(b"bbb")).unwrap();
    db
}

fn count_of(db: &Catalog, name: &str) -> i64 {
    get_sound_by_name(db, name).unwrap().play_count
}

#[test]
fn a_new_arbiter_is_free() {
    let arbiter = Arbiter::new();
    assert!(!arbiter.is_busy());
    assert!(arbiter.active().is_empty());
}

#[test]
fn begin_play_says_what_to_launch_and_takes_the_flag() {
    let db = two_sounds();
    let mut arbiter = Arbiter::new();
    let answer = arbiter.begin_play(&get_sound_by_name(&db, "b.wav"));
    assert_eq!(answer, Ok(Dispatch { sound_id: 2, path: "sub/b.wav".to_string() }));
    assert!(arbiter.is_busy());
}

#[test]
fn play_starts_the_player_and_counts_once() {
    let mut db = two_sounds();
    let mut arbiter = Arbiter::new();
    let mut asked: Vec<String> = Vec::new();
    let answer = play(&mut arbiter, &mut db, "b.wav", |path| {
        asked.push(path);
        Some(ProcessHandle { pid: 41 })
    });
    assert_eq!(
        answer,
        Ok(Played { sound_id: 2, handle: ProcessHandle { pid: 41 }, counted: true })
    );
    assert_eq!(asked, vec!["sub/b.wav".to_string()]);
    assert_eq!(count_of(&db, "b.wav"), 1);
    assert_eq!(count_of(&db, "a.wav"), 0);
    assert!(!arbiter.is_busy());
    assert_eq!(arbiter.active(), vec![ProcessHandle { pid: 41 }]);
}

#[test]
fn n_plays_raise_the_count_by_n() {
    let mut db = two_sounds();
    let mut arbiter = Arbiter::new();
    for n in 1..=25u32 {
        let answer = play(&mut arbiter, &mut db, "a.wav", |_| Some(ProcessHandle { pid: n }));
        assert!(matches!(answer, Ok(Played { sound_id: 1, counted: true, .. })));
        assert_eq!(count_of(&db, "a.wav"), n as i64);
    }
    assert_eq!(count_of(&db, "b.wav"), 0);
    assert_eq!(arbiter.active().len(), 25);
}

#[test]
fn a_second_request_while_the_flag_is_held_is_busy() {
    let mut db = two_sounds();
    let mut arbiter = Arbiter::new();
    let first = arbiter.begin_play(&get_sound_by_name(&db, "a.wav")).unwrap();
    let second = arbiter.begin_play(&get_sound_by_name(&db, "b.wav"));
    assert_eq!(second, Err(PlaybackError::Busy));
    assert!(arbiter.is_busy());
    let done = finish_play(&mut arbiter, &mut db, &first, Some(ProcessHandle { pid: 5 }));
    assert_eq!(done, Ok(Played { sound_id: 1, handle: ProcessHandle { pid: 5 }, counted: true }));
    assert!(!arbiter.is_busy());
    assert_eq!(count_of(&db, "a.wav"), 1);
    assert_eq!(count_of(&db, "b.wav"), 0);
}

#[test]
fn play_on_a_busy_arbiter_is_busy_and_does_not_launch() {
    let mut db = two_sounds();
    let mut arbiter = Arbiter::new();
    let held = arbiter.begin_play(&get_sound_by_name(&db, "a.wav")).unwrap();
    let mut launches = 0;
    let answer = play(&mut arbiter, &mut db, "b.wav", |_| {
        launches += 1;
        Some(ProcessHandle { pid: 1 })
    });
    assert_eq!(answer, Err(PlaybackError::Busy));
    assert_eq!(launches, 0);
    assert!(arbiter.is_busy());
    assert_eq!(count_of(&db, "b.wav"), 0);
    assert_eq!(
        arbiter.end_launch(&held, Some(ProcessHandle { pid: 2 })),
        Ok(Launched { sound_id: 1, handle: ProcessHandle { pid: 2 } })
    );
    assert!(!arbiter.is_busy());
}

#[test]
fn a_failed_launch_frees_the_flag_for_the_next_request() {
    let mut db = two_sounds();
    let mut arbiter = Arbiter::new();
    let failed = play(&mut arbiter, &mut db, "a.wav", |_| None);
    assert_eq!(failed, Err(PlaybackError::LaunchError));
    assert!(!arbiter.is_busy());
    assert_eq!(count_of(&db, "a.wav"), 0);
    assert!(arbiter.active().is_empty());
    let next = play(&mut arbiter, &mut db, "a.wav", |_| Some(ProcessHandle { pid: 3 }));
    assert_eq!(next, Ok(Played { sound_id: 1, handle: ProcessHandle { pid: 3 }, counted: true }));
    assert_eq!(count_of(&db, "a.wav"), 1);
}

#[test]
fn end_launch_with_a_failure_is_a_launch_error() {
    let db = two_sounds();
    let mut arbiter = Arbiter::new();
    let dispatch = arbiter.begin_play(&get_sound_by_name(&db, "a.wav")).unwrap();
    assert_eq!(arbiter.end_launch(&dispatch, None), Err(PlaybackError::LaunchError));
    assert!(!arbiter.is_busy());
    assert!(arbiter.begin_play(&get_sound_by_name(&db, "b.wav")).is_ok());
}

#[test]
fn an_unknown_name_is_not_found_and_touches_nothing() {
    let mut db = two_sounds();
    let before = get_sounds_list(&db);
    let mut arbiter = Arbiter::new();
    let mut launches = 0;
    let answer = play(&mut arbiter, &mut db, "nonexistent.wav", |_| {
        launches += 1;
        Some(ProcessHandle { pid: 1 })
    });
    assert_eq!(answer, Err(PlaybackError::NotFound));
    assert_eq!(launches, 0);
    assert!(!arbiter.is_busy());
    assert_eq!(get_sounds_list(&db), before);
}

#[test]
fn an_unknown_name_on_a_busy_arbiter_is_still_not_found() {
    let mut db = two_sounds();
    let mut arbiter = Arbiter::new();
    let held = arbiter.begin_play(&get_sound_by_name(&db, "a.wav")).unwrap();
    assert_eq!(arbiter.begin_play(&None), Err(PlaybackError::NotFound));
    let answer = play(&mut arbiter, &mut db, "nonexistent.wav", |_| None);
    assert_eq!(answer, Err(PlaybackError::NotFound));
    assert!(arbiter.is_busy());
    assert_eq!(held.sound_id, 1);
}

#[test]
fn stop_all_hands_out_the_players_and_frees_the_flag() {
    let mut db = two_sounds();
    let mut arbiter = Arbiter::new();
    play(&mut arbiter, &mut db, "a.wav", |_| Some(ProcessHandle { pid: 10 })).unwrap();
    play(&mut arbiter, &mut db, "b.wav", |_| Some(ProcessHandle { pid: 11 })).unwrap();
    let _held = arbiter.begin_play(&get_sound_by_name(&db, "a.wav")).unwrap();
    assert!(arbiter.is_busy());
    let stopped = arbiter.stop_all();
    assert_eq!(stopped, vec![ProcessHandle { pid: 10 }, ProcessHandle { pid: 11 }]);
    assert!(!arbiter.is_busy());
    assert!(arbiter.active().is_empty());
    assert!(arbiter.stop_all().is_empty());
    assert!(arbiter.begin_play(&get_sound_by_name(&db, "b.wav")).is_ok());
}

#[test]
fn a_play_that_cannot_be_counted_is_still_a_play() {
    let full = Sound {
        name: "hit.wav".to_string(),
        path: "hit.wav".to_string(),
        md5sum: fingerprint(b"hit"),
        id: 1,
        play_count: i64::MAX,
    };
    let mut db = restore(vec![full]).unwrap();
    let mut arbiter = Arbiter::new();
    let answer = play(&mut arbiter, &mut db, "hit.wav", |_| Some(ProcessHandle { pid: 8 }));
    assert_eq!(
        answer,
        Ok(Played { sound_id: 1, handle: ProcessHandle { pid: 8 }, counted: false })
    );
    assert_eq!(count_of(&db, "hit.wav"), i64::MAX);
    assert!(!arbiter.is_busy());
}

#[test]
fn record_play_of_an_unknown_identity_counts_nothing() {
    let mut db = two_sounds();
    let before = get_sounds_list(&db);
    let launched = Launched { sound_id: 99, handle: ProcessHandle { pid: 1 } };
    let played = record_play(&mut db, &launched);
    assert_eq!(played, Played { sound_id: 99, handle: ProcessHandle { pid: 1 }, counted: false });
    assert_eq!(get_sounds_list(&db), before);
}
