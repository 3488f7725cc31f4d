use soundboard::data::Sound;
use soundboard::db::{get_sounds_list, increment_play_count, make_some_db, restore};
use soundboard::files::{
    index_sounds_from_disk, reconcile, reconcile_entry, EntryOutcome, FileEntry, IndexReport,
};
use soundboard::fingerprint::fingerprint;

fn file(name: &str, bytes: &[u8]) -> FileEntry {
    FileEntry { name: name.to_string(), path: name.to_string(), contents: Some(bytes.to_vec()) }
}

fn unreadable(name: &str) -> FileEntry {
    FileEntry { name: name.to_string(), path: name.to_string(), contents: None }
}

fn fingerprints(sounds: &[Sound]) -> Vec<[u8; 16]> {
    sounds.iter().map(|s| s.md5sum).collect()
}

#[test]
fn index_sounds_from_disk_fingerprints_readable_files() {
    let entries = vec![
        file("a.wav", b"aaa"),
        unreadable("locked.wav"),
        FileEntry {
            name: "b.wav".to_string(),
            path: "deep/b.wav".to_string(),
            contents: Some(Vec::new()),
        },
    ];
    let sounds = index_sounds_from_disk(&entries);
    assert_eq!(
        sounds,
        vec![
            Sound {
                name: "a.wav".to_string(),
                path: "a.wav".to_string(),
                md5sum: fingerprint(b"aaa"),
                id: 0,
                play_count: 0,
            },
            Sound {
                name: "b.wav".to_string(),
                path: "deep/b.wav".to_string(),
                md5sum: fingerprint(b""),
                id: 0,
                play_count: 0,
            },
        ]
    );
    assert!(index_sounds_from_disk(&Vec::new()).is_empty());
}

#[test]
fn reconcile_entry_inserts_skips_and_fails() {
    let mut db = make_some_db();
    assert_eq!(reconcile_entry(&mut db, &file("a.wav", b"aaa")), EntryOutcome::Inserted(1));
    assert_eq!(reconcile_entry(&mut db, &file("b.wav", b"bbb")), EntryOutcome::Inserted(2));
    assert_eq!(reconcile_entry(&mut db, &file("c.wav", b"aaa")), EntryOutcome::Skipped(1));
    assert_eq!(reconcile_entry(&mut db, &unreadable("d.wav")), EntryOutcome::Failed);
    assert_eq!(db.len(), 2);
}

#[test]
fn reconcile_reports_the_tally() {
    let mut db = make_some_db();
    let entries = vec![
        file("a.wav", b"aaa"),
        unreadable("broken.wav"),
        file("b.wav", b"bbb"),
        file("a-copy.wav", b"aaa"),
        file("empty.wav", b""),
    ];
    let report = reconcile(&entries, &mut db);
    assert_eq!(report, IndexReport { scanned: 5, inserted: 3, skipped: 1, failed: 1 });
    let names: Vec<String> = get_sounds_list(&db).into_iter().map(|s| s.name).collect();
    assert_eq!(names, vec!["a.wav", "b.wav", "empty.wav"]);
}

#[test]
fn reconcile_of_an_empty_directory() {
    let mut db = make_some_db();
    let report = reconcile(&Vec::new(), &mut db);
    assert_eq!(report, IndexReport { scanned: 0, inserted: 0, skipped: 0, failed: 0 });
    assert_eq!(db.len(), 0);
}

#[test]
fn reconcile_twice_changes_nothing_the_second_time() {
    let mut db = make_some_db();
    let entries = vec![
        file("a.wav", b"aaa"),
        file("b.wav", b"bbb"),
        unreadable("c.wav"),
        file("d.wav", b"aaa"),
    ];
    let first = reconcile(&entries, &mut db);
    assert_eq!(first, IndexReport { scanned: 4, inserted: 2, skipped: 1, failed: 1 });
    let after_first = get_sounds_list(&db);
    let second = reconcile(&entries, &mut db);
    assert_eq!(second, IndexReport { scanned: 4, inserted: 0, skipped: 3, failed: 1 });
    let after_second = get_sounds_list(&db);
    assert_eq!(after_second, after_first);
    assert_eq!(after_second.len(), 2);
    assert_eq!(fingerprints(&after_second), fingerprints(&after_first));
}

#[test]
fn reconcile_keeps_play_counts() {
    let mut db = make_some_db();
    let entries = vec![file("a.wav", b"aaa"), file("b.wav", b"bbb")];
    reconcile(&entries, &mut db);
    increment_play_count(&mut db, 2).unwrap();
    increment_play_count(&mut db, 2).unwrap();
    let before = get_sounds_list(&db);
    let report = reconcile(&entries, &mut db);
    assert_eq!(report.inserted, 0);
    assert_eq!(get_sounds_list(&db), before);
    assert_eq!(before[1].play_count, 2);
}

#[test]
fn identical_bytes_under_two_names_are_one_sound() {
    let mut db = make_some_db();
    let entries = vec![file("one.wav", b"same content"), file("two.wav", b"same content")];
    let report = reconcile(&entries, &mut db);
    assert_eq!(report, IndexReport { scanned: 2, inserted: 1, skipped: 1, failed: 0 });
    let rows = get_sounds_list(&db);
    assert_eq!(rows.len(), 1);
    assert_eq!(rows[0].md5sum, fingerprint(b"same content"));
}

#[test]
fn zero_byte_files_are_sounds() {
    let mut db = make_some_db();
    let report = reconcile(&vec![file("silence.wav", b"")], &mut db);
    assert_eq!(report, IndexReport { scanned: 1, inserted: 1, skipped: 0, failed: 0 });
    assert_eq!(get_sounds_list(&db)[0].md5sum, fingerprint(b""));
}

#[test]
fn a_full_catalogue_counts_new_files_as_failed() {
    let last = Sound {
        name: "last.wav".to_string(),
        path: "last.wav".to_string(),
        md5sum: fingerprint(b"last"),
        id: i64::MAX,
        play_count: 0,
    };
    let mut db = restore(vec![last]).unwrap();
    let entries = vec![file("new.wav", b"new"), file("last.wav", b"last"), file("more.wav", b"m")];
    let report = reconcile(&entries, &mut db);
    assert_eq!(report, IndexReport { scanned: 3, inserted: 0, skipped: 1, failed: 2 });
    assert_eq!(db.len(), 1);
}

#[test]
fn entries_of_removed_files_stay() {
    let mut db = make_some_db();
    reconcile(&vec![file("a.wav", b"aaa"), file("b.wav", b"bbb")], &mut db);
    let before = get_sounds_list(&db);
    let report = reconcile(&vec![file("b.wav", b"bbb")], &mut db);
    assert_eq!(report, IndexReport { scanned: 1, inserted: 0, skipped: 1, failed: 0 });
    assert_eq!(get_sounds_list(&db), before);
}

#[test]
fn a_changed_file_becomes_a_new_entry() {
    let mut db = make_some_db();
    reconcile(&vec![file("a.wav", b"old bytes")], &mut db);
    let report = reconcile(&vec![file("a.wav", b"new bytes")], &mut db);
    assert_eq!(report, IndexReport { scanned: 1, inserted: 1, skipped: 0, failed: 0 });
    let rows = get_sounds_list(&db);
    assert_eq!(rows.len(), 2);
    assert_eq!(rows[0].md5sum, fingerprint(b"old bytes"));
    assert_eq!(rows[1].md5sum, fingerprint(b"new bytes"));
    assert_eq!(rows[1].id, 2);
}
