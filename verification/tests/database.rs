use watchlog::database::{Anime, SimpleDatabase};
use watchlog::dates::{Date, DateTime, Time};
use watchlog::elements::{Episode, WatchEntry};
use watchlog::errors::StoreError;

/// A fixed-day timestamp at the given minute past midnight, standing
/// in for an arbitrary instant.
fn ts(minute: u8) -> DateTime {
    DateTime { date: Date { year: 1970, month: 1, day: 1 }, time: Time { hour: 0, minute } }
}

#[test]
fn db_empty_anime_not_found() {
    let db = SimpleDatabase::new();

    let anime_id: usize = 1;
    assert_eq!(db.find_anime_by_id(anime_id), None);
}

#[test]
fn added_anime_found() {
    let mut db = SimpleDatabase::new();

    let anime_id = db.add_new_anime("My Anime").unwrap();
    assert_eq!(db.find_anime_by_id(anime_id), Some(&Anime::new(anime_id, "My Anime".to_string())));
}

#[test]
fn add_existing_anime_fails() {
    let mut db = SimpleDatabase::new();

    let _anime_id = db.add_new_anime("My Anime");
    assert!(db.add_new_anime("My Anime").is_err(), "Adding existing anime should fail, but was successful");
}

#[test]
fn add_two_animes_both_ok() {
    let mut db = SimpleDatabase::new();

    let anime_id_1 = db.add_new_anime("My Anime 1").unwrap();
    let anime_id_2 = db.add_new_anime("My Anime 2").unwrap();

    assert_eq!(db.find_anime_by_id(anime_id_1), Some(&Anime::new(anime_id_1, "My Anime 1".to_string())));
    assert_eq!(db.find_anime_by_id(anime_id_2), Some(&Anime::new(anime_id_2, "My Anime 2".to_string())));
    assert_ne!(anime_id_1, anime_id_2);
}

#[test]
fn add_two_animes_third_doesnt_exist() {
    let mut db = SimpleDatabase::new();

    let _anime_id_1 = db.add_new_anime("My Anime 1").unwrap();
    let _anime_id_2 = db.add_new_anime("My Anime 2").unwrap();

    let anime_title = "My Anime 3";
    assert_eq!(db.find_anime_by_name(anime_title), None);
}

#[test]
fn watch_entries_start_empty() {
    let mut db = SimpleDatabase::new();

    let anime_id = db.add_new_anime("My Anime").unwrap();
    let anime = db.find_anime_by_id(anime_id).unwrap();
    assert_eq!(anime.watch_entries.len(), 0);
}

#[test]
fn add_watch_entry_ok() {
    let mut db = SimpleDatabase::new();

    let anime_id = db.add_new_anime("My Anime").unwrap();

    let entry = WatchEntry::new(
        anime_id,
        ts(0),
        ts(1),
        Episode::from("1").unwrap(),
        None,
    );

    let anime = db.find_anime_by_id(anime_id).unwrap();
    assert_eq!(anime.watch_entries.len(), 0);

    db.add_watch_entry(entry.clone()).unwrap();

    let anime = db.find_anime_by_id(anime_id).unwrap();
    assert_eq!(anime.watch_entries.len(), 1);
    assert_eq!(anime.watch_entries[0], entry);
}

#[test]
fn watch_entry_keeps_insertion_order() {
    let mut db = SimpleDatabase::new();

    let anime_id = db.add_new_anime("My Anime").unwrap();

    let entry_1 = WatchEntry::new(
        anime_id,
        ts(0),
        ts(1),
        Episode::from("1").unwrap(),
        None,
    );

    let entry_2 = WatchEntry::new(
        anime_id,
        ts(0),
        ts(1),
        Episode::from("2").unwrap(),
        None,
    );

    let entry_3 = WatchEntry::new(
        anime_id,
        ts(0),
        ts(1),
        Episode::from("3").unwrap(),
        None,
    );

    db.add_watch_entry(entry_1.clone()).unwrap();
    db.add_watch_entry(entry_2.clone()).unwrap();
    db.add_watch_entry(entry_3.clone()).unwrap();

    let anime = db.find_anime_by_id(anime_id).unwrap();
    assert_eq!(anime.watch_entries.len(), 3);
    assert_eq!(anime.watch_entries[0], entry_1);
    assert_eq!(anime.watch_entries[1], entry_2);
    assert_eq!(anime.watch_entries[2], entry_3);
}

#[test]
fn insert_watch_entry_doesnt_affect_other_animes() {
    let mut db = SimpleDatabase::new();

    let anime_id_1 = db.add_new_anime("My Anime 1").unwrap();
    let anime_id_2 = db.add_new_anime("My Anime 2").unwrap();

    let entry_1 = WatchEntry::new(
        anime_id_1,
        ts(0),
        ts(1),
        Episode::from("1").unwrap(),
        None,
    );

    let entry_2 = WatchEntry::new(
        anime_id_2,
        ts(0),
        ts(1),
        Episode::from("2").unwrap(),
        None,
    );

    db.add_watch_entry(entry_1.clone()).unwrap();
    db.add_watch_entry(entry_2.clone()).unwrap();

    let anime_1 = db.find_anime_by_id(anime_id_1).unwrap();
    assert_eq!(anime_1.watch_entries.len(), 1);
    assert_eq!(anime_1.watch_entries[0], entry_1);

    let anime_2 = db.find_anime_by_id(anime_id_2).unwrap();
    assert_eq!(anime_2.watch_entries.len(), 1);
    assert_eq!(anime_2.watch_entries[0], entry_2);
}

#[test]
fn add_watch_entry_unknown_id_fails() {
    let mut db = SimpleDatabase::new();
    let _anime_id = db.add_new_anime("My Anime").unwrap();
    let entry = WatchEntry::new(5, ts(0), ts(1), Episode::from("1").unwrap(), None);
    let err = db.add_watch_entry(entry).unwrap_err();
    assert_eq!(err, StoreError::UnknownId(5));
}

#[test]
fn duplicate_name_error_carries_the_title() {
    let mut db = SimpleDatabase::new();
    let _anime_id = db.add_new_anime("My Anime").unwrap();
    let err = db.add_new_anime("My Anime").unwrap_err();
    assert_eq!(err, StoreError::DuplicateName("My Anime".to_string()));
}
