use ddc::aggregate::{subtree_last_update, subtree_size};
use ddc::file_info::{later, FileMeta, Timestamp};
use ddc::files_db::FilesDB;
use ddc::path::EntryPath;

fn entry(is_dir: bool, size: Option<u64>, touched: Option<Timestamp>) -> FileMeta {
    FileMeta { is_dir, size, touched }
}

fn sample(order: &[usize]) -> FilesDB {
    let entries = [
        ("/r", entry(true, Some(4096), Some(Timestamp::new(50, 0)))),
        ("/r/a.txt", entry(false, Some(10), Some(Timestamp::new(70, 5)))),
        ("/r/sub", entry(true, Some(4096), Some(Timestamp::new(60, 0)))),
        ("/r/sub/b.txt", entry(false, Some(20), Some(Timestamp::new(70, 4)))),
        ("/r/sub/unknown", entry(false, None, None)),
        ("/rr", entry(false, Some(1000), Some(Timestamp::new(99, 0)))),
        ("/q", entry(false, Some(3), Some(Timestamp::new(98, 0)))),
    ];
    let mut db = FilesDB::new();
    for at in order {
        db.add(EntryPath::from_str(entries[*at].0), entries[*at].1);
    }
    db
}

#[test]
fn subtree_size_adds_up_what_lies_beneath() {
    let db = sample(&[0, 1, 2, 3, 4, 5, 6]);
    assert_eq!(subtree_size(&db, &EntryPath::from_str("/r")), 4096 + 10 + 4096 + 20);
    assert_eq!(subtree_size(&db, &EntryPath::from_str("/r/sub")), 4096 + 20);
    assert_eq!(subtree_size(&db, &EntryPath::from_str("/r/sub/unknown")), 0);
    assert_eq!(subtree_size(&db, &EntryPath::from_str("/rr")), 1000);
    assert_eq!(subtree_size(&db, &EntryPath::from_str("/nothing")), 0);
    assert_eq!(subtree_size(&db, &EntryPath::from_str("/")), 4096 + 10 + 4096 + 20 + 1000 + 3);
}

#[test]
fn subtree_size_does_not_depend_on_the_order_of_insertion() {
    let orders: [[usize; 7]; 4] =
        [[0, 1, 2, 3, 4, 5, 6], [6, 5, 4, 3, 2, 1, 0], [3, 0, 6, 2, 5, 1, 4], [4, 2, 0, 6, 1, 3, 5]];
    for order in orders.iter() {
        let db = sample(order);
        assert_eq!(subtree_size(&db, &EntryPath::from_str("/r")), 8222);
        assert_eq!(subtree_size(&db, &EntryPath::from_str("/r/sub")), 4116);
        assert_eq!(
            subtree_last_update(&db, &EntryPath::from_str("/r")),
            Some(Timestamp::new(70, 5))
        );
    }
}

#[test]
fn the_last_record_for_a_path_counts() {
    let mut first = FilesDB::new();
    first.add(EntryPath::from_str("/a"), entry(false, Some(1), None));
    first.add(EntryPath::from_str("/a"), entry(false, Some(2), None));
    let mut second = FilesDB::new();
    second.add(EntryPath::from_str("/a"), entry(false, Some(2), None));
    second.add(EntryPath::from_str("/a"), entry(false, Some(1), None));

    assert_eq!(subtree_size(&first, &EntryPath::from_str("/a")), 2);
    assert_eq!(subtree_size(&second, &EntryPath::from_str("/a")), 1);
}

#[test]
fn subtree_size_stops_at_the_largest_number() {
    let mut db = FilesDB::new();
    db.add(EntryPath::from_str("/big/a"), entry(false, Some(u64::MAX - 5), None));
    db.add(EntryPath::from_str("/big/b"), entry(false, Some(4), None));
    assert_eq!(subtree_size(&db, &EntryPath::from_str("/big")), u64::MAX - 1);
    db.add(EntryPath::from_str("/big/c"), entry(false, Some(7), None));
    assert_eq!(subtree_size(&db, &EntryPath::from_str("/big")), u64::MAX);
    db.add(EntryPath::from_str("/big/d"), entry(false, Some(u64::MAX), None));
    assert_eq!(subtree_size(&db, &EntryPath::from_str("/big")), u64::MAX);
}

#[test]
fn last_update_is_the_latest_of_the_subtree() {
    let db = sample(&[0, 1, 2, 3, 4, 5, 6]);
    assert_eq!(subtree_last_update(&db, &EntryPath::from_str("/r/sub")), Some(Timestamp::new(70, 4)));
    assert_eq!(subtree_last_update(&db, &EntryPath::from_str("/r/sub/unknown")), None);
    assert_eq!(subtree_last_update(&db, &EntryPath::from_str("/missing")), None);
    assert_eq!(subtree_last_update(&db, &EntryPath::from_str("/")), Some(Timestamp::new(99, 0)));
}

#[test]
fn later_prefers_what_is_known_and_the_first_on_a_tie() {
    let early = Timestamp::new(5, 999_999_999);
    let late = Timestamp::new(6, 0);
    assert_eq!(later(None, None), None);
    assert_eq!(later(Some(early), None), Some(early));
    assert_eq!(later(None, Some(early)), Some(early));
    assert_eq!(later(Some(early), Some(late)), Some(late));
    assert_eq!(later(Some(late), Some(early)), Some(late));
    assert_eq!(later(Some(Timestamp::new(-1, 5)), Some(Timestamp::new(-2, 900))), Some(Timestamp::new(-1, 5)));
    // one second, written in two ways
    assert_eq!(later(Some(Timestamp::new(1, 0)), Some(Timestamp::new(0, 1_000_000_000))), Some(Timestamp::new(1, 0)));
    assert_eq!(later(Some(Timestamp::new(0, 1_000_000_000)), Some(Timestamp::new(1, 0))), Some(Timestamp::new(0, 1_000_000_000)));
}

#[test]
fn timestamps_are_compared_as_nanoseconds() {
    assert_eq!(Timestamp::new(2, 5).nanos_after_epoch(), 2_000_000_005);
    assert_eq!(Timestamp::new(-2, 5).nanos_after_epoch(), -1_999_999_995);
    assert_eq!(Timestamp::new(i64::MAX, u32::MAX).nanos_after_epoch(), 9_223_372_036_854_775_807_000_000_000i128 + 4_294_967_295);
    assert_eq!(Timestamp::new(i64::MIN, 0).nanos_after_epoch(), -9_223_372_036_854_775_808_000_000_000i128);
    assert!(Timestamp::new(3, 0).is_after(&Timestamp::new(2, 999_999_999)));
    assert!(!Timestamp::new(3, 0).is_after(&Timestamp::new(3, 0)));
    assert!(!Timestamp::new(-3, 0).is_after(&Timestamp::new(-2, 0)));
}
