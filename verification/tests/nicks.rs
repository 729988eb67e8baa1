use open_grant::nicks::{migrate, split_nickname, NameRecord, RuntimeDbWeight};

fn record(n: u8, nick: &[u8], deposit: u128) -> NameRecord {
    NameRecord { account: [n; 32], nick: nick.to_vec(), deposit }
}

#[test]
fn split_at_the_last_space() {
    let name = split_nickname(b"John Ronald Tolkien".to_vec());
    assert_eq!(name.first, b"John Ronald".to_vec());
    assert_eq!(name.last, Some(b"Tolkien".to_vec()));
}

#[test]
fn no_space_no_last_name() {
    let name = split_nickname(b"Alice".to_vec());
    assert_eq!(name.first, b"Alice".to_vec());
    assert_eq!(name.last, None);
    let empty = split_nickname(vec![]);
    assert_eq!(empty.first, Vec::<u8>::new());
    assert_eq!(empty.last, None);
}

#[test]
fn trailing_and_leading_spaces() {
    let name = split_nickname(b"Bob ".to_vec());
    assert_eq!(name.first, b"Bob".to_vec());
    assert_eq!(name.last, Some(vec![]));
    let name = split_nickname(b" Bob".to_vec());
    assert_eq!(name.first, Vec::<u8>::new());
    assert_eq!(name.last, Some(b"Bob".to_vec()));
}

#[test]
fn split_rejoins() {
    for nick in [&b"a b c"[..], b"abc", b" ", b"x  y", b""] {
        let name = split_nickname(nick.to_vec());
        match name.last {
            Some(last) => {
                let mut joined = name.first.clone();
                joined.push(b' ');
                joined.extend_from_slice(&last);
                assert_eq!(joined, nick.to_vec());
                assert!(!last.contains(&b' '));
            }
            None => {
                assert_eq!(name.first, nick.to_vec());
                assert!(!nick.contains(&b' '));
            }
        }
    }
}

#[test]
fn reads_writes_saturate() {
    let w = RuntimeDbWeight { read: 25, write: 100 };
    assert_eq!(w.reads_writes(3, 2), 275);
    let big = RuntimeDbWeight { read: u64::MAX / 2, write: 1 };
    assert_eq!(big.reads_writes(3, 1), u64::MAX);
    assert_eq!(big.reads_writes(1, 1), u64::MAX / 2 + 1);
    let huge = RuntimeDbWeight { read: u64::MAX / 2 + 1, write: u64::MAX / 2 + 1 };
    assert_eq!(huge.reads_writes(1, 1), u64::MAX);
}

#[test]
fn migrate_from_version_zero() {
    let weight = RuntimeDbWeight { read: 10, write: 100 };
    let names = vec![record(1, b"Ada Lovelace", 5), record(2, b"Plato", 7)];
    let m = migrate(0, names, weight);
    assert_eq!(m.version, 1);
    let v1 = m.v1.expect("migrated");
    assert_eq!(v1.count_for_names, 2);
    // 1 for the count, 2 for the names, 1 for the version: 4 reads and 4 writes
    assert_eq!(v1.weight, 440);
    assert_eq!(m.weight, 440);
    assert_eq!(v1.realnames.len(), 2);
    assert_eq!(v1.realnames[0].account, [1; 32]);
    assert_eq!(v1.realnames[0].deposit, 5);
    assert_eq!(v1.realnames[0].name.first, b"Ada".to_vec());
    assert_eq!(v1.realnames[0].name.last, Some(b"Lovelace".to_vec()));
    assert_eq!(v1.realnames[1].account, [2; 32]);
    assert_eq!(v1.realnames[1].deposit, 7);
    assert_eq!(v1.realnames[1].name.first, b"Plato".to_vec());
    assert_eq!(v1.realnames[1].name.last, None);
}

#[test]
fn migrate_nothing_stored() {
    let m = migrate(0, vec![], RuntimeDbWeight { read: 3, write: 4 });
    let v1 = m.v1.expect("migrated");
    assert_eq!(v1.count_for_names, 0);
    assert!(v1.realnames.is_empty());
    assert_eq!(m.weight, 14);
}

#[test]
fn migrate_already_at_version_one() {
    let m = migrate(1, vec![record(1, b"Ada Lovelace", 5)], RuntimeDbWeight { read: 10, write: 100 });
    assert!(m.v1.is_none());
    assert_eq!(m.weight, 0);
    assert_eq!(m.version, 1);
    let m = migrate(7, vec![], RuntimeDbWeight { read: 10, write: 100 });
    assert!(m.v1.is_none());
    assert_eq!(m.weight, 0);
    assert_eq!(m.version, 7);
}

#[test]
fn migration_runs_once() {
    let weight = RuntimeDbWeight { read: 10, write: 100 };
    let first = migrate(0, vec![record(1, b"Ada Lovelace", 5)], weight);
    assert!(first.v1.is_some());
    let second = migrate(first.version, vec![record(1, b"Ada Lovelace", 5)], weight);
    assert!(second.v1.is_none());
    assert_eq!(second.weight, 0);
    assert_eq!(second.version, first.version);
}
