use std::collections::HashMap;

use remnant::author::Author;
use remnant::remnant::Remnant;
use remnant::triefort::{
    finish_insert, open, Config, CreateOutcome, Entry, Handle, StoreError, Triefort,
};

/// Leaf files by path under the store's root: the directories, then the file.
type Disk = HashMap<Vec<String>, Vec<u8>>;

fn full_path(dirs: &[String], file: &str) -> Vec<String> {
    let mut p = dirs.to_vec();
    p.push(file.to_string());
    p
}

fn insert<T: Triefort>(disk: &mut Disk, hdl: &Handle<T>, item: &T) -> Result<(), StoreError> {
    let w = hdl.insert(item)?;
    let p = full_path(&w.path.dirs, &w.path.file);
    let outcome = if disk.contains_key(&p) {
        CreateOutcome::Existed
    } else {
        disk.insert(p, w.bytes);
        CreateOutcome::Created
    };
    finish_insert(outcome)
}

fn get<T: Triefort>(disk: &Disk, hdl: &Handle<T>, key: &[u8]) -> Result<T, StoreError> {
    let sp = hdl.path_for(key);
    let p = full_path(&sp.dirs, &sp.file);
    hdl.get(key, disk.get(&p).map(|b| b.as_slice()))
}

fn find<T: Triefort>(disk: &Disk, hdl: &Handle<T>, prefix: &[u8]) -> Vec<String> {
    let dirs = hdl.cfg().dir_from_key(prefix);
    let names: Vec<String> = disk
        .keys()
        .filter(|p| p.starts_with(&dirs))
        .map(|p| p[p.len() - 1].clone())
        .collect();
    let mut names = names;
    names.sort();
    hdl.find_all_with_prefix(prefix, &names)
}

fn seg(s: &[&str]) -> Vec<String> {
    s.iter().map(|x| x.to_string()).collect()
}

#[test]
fn triefort_it_works() {
    let mut disk = Disk::new();
    let hdl = open::<Entry>("triefort_test", None).unwrap();

    let t1_key = vec![1, 2, 3, 4];
    let t2_key = vec![5, 6, 7, 8];

    let t1 = Entry { key: t1_key.clone(), value: Vec::new() };
    let t2 = Entry { key: t2_key.clone(), value: Vec::new() };

    insert(&mut disk, &hdl, &t1).unwrap();
    insert(&mut disk, &hdl, &t2).unwrap();

    assert!(disk.contains_key(&seg(&["01", "02", "01020304"])));
    assert!(disk.contains_key(&seg(&["05", "06", "05060708"])));

    assert_eq!(t1, get(&disk, &hdl, &t1_key).unwrap());
    assert_eq!(t2, get(&disk, &hdl, &t2_key).unwrap());
}

#[test]
fn find_all_finds_all_files() {
    let mut disk = Disk::new();
    let hdl = open::<Entry>("triefort_test", None).unwrap();

    let t1 = Entry { key: vec![1, 2, 3, 4, 5], value: Vec::new() };
    let t2 = Entry { key: vec![1, 5, 6, 0, 0], value: Vec::new() };
    let t3 = Entry { key: vec![2, 8, 9, 0, 0], value: Vec::new() };
    let t4 = Entry { key: vec![1, 2, 3, 9, 0], value: Vec::new() };

    insert(&mut disk, &hdl, &t1).unwrap();
    insert(&mut disk, &hdl, &t2).unwrap();
    insert(&mut disk, &hdl, &t3).unwrap();
    insert(&mut disk, &hdl, &t4).unwrap();

    let found = find(&disk, &hdl, &[1, 2, 3, 4]);

    assert_eq!(vec!["0102030405"], found);
}

#[test]
fn path_for_width_one_levels_two() {
    let hdl = open::<Entry>("root", None).unwrap();
    let p = hdl.path_for(&[0x01, 0x02, 0x03, 0x04]);
    assert_eq!(p.dirs, seg(&["01", "02"]));
    assert_eq!(p.file, "01020304");
}

#[test]
fn path_for_wider_shards() {
    let hdl = open::<Entry>("root", Some(Config { shard_width: 2, shard_levels: 3 })).unwrap();
    let p = hdl.path_for(&[0xab, 0xcd, 0xef, 0x01, 0x23, 0x45, 0x67]);
    assert_eq!(p.dirs, seg(&["abcd", "ef01", "2345"]));
    assert_eq!(p.file, "abcdef01234567");
    // Only whole chunks name directories.
    assert_eq!(hdl.cfg().dir_from_key(&[0xab, 0xcd, 0xef]), seg(&["abcd"]));
    assert_eq!(hdl.cfg().min_key_size(), 7);
}

#[test]
fn insert_twice_is_already_exists() {
    let mut disk = Disk::new();
    let hdl = open::<Entry>("root", None).unwrap();
    let e = Entry { key: vec![9, 9, 9], value: b"first".to_vec() };
    assert_eq!(insert(&mut disk, &hdl, &e), Ok(()));
    let before = disk.clone();
    assert_eq!(insert(&mut disk, &hdl, &e), Err(StoreError::AlreadyExists));
    let other_value = Entry { key: vec![9, 9, 9], value: b"second".to_vec() };
    assert_eq!(insert(&mut disk, &hdl, &other_value), Err(StoreError::AlreadyExists));
    assert_eq!(disk, before);
    assert_eq!(get(&disk, &hdl, &[9, 9, 9]), Ok(e));
}

#[test]
fn short_key_is_refused() {
    let mut disk = Disk::new();
    let hdl = open::<Entry>("root", None).unwrap();
    let e = Entry { key: vec![1, 2], value: Vec::new() };
    assert_eq!(insert(&mut disk, &hdl, &e), Err(StoreError::KeyTooShort));
    assert!(disk.is_empty());
    let ok = Entry { key: vec![1, 2, 3], value: Vec::new() };
    assert_eq!(insert(&mut disk, &hdl, &ok), Ok(()));

    let wide = open::<Entry>("root", Some(Config { shard_width: 4, shard_levels: 1 })).unwrap();
    let e4 = Entry { key: vec![1, 2, 3, 4], value: Vec::new() };
    assert_eq!(wide.insert(&e4), Err(StoreError::KeyTooShort));
}

#[test]
fn get_errors() {
    let mut disk = Disk::new();
    let hdl = open::<Entry>("root", None).unwrap();
    assert_eq!(get(&disk, &hdl, &[1, 2, 3]), Err(StoreError::NotFound));

    // A leaf file whose record has another key.
    let e = Entry { key: vec![7, 7, 7], value: Vec::new() };
    let sp = hdl.path_for(&[1, 2, 3]);
    disk.insert(full_path(&sp.dirs, &sp.file), e.encode());
    assert_eq!(get(&disk, &hdl, &[1, 2, 3]), Err(StoreError::KeyCheckFailed));
    assert_eq!(hdl.get_unchecked(&[1, 2, 3], Some(&e.encode())), Ok(e));

    assert_eq!(hdl.get(&[1, 2, 3], Some(&[0, 0, 0])), Err(StoreError::Undecodable));
    assert_eq!(
        finish_insert(CreateOutcome::Failed("disk full".to_string())),
        Err(StoreError::IoError("disk full".to_string()))
    );
}

#[test]
fn open_settles_configuration() {
    let fresh = open::<Entry>("db", None).unwrap();
    assert_eq!(fresh.cfg(), Config { shard_width: 1, shard_levels: 2 });
    assert_eq!(fresh.root(), "db");
    let again = open::<Entry>("db", Some(fresh.cfg())).unwrap();
    assert_eq!(again.cfg(), fresh.cfg());
    let stored = Config { shard_width: 3, shard_levels: 1 };
    let a = open::<Entry>("db", Some(stored)).unwrap();
    let b = open::<Entry>("db", Some(stored)).unwrap();
    assert_eq!(a.cfg(), stored);
    assert_eq!(b.cfg(), stored);
    assert_eq!(
        open::<Entry>("db", Some(Config { shard_width: 0, shard_levels: 2 })).err(),
        Some(StoreError::BadConfig)
    );
    assert_eq!(Config::new(0, 1), None);
    assert_eq!(Config::new(2, usize::MAX), None);
    assert_eq!(Config::new(2, 5), Some(Config { shard_width: 2, shard_levels: 5 }));
}

#[test]
fn entry_encoding() {
    let e = Entry { key: vec![1, 2], value: vec![3] };
    assert_eq!(e.encode(), vec![0, 0, 0, 0, 0, 0, 0, 2, 1, 2, 3]);
    assert_eq!(Entry::decode(&e.encode()), Some(e));
    assert_eq!(Entry::decode(&[0, 0, 0, 0, 0, 0, 0, 9, 1]), None);
}

#[test]
fn remnants_round_trip_through_the_store() {
    let mut disk = Disk::new();
    let hdl = open::<Remnant>("db", None).unwrap();
    let a = Author::new();
    let r = Remnant::origin(&a, "stored");
    insert(&mut disk, &hdl, &r).unwrap();
    let key = r.id().0;
    let sp = hdl.path_for(&key);
    assert_eq!(sp.dirs, vec![format!("{:02x}", key[0]), format!("{:02x}", key[1])]);
    let back = get(&disk, &hdl, &key).unwrap();
    assert_eq!(back, r);
    assert_eq!(back.validate(&a.partial()), Ok(()));
    let prefix = find(&disk, &hdl, &key[..3]);
    assert_eq!(prefix, vec![sp.file.clone()]);
}

#[test]
fn prefix_search_returns_only_key_names() {
    let mut disk = Disk::new();
    let hdl = open::<Entry>("db", None).unwrap();
    let names = vec![
        "config.json".to_string(),
        "0102".to_string(),
        "010203".to_string(),
        "01020G".to_string(),
        "0102030".to_string(),
        "0A0203".to_string(),
    ];
    assert_eq!(hdl.find_all_with_prefix(&[], &names), vec!["010203".to_string()]);
    assert!(find(&disk, &hdl, &[]).is_empty());
    let e = Entry { key: vec![1, 2, 3], value: Vec::new() };
    insert(&mut disk, &hdl, &e).unwrap();
    assert_eq!(find(&disk, &hdl, &[]), vec!["010203".to_string()]);
    assert_eq!(find(&disk, &hdl, &[1]), vec!["010203".to_string()]);
    assert!(find(&disk, &hdl, &[2]).is_empty());
}
