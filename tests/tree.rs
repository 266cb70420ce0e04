use confuse::data::{ConfuseData, FileType, Scalar};
use confuse::error::FsError;
use confuse::fs::Confuse;
use confuse::path::parse_index;
use std::sync::Arc;

fn num(t: &str) -> Arc<ConfuseData> {
    Arc::new(ConfuseData::Value(Scalar::Number(t.to_string())))
}

fn text(t: &str) -> Arc<ConfuseData> {
    Arc::new(ConfuseData::Value(Scalar::Str(t.to_string())))
}

fn null() -> Arc<ConfuseData> {
    Arc::new(ConfuseData::Value(Scalar::Null))
}

fn map(entries: Vec<(&str, Arc<ConfuseData>)>) -> ConfuseData {
    ConfuseData::mapping(entries.into_iter().map(|(k, v)| (k.to_string(), v)).collect()).unwrap()
}

fn segs(path: &[&str]) -> Vec<String> {
    path.iter().map(|s| s.to_string()).collect()
}

/// `{a: [1, "x", null]}`
fn sample() -> Confuse {
    let list = ConfuseData::List(vec![num("1"), text("x"), null()]);
    Confuse::new(map(vec![("a", Arc::new(list))]))
}

fn read_all(fs: &mut Confuse, path: &[&str]) -> Vec<u8> {
    let fh = fs.open(&segs(path), 0).unwrap();
    let r = fs.read(fh, 0, 4096).unwrap();
    fs.release(fh);
    r
}

fn names(fs: &mut Confuse, path: &[&str]) -> Vec<(String, FileType)> {
    let fh = fs.opendir(&segs(path), 0).unwrap();
    let r = fs.readdir(fh).unwrap().into_iter().map(|e| (e.name, e.kind)).collect();
    fs.releasedir(fh);
    r
}

#[test]
fn scenario_listing_and_reading() {
    let mut fs = sample();
    assert_eq!(names(&mut fs, &[]), vec![("a".to_string(), FileType::Directory)]);
    assert_eq!(
        names(&mut fs, &["a"]),
        vec![
            ("0".to_string(), FileType::RegularFile),
            ("1".to_string(), FileType::RegularFile),
            ("2".to_string(), FileType::RegularFile),
            (".list".to_string(), FileType::RegularFile),
        ]
    );
    assert_eq!(read_all(&mut fs, &["a", "0"]), b"1".to_vec());
    assert_eq!(read_all(&mut fs, &["a", "1"]), b"\"x\"".to_vec());
    assert_eq!(read_all(&mut fs, &["a", "2"]), b"~".to_vec());
    let attr = fs.getattr(&segs(&["a"]), None).unwrap();
    assert_eq!(attr.size, 4);
    assert_eq!(attr.kind, FileType::Directory);
}

#[test]
fn scenario_reload_revokes_open_handle() {
    let mut fs = sample();
    let fh = fs.open(&segs(&["a", "1"]), 0).unwrap();
    let new_root = map(vec![("a", Arc::new(ConfuseData::List(vec![num("2")])))]);
    fs.reload(Some(new_root));
    assert_eq!(fs.read(fh, 0, 100), Err(FsError::BadDescriptor));
    assert_eq!(read_all(&mut fs, &["a", "0"]), b"2".to_vec());
}

#[test]
fn root_resolves_to_top_level_shape() {
    let fs = sample();
    let attr = fs.getattr(&segs(&[]), None).unwrap();
    assert_eq!(attr.kind, FileType::Directory);
    assert_eq!(attr.size, 1);
    let fs = Confuse::new(ConfuseData::Value(Scalar::Bool(true)));
    let attr = fs.getattr(&segs(&[]), None).unwrap();
    assert_eq!(attr.kind, FileType::RegularFile);
    assert_eq!(attr.size, 4);
    let fs = Confuse::new(ConfuseData::List(vec![]));
    let root = fs.get_data(&segs(&[]), None).unwrap();
    assert!(matches!(*root, ConfuseData::List(_)));
}

#[test]
fn list_marker_entry_is_empty_file() {
    let mut fs = sample();
    let listing = names(&mut fs, &["a"]);
    assert_eq!(listing.len(), 4);
    assert_eq!(listing.last().unwrap().0, ".list");
    let attr = fs.getattr(&segs(&["a", ".list"]), None).unwrap();
    assert_eq!(attr.size, 0);
    assert_eq!(attr.kind, FileType::RegularFile);
    assert_eq!(read_all(&mut fs, &["a", ".list"]), Vec::<u8>::new());
    // `.list` ends the walk early
    assert_eq!(fs.getattr(&segs(&["a", ".list", "x"]), None).unwrap().size, 0);
    // an empty sequence still lists `.list`
    let mut fs = Confuse::new(ConfuseData::List(vec![]));
    assert_eq!(names(&mut fs, &[]), vec![(".list".to_string(), FileType::RegularFile)]);
}

#[test]
fn mapping_names_resolve_back() {
    let inner = map(vec![("deep", num("7"))]);
    let mut fs = Confuse::new(map(vec![
        ("one", num("1")),
        ("two", text("zwei")),
        ("sub", Arc::new(inner)),
    ]));
    let listing = names(&mut fs, &[]);
    assert_eq!(listing.len(), 3);
    for (name, kind) in listing {
        let attr = fs.getattr(&segs(&[name.as_str()]), None).unwrap();
        assert_eq!(attr.kind, kind);
        match name.as_str() {
            "one" => assert_eq!(read_all(&mut fs, &["one"]), b"1".to_vec()),
            "two" => assert_eq!(read_all(&mut fs, &["two"]), b"\"zwei\"".to_vec()),
            "sub" => assert_eq!(attr.size, 1),
            _ => panic!("unexpected entry {}", name),
        }
    }
}

#[test]
fn duplicate_keys_are_refused() {
    let entries = vec![("k".to_string(), num("1")), ("k".to_string(), num("2"))];
    assert!(ConfuseData::mapping(entries).is_none());
    assert!(ConfuseData::mapping(vec![]).is_some());
}

#[test]
fn windows_concatenate_to_whole_text() {
    let mut fs = Confuse::new(ConfuseData::Value(Scalar::Str("hello world".to_string())));
    let fh = fs.open(&segs(&[]), 0).unwrap();
    let whole = fs.read(fh, 0, 1000).unwrap();
    assert_eq!(whole, b"\"hello world\"".to_vec());
    let mut joined = Vec::new();
    let mut offset = 0u64;
    for size in [1u32, 3, 0, 4, 2, 100] {
        joined.extend(fs.read(fh, offset, size).unwrap());
        offset += size as u64;
    }
    assert_eq!(joined, whole);
    assert_eq!(fs.read(fh, 13, 5).unwrap(), Vec::<u8>::new());
    assert_eq!(fs.read(fh, 500, 5).unwrap(), Vec::<u8>::new());
    assert_eq!(fs.read(fh, 11, 5).unwrap(), b"d\"".to_vec());
    assert_eq!(fs.read(fh, u64::MAX, u32::MAX).unwrap(), Vec::<u8>::new());
}

#[test]
fn attributes_repeat_and_release_twice() {
    let mut fs = sample();
    let a = fs.getattr(&segs(&["a", "1"]), None).unwrap();
    let b = fs.getattr(&segs(&["a", "1"]), None).unwrap();
    assert_eq!(a, b);
    assert_eq!(a.size, 3);
    let fh = fs.open(&segs(&["a", "1"]), 0).unwrap();
    let keep = fs.open(&segs(&["a", "0"]), 0).unwrap();
    fs.release(fh);
    fs.release(fh);
    assert_eq!(fs.read(fh, 0, 10), Err(FsError::BadDescriptor));
    assert_eq!(fs.read(keep, 0, 10).unwrap(), b"1".to_vec());
}

#[test]
fn reload_invalidates_and_ids_keep_growing() {
    let mut fs = sample();
    let h1 = fs.open(&segs(&["a", "0"]), 0).unwrap();
    let h2 = fs.opendir(&segs(&["a"]), 0).unwrap();
    assert!(h2 > h1);
    fs.reload(None);
    assert_eq!(fs.read(h1, 0, 10), Err(FsError::BadDescriptor));
    assert!(fs.readdir(h2).is_err());
    assert_eq!(fs.getattr(&segs(&[]), Some(h1)), Err(FsError::BadDescriptor));
    let h3 = fs.open(&segs(&["a", "0"]), 0).unwrap();
    assert!(h3 > h2);
    // a failed reparse keeps the tree
    assert_eq!(read_all(&mut fs, &["a", "2"]), b"~".to_vec());
}

#[test]
fn errors_for_each_kind() {
    let mut fs = sample();
    assert_eq!(fs.getattr(&segs(&["b"]), None), Err(FsError::NotFound));
    assert_eq!(fs.getattr(&segs(&["a", "3"]), None), Err(FsError::NotFound));
    assert_eq!(fs.getattr(&segs(&["a", "x"]), None), Err(FsError::NotFound));
    assert_eq!(fs.getattr(&segs(&["a", "0", "y"]), None), Err(FsError::NotFound));
    assert_eq!(fs.open(&segs(&["nope"]), 0), Err(FsError::NotFound));
    assert_eq!(fs.read(99, 0, 1), Err(FsError::BadDescriptor));
    assert!(matches!(fs.readdir(99), Err(FsError::BadDescriptor)));
    let dir = fs.opendir(&segs(&["a"]), 0).unwrap();
    assert_eq!(fs.read(dir, 0, 1), Err(FsError::IsDirectory));
    let file = fs.open(&segs(&["a", "0"]), 0).unwrap();
    assert!(matches!(fs.readdir(file), Err(FsError::NotSupported)));
}

#[test]
fn index_segments() {
    assert_eq!(parse_index(&"0".to_string()), Some(0));
    assert_eq!(parse_index(&"42".to_string()), Some(42));
    assert_eq!(parse_index(&"007".to_string()), Some(7));
    assert_eq!(parse_index(&"+3".to_string()), Some(3));
    assert_eq!(parse_index(&"".to_string()), None);
    assert_eq!(parse_index(&"+".to_string()), None);
    assert_eq!(parse_index(&"-1".to_string()), None);
    assert_eq!(parse_index(&"1a".to_string()), None);
    assert_eq!(parse_index(&"18446744073709551615".to_string()), Some(usize::MAX));
    assert_eq!(parse_index(&"18446744073709551616".to_string()), None);
    let mut fs = sample();
    assert_eq!(read_all(&mut fs, &["a", "01"]), b"\"x\"".to_vec());
}

#[test]
fn scalar_rendering() {
    let show = |s: Scalar| ConfuseData::Value(s).to_string();
    assert_eq!(show(Scalar::Null), "~");
    assert_eq!(show(Scalar::Bool(true)), "true");
    assert_eq!(show(Scalar::Bool(false)), "false");
    assert_eq!(show(Scalar::Number("-2.5".to_string())), "-2.5");
    assert_eq!(show(Scalar::Str("a\"b\n".to_string())), "\"a\\\"b\\n\"");
    let v = ConfuseData::Value(Scalar::Str("é".to_string()));
    assert_eq!(v.content(), "\"é\"".as_bytes().to_vec());
    assert_eq!(v.size(), 4);
    assert_eq!(ConfuseData::Marker.size(), 0);
}

#[test]
fn long_list_names() {
    let items: Vec<Arc<ConfuseData>> = (0..12).map(|i| num(&i.to_string())).collect();
    let mut fs = Confuse::new(ConfuseData::List(items));
    let listing = names(&mut fs, &[]);
    assert_eq!(listing.len(), 13);
    assert_eq!(listing[10].0, "10");
    assert_eq!(listing[11].0, "11");
    assert_eq!(read_all(&mut fs, &["11"]), b"11".to_vec());
}
