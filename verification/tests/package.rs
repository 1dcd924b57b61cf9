use emtk::bytes::{push_u32_le, read_u32_le, ParseError};
use emtk::entry::{entry_less, name_less, sort_entries, Entry, SortKey, ENTRY_LEN};
use emtk::format::Format;
use emtk::rpk::{is_package_file, Rpk};

fn row(name: &[u8], offset: u32, size: u32) -> Vec<u8> {
    let mut out = vec![0u8; 16];
    out[..name.len()].copy_from_slice(name);
    out.extend_from_slice(&offset.to_le_bytes());
    out.extend_from_slice(&size.to_le_bytes());
    out.extend_from_slice(&[0u8; 8]);
    out
}

/// A package body with rows for `b.rfc` (offset 4, size 5) and `a.rfi`
/// (offset 0, size 4), and their blocks in the order of their offsets.
fn sample_body() -> Vec<u8> {
    let mut out = Vec::new();
    out.extend_from_slice(&64u32.to_le_bytes());
    out.extend(row(b"b.rfc", 4, 5));
    out.extend(row(b"a.rfi", 0, 4));
    out.extend_from_slice(&[1, 2, 3, 4, 5, 6, 7, 8, 9]);
    out
}

#[test]
fn u32_little_endian() {
    assert_eq!(read_u32_le(&[1, 2, 3, 4, 5], 1), Some(0x05040302));
    assert_eq!(read_u32_le(&[1, 2, 3], 0), None);
    let mut out = vec![9u8];
    push_u32_le(&mut out, 0xAFBF0C01);
    assert_eq!(out, vec![9, 0x01, 0x0C, 0xBF, 0xAF]);
}

#[test]
fn package_blocks_follow_offsets() {
    let p = Rpk::parse(&sample_body()).ok().unwrap();
    assert_eq!(p.entries.len(), 2);
    assert_eq!(p.entries[0].name, "b.rfc");
    assert_eq!(p.entries[0].offset, 4);
    assert_eq!(p.entries[0].size, 5);
    assert_eq!(p.entries[1].name, "a.rfi");
    assert_eq!(p.data, vec![vec![1, 2, 3, 4], vec![5, 6, 7, 8, 9]]);
    let formats = p.formats();
    assert!(matches!(&formats[0], Format::Unknown(u) if u.data == vec![1, 2, 3, 4]));
    assert!(matches!(&formats[1], Format::Unknown(u) if u.data == vec![5, 6, 7, 8, 9]));
}

#[test]
fn package_blocks_must_be_blocks() {
    let mut short = Vec::new();
    short.extend_from_slice(&32u32.to_le_bytes());
    short.extend(row(b"a", 0, 2));
    short.extend_from_slice(&[1, 2]);
    assert!(matches!(Rpk::parse(&short), Err(ParseError::Incomplete)));

    let mut nested = Vec::new();
    nested.extend_from_slice(&32u32.to_le_bytes());
    nested.extend(row(b"inner.rpk", 0, 8));
    nested.extend_from_slice(&emtk::rpk::MAGIC.to_le_bytes());
    nested.extend_from_slice(&32u32.to_le_bytes());
    assert!(matches!(Rpk::parse(&nested), Err(ParseError::Incomplete)));

    let mut good = Vec::new();
    good.extend_from_slice(&32u32.to_le_bytes());
    good.extend(row(b"inner.rpk", 0, 8));
    good.extend_from_slice(&emtk::rpk::MAGIC.to_le_bytes());
    good.extend_from_slice(&0u32.to_le_bytes());
    let p = Rpk::parse(&good).ok().unwrap();
    assert!(matches!(&p.formats()[0], Format::Rpk(inner) if inner.entries.is_empty()));
}

#[test]
fn package_round_trip() {
    let body = sample_body();
    let p = Rpk::parse(&body).ok().unwrap();
    assert_eq!(p.to_bytes(), body);
    let built = Rpk {
        entries: vec![Entry::new("x".to_string(), 0, 4)],
        data: vec![vec![7, 8, 9, 10]],
    };
    let again = Rpk::parse(&built.to_bytes()).ok().unwrap();
    assert_eq!(again.entries[0].name, "x");
    assert_eq!(again.entries[0].size, 4);
    assert_eq!(again.data, vec![vec![7, 8, 9, 10]]);
}

#[test]
fn package_incomplete() {
    assert!(matches!(Rpk::parse(&[0, 0]), Err(ParseError::Incomplete)));
    let mut short_table = Vec::new();
    short_table.extend_from_slice(&64u32.to_le_bytes());
    short_table.extend(row(b"a", 0, 0));
    assert!(matches!(Rpk::parse(&short_table), Err(ParseError::Incomplete)));
    let mut body = sample_body();
    body.pop();
    assert!(matches!(Rpk::parse(&body), Err(ParseError::Incomplete)));
    let empty = Rpk::parse(&0u32.to_le_bytes()).ok().unwrap();
    assert!(empty.entries.is_empty() && empty.data.is_empty());
}

#[test]
fn entry_name_field() {
    let mut out = Vec::new();
    Entry::new("a_rather_long_entry_name".to_string(), 1, 2).write(&mut out);
    assert_eq!(out.len(), ENTRY_LEN);
    assert_eq!(&out[..16], b"a_rather_long_en");
    let e = Entry::read(&out, 0).unwrap();
    assert_eq!(e.name, "a_rather_long_en");
    assert_eq!((e.offset, e.size), (1, 2));
    let mut field = row(b"ab", 3, 4);
    field[3] = b'c';
    assert_eq!(Entry::read(&field, 0).unwrap().name, "ab");
    assert!(Entry::read(&field, 1).is_none());
}

#[test]
fn entries_sorted_stably() {
    let v = vec![
        Entry::new("c".to_string(), 8, 1),
        Entry::new("a".to_string(), 4, 1),
        Entry::new("b".to_string(), 4, 1),
        Entry::new("ab".to_string(), 0, 1),
    ];
    let by_offset: Vec<String> =
        sort_entries(&SortKey::Offset, &v).into_iter().map(|e| e.name).collect();
    assert_eq!(by_offset, vec!["ab", "a", "b", "c"]);
    let by_name: Vec<String> =
        sort_entries(&SortKey::Name, &v).into_iter().map(|e| e.name).collect();
    assert_eq!(by_name, vec!["a", "ab", "b", "c"]);
    assert!(name_less(&"a".to_string(), &"ab".to_string()));
    assert!(!name_less(&"b".to_string(), &"ab".to_string()));
    assert!(entry_less(&SortKey::Offset, &v[1], &v[0]));
    assert!(!entry_less(&SortKey::Offset, &v[1], &v[2]));
}

#[test]
fn package_file_names() {
    assert!(is_package_file("resource.rpk"));
    assert!(is_package_file(".rpk"));
    assert!(!is_package_file("rpk"));
    assert!(!is_package_file("resource.rpkx"));
    assert!(!is_package_file("resource.RPK"));
}
