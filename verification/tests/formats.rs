use emtk::bytes::ParseError;
use emtk::format::{Context, Format, Unknown};
use emtk::rdb::{Entry, Flags, Rdb};
use emtk::rfc::{self, Rfc};
use emtk::rfi;
use emtk::rpk;

fn with_magic(m: u32, rest: &[u8]) -> Vec<u8> {
    let mut out = m.to_le_bytes().to_vec();
    out.extend_from_slice(rest);
    out
}

#[test]
fn format_by_magic() {
    match Format::parse(&with_magic(rfc::MAGIC, &[1, 2, 3])).ok().unwrap() {
        Format::Rfc(c) => assert_eq!(c.data, vec![1, 2, 3]),
        _ => panic!("expected content"),
    }
    match Format::parse(&with_magic(rfi::MAGIC, &[4])).ok().unwrap() {
        Format::Rfi(c) => assert_eq!(c.data, vec![4]),
        _ => panic!("expected an image"),
    }
    match Format::parse(&with_magic(rpk::MAGIC, &0u32.to_le_bytes())).ok().unwrap() {
        Format::Rpk(p) => assert!(p.entries.is_empty()),
        _ => panic!("expected a package"),
    }
    let odd = with_magic(0x12345678, &[5, 6]);
    match Format::parse(&odd).ok().unwrap() {
        Format::Unknown(u) => assert_eq!(u.data, odd),
        _ => panic!("expected an unknown block"),
    }
}

#[test]
fn format_incomplete() {
    assert!(matches!(Format::parse(&[1, 2, 3]), Err(ParseError::Incomplete)));
    assert!(matches!(
        Format::parse(&with_magic(rpk::MAGIC, &32u32.to_le_bytes())),
        Err(ParseError::Incomplete)
    ));
}

#[test]
fn format_round_trip() {
    let blocks = vec![
        with_magic(rfc::MAGIC, &[1, 2]),
        with_magic(rfi::MAGIC, &[]),
        with_magic(rpk::MAGIC, &0u32.to_le_bytes()),
        with_magic(7, &[3]),
    ];
    for b in blocks {
        assert_eq!(Format::parse(&b).ok().unwrap().to_bytes(), b);
    }
    let c = Format::Rfc(Rfc { data: vec![9] });
    assert_eq!(c.to_bytes(), with_magic(rfc::MAGIC, &[9]));
    let u = Format::Unknown(Unknown { data: vec![1, 1, 1, 1] });
    assert_eq!(u.to_bytes(), vec![1, 1, 1, 1]);
}

#[test]
fn context_size() {
    assert_eq!(Context { size: 3 }.size(10).size, 10);
}

fn rdb_row(id: u32, code: u32, offset: u32, size: u32) -> Vec<u8> {
    let mut out = Vec::new();
    for v in [id, code, offset, size] {
        out.extend_from_slice(&v.to_le_bytes());
    }
    out
}

#[test]
fn database_rows_and_data() {
    let mut s = 33u32.to_le_bytes().to_vec();
    s.extend(rdb_row(7, 1, 0, 3));
    s.extend_from_slice(&[5, 6, 7, 8]);
    let d = Rdb::parse(&s, 3).ok().unwrap();
    assert_eq!(d.entries, vec![Entry::new(7, Flags::A, 0, 3)]);
    assert_eq!(d.data, vec![5, 6, 7]);
}

#[test]
fn database_errors() {
    let mut bad_flag = 33u32.to_le_bytes().to_vec();
    bad_flag.extend(rdb_row(7, 3, 0, 0));
    assert!(matches!(Rdb::parse(&bad_flag, 0), Err(ParseError::InvalidValue)));
    let mut short = 33u32.to_le_bytes().to_vec();
    short.extend_from_slice(&[1, 0, 0, 0, 2, 0, 0, 0]);
    assert!(matches!(Rdb::parse(&short, 0), Err(ParseError::Incomplete)));
    let mut no_data = 33u32.to_le_bytes().to_vec();
    no_data.extend(rdb_row(1, 2, 0, 0));
    assert!(matches!(Rdb::parse(&no_data, 1), Err(ParseError::Incomplete)));
    assert!(matches!(Rdb::parse(&[1], 0), Err(ParseError::Incomplete)));
    assert!(matches!(Rdb::parse(&15u32.to_le_bytes(), 0), Err(ParseError::Incomplete)));
    let mut no_rows = 16u32.to_le_bytes().to_vec();
    no_rows.extend_from_slice(&[7, 7]);
    let d = Rdb::parse(&no_rows, 2).ok().unwrap();
    assert!(d.entries.is_empty());
    assert_eq!(d.data, vec![7, 7]);
}

#[test]
fn database_write_loses_a_row() {
    let d = Rdb { entries: vec![Entry::new(7, Flags::B, 1, 2)], data: vec![9] };
    let bytes = d.to_bytes();
    assert_eq!(&bytes[..4], &17u32.to_le_bytes());
    assert_eq!(bytes[4..20].to_vec(), rdb_row(7, 2, 1, 2));
    let back = Rdb::parse(&bytes, 17).ok().unwrap();
    assert!(back.entries.is_empty());
    assert_eq!(back.data, bytes[4..].to_vec());
}
