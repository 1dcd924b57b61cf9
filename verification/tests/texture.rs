use emtk::bytes::ParseError;
use emtk::rfi::MAGIC;
use emtk::texture::{Error, Header, RFI, RLE_FLAG, S3TC};

fn image(flags: u32, size: u32, pixels: &[u8]) -> Vec<u8> {
    let mut out = Vec::new();
    for v in [MAGIC, 64, 32, 0, 0x817BE608, 0, flags, size] {
        out.extend_from_slice(&v.to_le_bytes());
    }
    out.extend_from_slice(pixels);
    out
}

#[test]
fn compression_codes() {
    assert_eq!(S3TC::try_from(0x813BC600), Ok(S3TC::DXT1(0x813BC600)));
    assert_eq!(S3TC::try_from(0x01004200), Ok(S3TC::DXT1(0x01004200)));
    assert_eq!(S3TC::try_from(0x817BE608), Ok(S3TC::DXT5(0x817BE608)));
    assert_eq!(S3TC::try_from(0x11118400), Ok(S3TC::BC4U(0x11118400)));
    assert_eq!(S3TC::try_from(0x827BE608), Ok(S3TC::BC5U(0x827BE608)));
    assert_eq!(S3TC::try_from(0x0100C600), Ok(S3TC::RGB(0x0100C600)));
    assert_eq!(S3TC::try_from(0), Err("Cannot get S3TC from number"));
}

#[test]
fn header_fields() {
    let h = Header::new(&image(0, 4, &[1, 2, 3, 4])).ok().unwrap();
    assert_eq!((h.width, h.height, h.s3tc, h.flags, h.size), (64, 32, 0x817BE608, 0, 4));
    assert!(!h.is_rle());
    let r = Header::new(&image(RLE_FLAG | 1, 0, &[])).ok().unwrap();
    assert!(r.is_rle());
}

#[test]
fn header_errors() {
    assert_eq!(Header::new(&[1, 2]), Err(ParseError::Incomplete));
    let mut other = image(0, 0, &[]);
    other[0] = 0;
    assert_eq!(Header::new(&other), Err(ParseError::InvalidValue));
    let short = image(0, 0, &[]);
    assert_eq!(Header::new(&short[..20]), Err(ParseError::Incomplete));
}

#[test]
fn pixels_after_header() {
    let s = image(0, 3, &[7, 8, 9, 10]);
    let img = RFI::new(&s).ok().unwrap();
    assert!(matches!(img.pixel_data(&s), Ok(ref d) if *d == vec![7, 8, 9]));
    let cut = image(0, 5, &[7, 8]);
    let img = RFI::new(&cut).ok().unwrap();
    assert!(matches!(img.pixel_data(&cut), Err(Error::Incomplete)));
    let rle = image(RLE_FLAG, 1, &[1]);
    let img = RFI::new(&rle).ok().unwrap();
    match img.pixel_data(&rle) {
        Err(Error::UnsupportedRLE(m)) => assert_eq!(m, "RLE not implemented yet"),
        _ => panic!("expected the run-length error"),
    }
}
