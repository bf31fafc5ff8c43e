use appmgr::error::{Error, SectionKind};
use appmgr::hash::hash_str;
use appmgr::s9pk::builder::S9pkPacker;
use appmgr::s9pk::header::{FileSection, Header, HEADER_LEN};
use appmgr::s9pk::reader::S9pkReader;

fn packer(instructions: Option<Vec<u8>>) -> S9pkPacker {
    S9pkPacker {
        manifest: vec![0xa1, 0x62, b'i', b'd', 0x63, b'f', b'o', b'o'],
        config_spec: vec![0xa0],
        icon: vec![0x89, b'P', b'N', b'G', 1, 2, 3],
        app_image: (0..5000u32).map(|i| (i % 251) as u8).collect(),
        license: b"MIT".to_vec(),
        instructions,
    }
}

#[test]
fn pack_then_read_gives_back_every_section() {
    let p = packer(Some(b"run it".to_vec()));
    let expected = packer(Some(b"run it".to_vec()));
    let mut out = Vec::new();
    p.pack(&mut out);
    let mut rdr = S9pkReader::from_bytes(out).unwrap();
    assert_eq!(rdr.validate(), Ok(()));
    assert_eq!(rdr.manifest(), &expected.manifest[..]);
    assert_eq!(rdr.config_spec(), &expected.config_spec[..]);
    assert_eq!(rdr.icon(), &expected.icon[..]);
    assert_eq!(rdr.app_image(), &expected.app_image[..]);
    assert_eq!(rdr.license(), &expected.license[..]);
    assert_eq!(rdr.instructions(), b"run it");
}

#[test]
fn empty_sections_round_trip() {
    let p = S9pkPacker {
        manifest: vec![],
        config_spec: vec![],
        icon: vec![],
        app_image: vec![],
        license: vec![],
        instructions: None,
    };
    let mut out = Vec::new();
    p.pack(&mut out);
    assert_eq!(out.len(), HEADER_LEN);
    let mut rdr = S9pkReader::from_bytes(out).unwrap();
    assert_eq!(rdr.validate(), Ok(()));
    assert!(rdr.app_image().is_empty());
    assert!(rdr.instructions().is_empty());
}

#[test]
fn table_of_contents_matches_byte_ranges() {
    let p = packer(None);
    let mut out = Vec::new();
    p.pack(&mut out);
    let h = Header::deserialize(&out).unwrap();
    let t = h.table_of_contents;
    assert_eq!(t.manifest, FileSection { position: 99, length: 8 });
    assert_eq!(t.config_spec, FileSection { position: 107, length: 1 });
    assert_eq!(t.icon, FileSection { position: 108, length: 7 });
    assert_eq!(t.app_image, FileSection { position: 115, length: 5000 });
    assert_eq!(t.license, FileSection { position: 5115, length: 3 });
    assert_eq!(t.instructions, FileSection { position: 5118, length: 0 });
    assert_eq!(out.len(), 5118);
    assert_eq!(&out[0..3], &[0x3b, 0x3b, 1]);
}

#[test]
fn packing_after_existing_bytes_counts_from_file_start() {
    let p = packer(None);
    let mut out = vec![7u8; 10];
    p.pack(&mut out);
    assert_eq!(&out[0..10], &[7u8; 10]);
    let h = Header::deserialize(&out[10..]).unwrap();
    assert_eq!(h.table_of_contents.manifest.position, 109);
    assert_eq!(&out[109..117], &packer(None).manifest[..]);
}

#[test]
fn header_round_trip() {
    let mut h = Header::placeholder();
    h.table_of_contents.icon = FileSection { position: 0x0102030405060708, length: 42 };
    h.table_of_contents.instructions = FileSection { position: u64::MAX, length: 1 };
    let mut out = Vec::new();
    h.serialize(&mut out);
    assert_eq!(out.len(), HEADER_LEN);
    assert_eq!(&out[35..43], &[1, 2, 3, 4, 5, 6, 7, 8]);
    out.extend_from_slice(b"trailing");
    assert_eq!(Header::deserialize(&out), Ok(h));
}

#[test]
fn short_or_foreign_header_is_refused() {
    assert_eq!(Header::deserialize(&[0x3b, 0x3b, 1]), Err(Error::CorruptHeader));
    let mut out = Vec::new();
    Header::placeholder().serialize(&mut out);
    out[2] = 2;
    assert_eq!(Header::deserialize(&out), Err(Error::CorruptHeader));
    assert!(S9pkReader::from_bytes(vec![1, 2, 3]).is_err());
}

#[test]
fn section_past_end_of_file_is_named() {
    let p = packer(None);
    let mut out = Vec::new();
    p.pack(&mut out);
    out.truncate(5117);
    let mut rdr = S9pkReader::from_bytes(out).unwrap();
    assert_eq!(rdr.validate(), Err(Error::CorruptArchive(SectionKind::License)));
}

#[test]
fn overlapping_sections_are_refused() {
    let mut h = Header::placeholder();
    h.table_of_contents.manifest = FileSection { position: 99, length: 10 };
    h.table_of_contents.config_spec = FileSection { position: 105, length: 10 };
    h.table_of_contents.icon = FileSection { position: 115, length: 0 };
    h.table_of_contents.app_image = FileSection { position: 115, length: 0 };
    h.table_of_contents.license = FileSection { position: 115, length: 0 };
    h.table_of_contents.instructions = FileSection { position: 115, length: 0 };
    let mut out = Vec::new();
    h.serialize(&mut out);
    out.extend_from_slice(&[0u8; 16]);
    let mut rdr = S9pkReader::from_bytes(out).unwrap();
    assert_eq!(rdr.validate(), Err(Error::CorruptArchive(SectionKind::ConfigSpec)));
}

#[test]
fn section_inside_header_is_refused() {
    let mut h = Header::placeholder();
    h.table_of_contents.manifest = FileSection { position: 98, length: 1 };
    let mut out = Vec::new();
    h.serialize(&mut out);
    let mut rdr = S9pkReader::from_bytes(out).unwrap();
    assert_eq!(rdr.validate(), Err(Error::CorruptArchive(SectionKind::Manifest)));
}

#[test]
fn content_hash_is_lowercase_hex_sha256() {
    assert_eq!(
        hash_str(b"abc"),
        "ba7816bf8f01cfea414140de5dae2223b00361a396177a9cb410ff61f20015ad"
    );
    assert_eq!(
        hash_str(b""),
        "e3b0c44298fc1c149afbf4c8996fb92427ae41e4649b934ca495991b7852b855"
    );
}
