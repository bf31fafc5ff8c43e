//! The fixed-size archive header and its table of contents.
//!
//! Layout: two magic bytes, one version byte, then one entry per section in
//! writing order (manifest, config spec, icon, app image, license,
//! instructions), each entry a big-endian `u64` position followed by a
//! big-endian `u64` length.

use vstd::prelude::*;

use crate::error::Error;

verus! {

pub const MAGIC_0: u8 = 0x3b;

pub const MAGIC_1: u8 = 0x3b;

pub const FORMAT_VERSION: u8 = 1;

/// Bytes that the header occupies at the start of an archive.
pub const HEADER_LEN: usize = 99;

/// The big-endian bytes of `x`.
pub open spec fn u64_be(x: u64) -> Seq<u8> {
    seq![
        (x >> 56u64) as u8,
        (x >> 48u64) as u8,
        (x >> 40u64) as u8,
        (x >> 32u64) as u8,
        (x >> 24u64) as u8,
        (x >> 16u64) as u8,
        (x >> 8u64) as u8,
        x as u8,
    ]
}

/// The `u64` read big-endian from the eight bytes of `b` at `at`.
pub open spec fn be_u64_at(b: Seq<u8>, at: int) -> u64 {
    ((b[at] as u64) << 56u64) | ((b[at + 1] as u64) << 48u64) | ((b[at + 2] as u64) << 40u64) | ((
    b[at + 3] as u64) << 32u64) | ((b[at + 4] as u64) << 24u64) | ((b[at + 5] as u64) << 16u64) | ((
    b[at + 6] as u64) << 8u64) | (b[at + 7] as u64)
}

pub proof fn lemma_be_round_trip(x: u64)
    ensures
        be_u64_at(u64_be(x), 0) == x,
{
    let b = u64_be(x);
    assert(((((x >> 56u64) as u8) as u64) << 56u64) | ((((x >> 48u64) as u8) as u64) << 48u64) | ((((x
        >> 40u64) as u8) as u64) << 40u64) | ((((x >> 32u64) as u8) as u64) << 32u64) | ((((x >> 24u64)
        as u8) as u64) << 24u64) | ((((x >> 16u64) as u8) as u64) << 16u64) | ((((x >> 8u64) as u8)
        as u64) << 8u64) | ((x as u8) as u64) == x) by (bit_vector);
}

/// A byte range of the archive, relative to the start of the file.
#[derive(Clone, Copy, Debug, PartialEq, Eq, Structural)]
pub struct FileSection {
    pub position: u64,
    pub length: u64,
}

impl FileSection {
    /// The first byte past the section.
    pub open spec fn end(self) -> int {
        self.position + self.length
    }
}

/// One entry per section of the archive.
#[derive(Clone, Copy, Debug, PartialEq, Eq, Structural)]
pub struct TableOfContents {
    pub manifest: FileSection,
    pub config_spec: FileSection,
    pub icon: FileSection,
    pub app_image: FileSection,
    pub license: FileSection,
    pub instructions: FileSection,
}

#[derive(Clone, Copy, Debug, PartialEq, Eq, Structural)]
pub struct Header {
    pub table_of_contents: TableOfContents,
}

pub open spec fn section_bytes(s: FileSection) -> Seq<u8> {
    u64_be(s.position) + u64_be(s.length)
}

/// The bytes that encode `h`.
pub open spec fn header_bytes(h: Header) -> Seq<u8> {
    let t = h.table_of_contents;
    seq![MAGIC_0, MAGIC_1, FORMAT_VERSION] + section_bytes(t.manifest) + section_bytes(t.config_spec)
        + section_bytes(t.icon) + section_bytes(t.app_image) + section_bytes(t.license)
        + section_bytes(t.instructions)
}

/// `b` starts with a header: it is long enough and carries the magic and version.
pub open spec fn starts_with_header(b: Seq<u8>) -> bool {
    &&& b.len() >= HEADER_LEN
    &&& b[0] == MAGIC_0
    &&& b[1] == MAGIC_1
    &&& b[2] == FORMAT_VERSION
}

pub open spec fn section_at(b: Seq<u8>, at: int) -> FileSection {
    FileSection { position: be_u64_at(b, at), length: be_u64_at(b, at + 8) }
}

/// The header that the first bytes of `b` encode.
pub open spec fn parse_header(b: Seq<u8>) -> Header {
    Header {
        table_of_contents: TableOfContents {
            manifest: section_at(b, 3),
            config_spec: section_at(b, 19),
            icon: section_at(b, 35),
            app_image: section_at(b, 51),
            license: section_at(b, 67),
            instructions: section_at(b, 83),
        },
    }
}

proof fn lemma_u64_at(b: Seq<u8>, at: int, x: u64)
    requires
        0 <= at,
        at + 8 <= b.len(),
        b.subrange(at, at + 8) == u64_be(x),
    ensures
        be_u64_at(b, at) == x,
{
    let s = b.subrange(at, at + 8);
    assert(forall|i: int| 0 <= i < 8 ==> b[at + i] == #[trigger] s[i]);
    lemma_be_round_trip(x);
}

/// Encoding a header and reading it back, whatever follows it, gives the same
/// header.
pub proof fn lemma_header_round_trip(h: Header, rest: Seq<u8>)
    ensures
        header_bytes(h).len() == HEADER_LEN,
        starts_with_header(header_bytes(h) + rest),
        parse_header(header_bytes(h) + rest) == h,
{
    let t = h.table_of_contents;
    let b = header_bytes(h) + rest;
    assert(header_bytes(h).len() == HEADER_LEN);
    let secs = seq![t.manifest, t.config_spec, t.icon, t.app_image, t.license, t.instructions];
    assert forall|k: int| 0 <= k < 6 implies b.subrange(3 + 16 * k, 3 + 16 * k + 8) == u64_be(
        secs[k].position,
    ) && b.subrange(3 + 16 * k + 8, 3 + 16 * k + 16) == u64_be(secs[k].length) by {
        assert(b.subrange(3 + 16 * k, 3 + 16 * k + 8) =~= u64_be(secs[k].position));
        assert(b.subrange(3 + 16 * k + 8, 3 + 16 * k + 16) =~= u64_be(secs[k].length));
    }
    assert forall|k: int| 0 <= k < 6 implies section_at(b, 3 + 16 * k) == secs[k] by {
        lemma_u64_at(b, 3 + 16 * k, secs[k].position);
        lemma_u64_at(b, 3 + 16 * k + 8, secs[k].length);
    }
    assert(section_at(b, 3 + 16 * 0 as int) == secs[0]);
    assert(section_at(b, 3 + 16 * 1 as int) == secs[1]);
    assert(section_at(b, 3 + 16 * 2 as int) == secs[2]);
    assert(section_at(b, 3 + 16 * 3 as int) == secs[3]);
    assert(section_at(b, 3 + 16 * 4 as int) == secs[4]);
    assert(section_at(b, 3 + 16 * 5 as int) == secs[5]);
}

/// Appends the big-endian bytes of `x`.
fn push_u64_be(out: &mut Vec<u8>, x: u64)
    ensures
        final(out)@ == old(out)@ + u64_be(x),
{
    out.push((x >> 56u64) as u8);
    out.push((x >> 48u64) as u8);
    out.push((x >> 40u64) as u8);
    out.push((x >> 32u64) as u8);
    out.push((x >> 24u64) as u8);
    out.push((x >> 16u64) as u8);
    out.push((x >> 8u64) as u8);
    out.push(x as u8);
    assert(final(out)@ =~= old(out)@ + u64_be(x));
}

fn push_section(out: &mut Vec<u8>, s: FileSection)
    ensures
        final(out)@ == old(out)@ + section_bytes(s),
{
    push_u64_be(out, s.position);
    push_u64_be(out, s.length);
    assert(final(out)@ =~= old(out)@ + section_bytes(s));
}

fn read_u64_be(b: &[u8], at: usize) -> (r: u64)
    requires
        at + 8 <= b@.len(),
    ensures
        r == be_u64_at(b@, at as int),
{
    ((b[at] as u64) << 56u64) | ((b[at + 1] as u64) << 48u64) | ((b[at + 2] as u64) << 40u64) | ((
    b[at + 3] as u64) << 32u64) | ((b[at + 4] as u64) << 24u64) | ((b[at + 5] as u64) << 16u64) | ((
    b[at + 6] as u64) << 8u64) | (b[at + 7] as u64)
}

fn read_section(b: &[u8], at: usize) -> (r: FileSection)
    requires
        at < HEADER_LEN,
        at + 16 <= b@.len(),
    ensures
        r == section_at(b@, at as int),
{
    FileSection { position: read_u64_be(b, at), length: read_u64_be(b, at + 8) }
}

impl Header {
    /// A header whose table of contents is all zeros, written first to reserve
    /// the header's space.
    pub fn placeholder() -> (r: Header)
        ensures
            r.table_of_contents.manifest == (FileSection { position: 0, length: 0 }),
            r.table_of_contents.config_spec == (FileSection { position: 0, length: 0 }),
            r.table_of_contents.icon == (FileSection { position: 0, length: 0 }),
            r.table_of_contents.app_image == (FileSection { position: 0, length: 0 }),
            r.table_of_contents.license == (FileSection { position: 0, length: 0 }),
            r.table_of_contents.instructions == (FileSection { position: 0, length: 0 }),
    {
        let z = FileSection { position: 0, length: 0 };
        Header {
            table_of_contents: TableOfContents {
                manifest: z,
                config_spec: z,
                icon: z,
                app_image: z,
                license: z,
                instructions: z,
            },
        }
    }

    /// Appends the encoding of the header to `out`.
    pub fn serialize(&self, out: &mut Vec<u8>)
        ensures
            final(out)@ == old(out)@ + header_bytes(*self),
    {
        let t = &self.table_of_contents;
        out.push(MAGIC_0);
        out.push(MAGIC_1);
        out.push(FORMAT_VERSION);
        push_section(out, t.manifest);
        push_section(out, t.config_spec);
        push_section(out, t.icon);
        push_section(out, t.app_image);
        push_section(out, t.license);
        push_section(out, t.instructions);
        assert(final(out)@ =~= old(out)@ + header_bytes(*self));
    }

    /// Reads the header at the start of `b`.
    pub fn deserialize(b: &[u8]) -> (r: Result<Header, Error>)
        ensures
            r is Ok <==> starts_with_header(b@),
            r matches Ok(h) ==> h == parse_header(b@),
            r matches Err(e) ==> e == Error::CorruptHeader,
    {
        if b.len() < HEADER_LEN || b[0] != MAGIC_0 || b[1] != MAGIC_1 || b[2] != FORMAT_VERSION {
            return Err(Error::CorruptHeader);
        }
        Ok(
            Header {
                table_of_contents: TableOfContents {
                    manifest: read_section(b, 3),
                    config_spec: read_section(b, 19),
                    icon: read_section(b, 35),
                    app_image: read_section(b, 51),
                    license: read_section(b, 67),
                    instructions: read_section(b, 83),
                },
            },
        )
    }
}

} // verus!
