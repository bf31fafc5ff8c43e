//! Writing an archive: a placeholder header, the sections in order, then the
//! real header over the placeholder.

use vstd::prelude::*;

use super::header::{
    header_bytes, FileSection, Header, TableOfContents, HEADER_LEN, lemma_header_round_trip,
};

verus! {

/// The contents of an archive to be written. The manifest and the
/// configuration schema come already encoded.
pub struct S9pkPacker {
    pub manifest: Vec<u8>,
    pub config_spec: Vec<u8>,
    pub icon: Vec<u8>,
    pub app_image: Vec<u8>,
    pub license: Vec<u8>,
    pub instructions: Option<Vec<u8>>,
}

/// The instructions section's bytes; empty where there are none.
pub open spec fn instructions_bytes(i: Option<Vec<u8>>) -> Seq<u8> {
    match i {
        Some(v) => v@,
        None => Seq::empty(),
    }
}

/// The concatenated sections, in writing order.
pub open spec fn body_bytes(p: S9pkPacker) -> Seq<u8> {
    p.manifest@ + p.config_spec@ + p.icon@ + p.app_image@ + p.license@ + instructions_bytes(
        p.instructions,
    )
}

/// Where each section lands when the archive starts at `base`.
pub open spec fn packed_toc(base: int, p: S9pkPacker) -> TableOfContents {
    let m = base + HEADER_LEN;
    let c = m + p.manifest@.len();
    let i = c + p.config_spec@.len();
    let a = i + p.icon@.len();
    let l = a + p.app_image@.len();
    let n = l + p.license@.len();
    TableOfContents {
        manifest: FileSection { position: m as u64, length: p.manifest@.len() as u64 },
        config_spec: FileSection { position: c as u64, length: p.config_spec@.len() as u64 },
        icon: FileSection { position: i as u64, length: p.icon@.len() as u64 },
        app_image: FileSection { position: a as u64, length: p.app_image@.len() as u64 },
        license: FileSection { position: l as u64, length: p.license@.len() as u64 },
        instructions: FileSection {
            position: n as u64,
            length: instructions_bytes(p.instructions).len() as u64,
        },
    }
}

/// The bytes of the archive written at `base`.
pub open spec fn packed_bytes(base: int, p: S9pkPacker) -> Seq<u8> {
    header_bytes(Header { table_of_contents: packed_toc(base, p) }) + body_bytes(p)
}

fn append_bytes(out: &mut Vec<u8>, src: &[u8])
    ensures
        final(out)@ == old(out)@ + src@,
{
    let mut i: usize = 0;
    while i < src.len()
        invariant
            i <= src@.len(),
            out@ == old(out)@ + src@.subrange(0, i as int),
        decreases src@.len() - i,
    {
        out.push(src[i]);
        i = i + 1;
        assert(out@ =~= old(out)@ + src@.subrange(0, i as int));
    }
    assert(src@.subrange(0, src@.len() as int) =~= src@);
}

/// Appends `s`, returning the byte range that it took.
fn write_section(out: &mut Vec<u8>, s: &[u8]) -> (r: FileSection)
    requires
        old(out)@.len() + s@.len() <= u64::MAX,
    ensures
        final(out)@ == old(out)@ + s@,
        r.position == old(out)@.len(),
        r.length == s@.len(),
{
    let position = out.len() as u64;
    append_bytes(out, s);
    FileSection { position, length: s.len() as u64 }
}

/// Writes `src` over the bytes of `out` that start at `at`.
fn overwrite_at(out: &mut Vec<u8>, at: usize, src: &[u8])
    requires
        at + src@.len() <= old(out)@.len(),
    ensures
        final(out)@ == old(out)@.subrange(0, at as int) + src@ + old(out)@.subrange(
            at + src@.len(),
            old(out)@.len() as int,
        ),
{
    let n = out.len();
    let mut i: usize = 0;
    while i < src.len()
        invariant
            i <= src@.len(),
            n == old(out)@.len(),
            at + src@.len() <= old(out)@.len(),
            out@.len() == old(out)@.len(),
            forall|k: int| 0 <= k < at ==> out@[k] == old(out)@[k],
            forall|k: int| at + src@.len() <= k < out@.len() ==> out@[k] == old(out)@[k],
            forall|k: int| 0 <= k < i ==> out@[at + k] == src@[k],
        decreases src@.len() - i,
    {
        out[at + i] = src[i];
        i = i + 1;
    }
    let ghost exp = old(out)@.subrange(0, at as int) + src@ + old(out)@.subrange(
        at + src@.len(),
        old(out)@.len() as int,
    );
    assert forall|k: int| 0 <= k < out@.len() implies out@[k] == exp[k] by {
        if at <= k < at + src@.len() {
            assert(out@[at + (k - at)] == src@[k - at]);
        }
    }
    assert(out@ =~= exp);
}

/// Appends the sections in order and returns where each landed.
fn write_body(p: &S9pkPacker, writer: &mut Vec<u8>) -> (t: TableOfContents)
    requires
        old(writer)@.len() >= HEADER_LEN,
        old(writer)@.len() + p.body_len() <= u64::MAX,
    ensures
        final(writer)@ == old(writer)@ + body_bytes(*p),
        t == packed_toc(old(writer)@.len() - HEADER_LEN, *p),
{
    let ghost w0 = writer@;
    let manifest = write_section(writer, p.manifest.as_slice());
    let config_spec = write_section(writer, p.config_spec.as_slice());
    let icon = write_section(writer, p.icon.as_slice());
    let app_image = write_section(writer, p.app_image.as_slice());
    let license = write_section(writer, p.license.as_slice());
    let instructions = match &p.instructions {
        Some(text) => write_section(writer, text.as_slice()),
        None => FileSection { position: writer.len() as u64, length: 0 },
    };
    assert(writer@ =~= w0 + body_bytes(*p));
    TableOfContents { manifest, config_spec, icon, app_image, license, instructions }
}

impl S9pkPacker {
    /// The total size of the sections.
    pub open spec fn body_len(self) -> int {
        body_bytes(self).len() as int
    }

    /// Writes the archive after what `writer` holds: a placeholder header to
    /// reserve its space, each section in order, and finally the header with
    /// the real table of contents over the placeholder. Positions count from
    /// the start of `writer`.
    pub fn pack(self, writer: &mut Vec<u8>)
        requires
            old(writer)@.len() + HEADER_LEN + self.body_len() <= u64::MAX,
        ensures
            final(writer)@ == old(writer)@ + packed_bytes(old(writer)@.len() as int, self),
    {
        let ghost base = writer@.len() as int;
        let header_pos = writer.len();
        let mut header = Header::placeholder();
        header.serialize(writer);
        proof {
            lemma_header_round_trip(header, Seq::empty());
        }
        header.table_of_contents = write_body(&self, writer);
        assert(header.table_of_contents == packed_toc(base, self));
        let ghost body = writer@.subrange(base + HEADER_LEN, writer@.len() as int);
        assert(body =~= body_bytes(self));
        let mut encoded: Vec<u8> = Vec::new();
        header.serialize(&mut encoded);
        proof {
            lemma_header_round_trip(header, Seq::empty());
            assert(encoded@ =~= header_bytes(header));
        }
        let ghost written = writer@;
        overwrite_at(writer, header_pos, encoded.as_slice());
        proof {
            assert(written.subrange(0, base) =~= old(writer)@);
            assert(written.subrange(base + HEADER_LEN, written.len() as int) =~= body);
            assert(writer@ =~= old(writer)@ + packed_bytes(base, self));
        }
    }
}

} // verus!
