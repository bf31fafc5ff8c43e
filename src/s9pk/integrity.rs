//! What holds of every archive that the packer writes.

use vstd::prelude::*;

use super::builder::{body_bytes, instructions_bytes, packed_bytes, packed_toc, S9pkPacker};
use super::header::{
    header_bytes, lemma_header_round_trip, parse_header, starts_with_header, Header, HEADER_LEN,
};
use super::reader::{disjoint, section_fits, section_ok, sections, span, toc_valid};

verus! {

/// The table of contents of the header that the packer writes last names
/// exactly the bytes of each section; every section lies inside the file,
/// after the header, and no two sections overlap. This holds wherever the
/// archive starts in the output.
#[verifier::rlimit(80)]
pub proof fn lemma_header_matches_sections(prefix: Seq<u8>, p: S9pkPacker)
    requires
        prefix.len() + HEADER_LEN + p.body_len() <= u64::MAX,
    ensures
        ({
            let w = prefix + packed_bytes(prefix.len() as int, p);
            let t = packed_toc(prefix.len() as int, p);
            &&& starts_with_header(w.subrange(prefix.len() as int, w.len() as int))
            &&& parse_header(w.subrange(prefix.len() as int, w.len() as int)).table_of_contents == t
            &&& span(w, t.manifest) == p.manifest@
            &&& span(w, t.config_spec) == p.config_spec@
            &&& span(w, t.icon) == p.icon@
            &&& span(w, t.app_image) == p.app_image@
            &&& span(w, t.license) == p.license@
            &&& span(w, t.instructions) == instructions_bytes(p.instructions)
            &&& toc_valid(t, w.len() as int)
        }),
{
    let base = prefix.len() as int;
    let t = packed_toc(base, p);
    let h = Header { table_of_contents: t };
    let body = body_bytes(p);
    let w = prefix + packed_bytes(base, p);
    lemma_header_round_trip(h, body);
    assert(w.subrange(base, w.len() as int) =~= header_bytes(h) + body);
    let m = p.manifest@;
    let c = p.config_spec@;
    let i = p.icon@;
    let a = p.app_image@;
    let l = p.license@;
    let n = instructions_bytes(p.instructions);
    let hd = prefix + header_bytes(h);
    assert(w =~= hd + m + (c + i + a + l + n));
    lemma_span_piece(hd, m, c + i + a + l + n, t.manifest);
    assert(w =~= (hd + m) + c + (i + a + l + n));
    lemma_span_piece(hd + m, c, i + a + l + n, t.config_spec);
    assert(w =~= (hd + m + c) + i + (a + l + n));
    lemma_span_piece(hd + m + c, i, a + l + n, t.icon);
    assert(w =~= (hd + m + c + i) + a + (l + n));
    lemma_span_piece(hd + m + c + i, a, l + n, t.app_image);
    assert(w =~= (hd + m + c + i + a) + l + n);
    lemma_span_piece(hd + m + c + i + a, l, n, t.license);
    assert(w =~= (hd + m + c + i + a + l) + n + Seq::empty());
    lemma_span_piece(hd + m + c + i + a + l, n, Seq::empty(), t.instructions);
    lemma_packed_toc_valid(base, p);
}

proof fn lemma_span_piece(pre: Seq<u8>, x: Seq<u8>, post: Seq<u8>, s: super::header::FileSection)
    requires
        s.position == pre.len(),
        s.length == x.len(),
    ensures
        span(pre + x + post, s) == x,
{
    assert(span(pre + x + post, s) =~= x);
}

proof fn lemma_packed_toc_valid(base: int, p: S9pkPacker)
    requires
        0 <= base,
        base + HEADER_LEN + p.body_len() <= u64::MAX,
    ensures
        toc_valid(packed_toc(base, p), base + HEADER_LEN + p.body_len()),
{
    let t = packed_toc(base, p);
    let len = base + HEADER_LEN + p.body_len();
    let secs = sections(t);
    assert(secs[0].end() == secs[1].position);
    assert(secs[1].end() == secs[2].position);
    assert(secs[2].end() == secs[3].position);
    assert(secs[3].end() == secs[4].position);
    assert(secs[4].end() == secs[5].position);
    assert(secs[5].end() == len);
    assert forall|k: int| 0 <= k < 6 implies #[trigger] section_ok(t, len, k) by {
        assert(section_fits(secs[k], len));
        assert forall|j: int| 0 <= j < k implies disjoint(#[trigger] secs[j], secs[k]) by {}
    }
}

/// An archive written into an empty output reads back: its header parses,
/// its table of contents validates, and each section holds exactly the bytes
/// that were packed.
pub proof fn lemma_archive_round_trip(p: S9pkPacker)
    requires
        HEADER_LEN + p.body_len() <= u64::MAX,
    ensures
        ({
            let b = packed_bytes(0, p);
            let t = parse_header(b).table_of_contents;
            &&& starts_with_header(b)
            &&& t == packed_toc(0, p)
            &&& toc_valid(t, b.len() as int)
            &&& span(b, t.manifest) == p.manifest@
            &&& span(b, t.config_spec) == p.config_spec@
            &&& span(b, t.icon) == p.icon@
            &&& span(b, t.app_image) == p.app_image@
            &&& span(b, t.license) == p.license@
            &&& span(b, t.instructions) == instructions_bytes(p.instructions)
        }),
{
    let empty = Seq::<u8>::empty();
    lemma_header_matches_sections(empty, p);
    let b = packed_bytes(0, p);
    assert(empty + b =~= b);
    assert(b.subrange(0, b.len() as int) =~= b);
}

} // verus!
