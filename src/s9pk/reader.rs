//! Reading an archive: the header, validation of the table of contents, and
//! each section's bytes.

use vstd::prelude::*;

use super::header::{parse_header, starts_with_header, FileSection, Header, TableOfContents, HEADER_LEN};
use crate::error::{Error, SectionKind};
use crate::hash::{content_hash, hash_str};

verus! {

/// The sections of a table of contents, in writing order.
pub open spec fn sections(t: TableOfContents) -> Seq<FileSection> {
    seq![t.manifest, t.config_spec, t.icon, t.app_image, t.license, t.instructions]
}

pub open spec fn kinds() -> Seq<SectionKind> {
    seq![
        SectionKind::Manifest,
        SectionKind::ConfigSpec,
        SectionKind::Icon,
        SectionKind::AppImage,
        SectionKind::License,
        SectionKind::Instructions,
    ]
}

/// The section lies after the header and inside a file of `len` bytes.
pub open spec fn section_fits(s: FileSection, len: int) -> bool {
    HEADER_LEN <= s.position && s.end() <= len
}

/// The two sections share no byte.
pub open spec fn disjoint(a: FileSection, b: FileSection) -> bool {
    a.end() <= b.position || b.end() <= a.position
}

/// Section `i` fits and overlaps none of the sections before it.
pub open spec fn section_ok(t: TableOfContents, len: int, i: int) -> bool {
    &&& section_fits(sections(t)[i], len)
    &&& forall|j: int| 0 <= j < i ==> disjoint(#[trigger] sections(t)[j], sections(t)[i])
}

/// Section `i` is the first, in writing order, that is not in order.
pub open spec fn first_bad(t: TableOfContents, len: int, i: int) -> bool {
    &&& 0 <= i < 6
    &&& !section_ok(t, len, i)
    &&& forall|k: int| 0 <= k < i ==> section_ok(t, len, k)
}

/// Every section lies inside the file, after the header, and no two overlap.
pub open spec fn toc_valid(t: TableOfContents, len: int) -> bool {
    forall|i: int| 0 <= i < 6 ==> #[trigger] section_ok(t, len, i)
}

/// The bytes of `b` that the section covers.
pub open spec fn span(b: Seq<u8>, s: FileSection) -> Seq<u8> {
    b.subrange(s.position as int, s.end())
}

/// An archive over the bytes of a whole file.
pub struct S9pkReader {
    bytes: Vec<u8>,
    header: Header,
    validated: bool,
}

impl S9pkReader {
    #[verifier::type_invariant]
    spec fn inv(self) -> bool {
        &&& starts_with_header(self.bytes@)
        &&& self.header == parse_header(self.bytes@)
        &&& self.validated ==> toc_valid(self.header.table_of_contents, self.bytes@.len() as int)
    }

    /// The whole file.
    pub closed spec fn archive(&self) -> Seq<u8> {
        self.bytes@
    }

    /// The table of contents read from the header.
    pub closed spec fn toc(&self) -> TableOfContents {
        self.header.table_of_contents
    }

    /// Validation has succeeded on this reader.
    pub closed spec fn is_validated(&self) -> bool {
        self.validated
    }

    /// Reads the header of the file `bytes`.
    pub fn from_bytes(bytes: Vec<u8>) -> (r: Result<S9pkReader, Error>)
        ensures
            r is Ok <==> starts_with_header(bytes@),
            r matches Ok(rdr) ==> {
                &&& rdr.archive() == bytes@
                &&& rdr.toc() == parse_header(bytes@).table_of_contents
                &&& !rdr.is_validated()
            },
            r matches Err(e) ==> e == Error::CorruptHeader,
    {
        match Header::deserialize(bytes.as_slice()) {
            Ok(header) => Ok(S9pkReader { bytes, header, validated: false }),
            Err(e) => Err(e),
        }
    }

    pub fn header(&self) -> (r: &Header)
        ensures
            r.table_of_contents == self.toc(),
    {
        &self.header
    }

    /// The content hash of the whole file.
    pub fn hash_str(&self) -> (r: String)
        ensures
            r@ == content_hash(self.archive()),
    {
        hash_str(self.bytes.as_slice())
    }

    /// Checks that every section lies inside the file, after the header, and
    /// that no two overlap. The error names the first section, in writing
    /// order, that does not fit or overlaps one before it.
    pub fn validate(&mut self) -> (r: Result<(), Error>)
        ensures
            final(self).archive() == old(self).archive(),
            final(self).toc() == old(self).toc(),
            r is Ok <==> toc_valid(old(self).toc(), old(self).archive().len() as int),
            final(self).is_validated() == (old(self).is_validated() || r is Ok),
            r matches Err(e) ==> exists|i: int|
                #[trigger] first_bad(old(self).toc(), old(self).archive().len() as int, i) && e
                    == Error::CorruptArchive(kinds()[i]),
    {
        proof {
            use_type_invariant(&*self);
        }
        let t = self.header.table_of_contents;
        let len = self.bytes.len() as u64;
        let secs = vec![t.manifest, t.config_spec, t.icon, t.app_image, t.license, t.instructions];
        let ks = vec![
            SectionKind::Manifest,
            SectionKind::ConfigSpec,
            SectionKind::Icon,
            SectionKind::AppImage,
            SectionKind::License,
            SectionKind::Instructions,
        ];
        assert(secs@ =~= sections(t));
        assert(ks@ =~= kinds());
        let mut i: usize = 0;
        while i < 6
            invariant
                secs@ == sections(t),
                ks@ == kinds(),
                t == self.header.table_of_contents,
                len == self.bytes@.len(),
                t == old(self).toc(),
                len == old(self).archive().len(),
                i <= 6,
                forall|k: int| 0 <= k < i ==> section_ok(t, len as int, k),
            decreases 6 - i,
        {
            let s = secs[i];
            let fits = HEADER_LEN as u64 <= s.position && s.position <= len && s.length <= len
                - s.position;
            if !fits {
                assert(first_bad(t, len as int, i as int));
                return Err(Error::CorruptArchive(ks[i]));
            }
            let mut j: usize = 0;
            while j < i
                invariant
                    secs@ == sections(t),
                    ks@ == kinds(),
                    t == old(self).toc(),
                    len == old(self).archive().len(),
                    i < 6,
                    j <= i,
                    s == sections(t)[i as int],
                    section_fits(s, len as int),
                    forall|k: int| 0 <= k < i ==> section_ok(t, len as int, k),
                    forall|k: int| 0 <= k < j ==> disjoint(#[trigger] sections(t)[k], s),
                decreases i - j,
            {
                let o = secs[j];
                let apart = (o.position <= s.position && o.length <= s.position - o.position) || (
                s.position <= o.position && s.length <= o.position - s.position);
                if !apart {
                    assert(!disjoint(sections(t)[j as int], sections(t)[i as int]));
                    assert(first_bad(t, len as int, i as int));
                    return Err(Error::CorruptArchive(ks[i]));
                }
                j = j + 1;
            }
            i = i + 1;
        }
        assert(toc_valid(t, len as int));
        self.validated = true;
        Ok(())
    }

    fn section(&self, s: FileSection) -> (r: &[u8])
        requires
            section_fits(s, self.archive().len() as int),
        ensures
            r@ == span(self.archive(), s),
    {
        let n = self.bytes.len();
        let start = s.position as usize;
        let end = start + s.length as usize;
        &self.bytes.as_slice()[start..end]
    }

    pub fn manifest(&self) -> (r: &[u8])
        requires
            self.is_validated(),
        ensures
            r@ == span(self.archive(), self.toc().manifest),
    {
        proof {
            use_type_invariant(self);
            assert(section_ok(self.toc(), self.archive().len() as int, 0));
        }
        self.section(self.header.table_of_contents.manifest)
    }

    pub fn config_spec(&self) -> (r: &[u8])
        requires
            self.is_validated(),
        ensures
            r@ == span(self.archive(), self.toc().config_spec),
    {
        proof {
            use_type_invariant(self);
            assert(section_ok(self.toc(), self.archive().len() as int, 1));
        }
        self.section(self.header.table_of_contents.config_spec)
    }

    pub fn icon(&self) -> (r: &[u8])
        requires
            self.is_validated(),
        ensures
            r@ == span(self.archive(), self.toc().icon),
    {
        proof {
            use_type_invariant(self);
            assert(section_ok(self.toc(), self.archive().len() as int, 2));
        }
        self.section(self.header.table_of_contents.icon)
    }

    pub fn app_image(&self) -> (r: &[u8])
        requires
            self.is_validated(),
        ensures
            r@ == span(self.archive(), self.toc().app_image),
    {
        proof {
            use_type_invariant(self);
            assert(section_ok(self.toc(), self.archive().len() as int, 3));
        }
        self.section(self.header.table_of_contents.app_image)
    }

    pub fn license(&self) -> (r: &[u8])
        requires
            self.is_validated(),
        ensures
            r@ == span(self.archive(), self.toc().license),
    {
        proof {
            use_type_invariant(self);
            assert(section_ok(self.toc(), self.archive().len() as int, 4));
        }
        self.section(self.header.table_of_contents.license)
    }

    pub fn instructions(&self) -> (r: &[u8])
        requires
            self.is_validated(),
        ensures
            r@ == span(self.archive(), self.toc().instructions),
    {
        proof {
            use_type_invariant(self);
            assert(section_ok(self.toc(), self.archive().len() as int, 5));
        }
        self.section(self.header.table_of_contents.instructions)
    }
}

} // verus!
