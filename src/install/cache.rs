//! Reusing a cached archive, or downloading a fresh one into the cache.

use vstd::prelude::*;

use super::progress::{download_step, complete_download, InstallProgress};
use crate::error::Error;
use crate::hash::content_hash;
use crate::s9pk::header::starts_with_header;
use crate::s9pk::id::str_eq;
use crate::s9pk::reader::S9pkReader;

verus! {

/// The cached archive can be reused: the registry declared a hash, a cached
/// file exists, its header reads, and its content hash is the declared one.
pub open spec fn cache_hit(declared: Option<Seq<char>>, cached: Option<Seq<u8>>) -> bool {
    &&& declared is Some
    &&& cached is Some
    &&& starts_with_header(cached->Some_0)
    &&& content_hash(cached->Some_0) == declared->Some_0
}

pub open spec fn opt_view(s: Option<&str>) -> Option<Seq<char>> {
    match s {
        Some(t) => Some(t@),
        None => None,
    }
}

pub open spec fn opt_bytes(b: Option<Vec<u8>>) -> Option<Seq<u8>> {
    match b {
        Some(v) => Some(v@),
        None => None,
    }
}

/// Opens the cached archive where it can be reused. Any failure only means
/// that the archive is downloaded afresh.
pub fn check_cache(declared_hash: Option<&str>, cached: Option<Vec<u8>>) -> (r: Option<S9pkReader>)
    ensures
        r is Some <==> cache_hit(opt_view(declared_hash), opt_bytes(cached)),
        r matches Some(rdr) ==> rdr.archive() == cached->Some_0@ && !rdr.is_validated(),
{
    let hash = match declared_hash {
        Some(h) => h,
        None => {
            return None;
        },
    };
    let bytes = match cached {
        Some(b) => b,
        None => {
            return None;
        },
    };
    let rdr = match S9pkReader::from_bytes(bytes) {
        Ok(rdr) => rdr,
        Err(_) => {
            return None;
        },
    };
    let actual = rdr.hash_str();
    if str_eq(actual.as_str(), hash) {
        Some(rdr)
    } else {
        None
    }
}

/// A cached archive whose content hash is the one the registry declared,
/// and whose header reads, is reused as it is: the cache check opens it, and
/// the install reads that very file instead of downloading.
pub proof fn lemma_matching_cache_reused(declared: Seq<char>, cached: Seq<u8>)
    requires
        content_hash(cached) == declared,
        starts_with_header(cached),
    ensures
        cache_hit(Some(declared), Some(cached)),
{
}

/// A cached archive whose content hash differs from the declared one is
/// never reused: the install falls back to a fresh download.
pub proof fn lemma_mismatched_cache_refetched(declared: Seq<char>, cached: Seq<u8>)
    requires
        content_hash(cached) != declared,
    ensures
        !cache_hit(Some(declared), Some(cached)),
{
}

/// The cache file while a fresh download is written into it.
pub struct Download {
    data: Vec<u8>,
}

/// The bytes of the chunks, one after the other.
pub open spec fn concat(chunks: Seq<Seq<u8>>) -> Seq<u8>
    decreases chunks.len(),
{
    if chunks.len() == 0 {
        Seq::empty()
    } else {
        concat(chunks.drop_last()) + chunks.last()
    }
}

impl Download {
    /// What the cache file holds so far.
    pub closed spec fn written(&self) -> Seq<u8> {
        self.data@
    }

    /// Discards the stale cache file: the download starts from nothing.
    pub fn start() -> (r: Download)
        ensures
            r.written() == Seq::<u8>::empty(),
    {
        Download { data: Vec::new() }
    }

    /// Writes a chunk that arrived and counts it.
    pub fn receive(&mut self, chunk: &[u8], progress: &mut InstallProgress)
        ensures
            final(self).written() == old(self).written() + chunk@,
            final(progress)@ == download_step(old(progress)@, chunk@.len() as u64),
    {
        let mut i: usize = 0;
        while i < chunk.len()
            invariant
                i <= chunk@.len(),
                self.data@ == old(self).data@ + chunk@.subrange(0, i as int),
            decreases chunk@.len() - i,
        {
            self.data.push(chunk[i]);
            i = i + 1;
            assert(self.data@ =~= old(self).data@ + chunk@.subrange(0, i as int));
        }
        assert(chunk@.subrange(0, chunk@.len() as int) =~= chunk@);
        progress.track_download(chunk.len() as u64);
    }

    /// Marks the download complete and opens the archive that was written.
    pub fn finish(self, progress: &mut InstallProgress) -> (r: Result<S9pkReader, Error>)
        ensures
            final(progress)@ == complete_download(old(progress)@),
            r is Ok <==> starts_with_header(self.written()),
            r matches Ok(rdr) ==> rdr.archive() == self.written() && !rdr.is_validated(),
            r matches Err(e) ==> e == Error::CorruptHeader,
    {
        progress.download_complete();
        S9pkReader::from_bytes(self.data)
    }

    /// The bytes written, to be stored as the cache file.
    pub fn bytes(&self) -> (r: &[u8])
        ensures
            r@ == self.written(),
    {
        self.data.as_slice()
    }
}

/// A fresh download holds exactly the chunks that arrived, whatever the
/// stale cache file held: after a start and each chunk in turn, the cache
/// file is the chunks one after the other.
pub proof fn lemma_download_overwrites(chunks: Seq<Seq<u8>>, written: Seq<Seq<u8>>)
    requires
        written.len() == chunks.len() + 1,
        written[0] == Seq::<u8>::empty(),
        forall|i: int| 0 <= i < chunks.len() ==> #[trigger] written[i + 1] == written[i] + chunks[i],
    ensures
        written[chunks.len() as int] == concat(chunks),
    decreases chunks.len(),
{
    if chunks.len() > 0 {
        let n = chunks.len() - 1;
        lemma_download_overwrites(chunks.drop_last(), written.take(n + 1));
        assert(written[n + 1] == written[n] + chunks[n]);
    }
}

} // verus!
