//! Progress of one install attempt: bytes downloaded and unpacked, and two
//! one-way latches.

use vstd::prelude::*;

verus! {

/// What an observer sees of an install's progress.
pub struct ProgressView {
    /// The total expected download size, where the source declared one.
    pub size: Option<u64>,
    pub downloaded: u64,
    pub download_complete: bool,
    pub unpacked: u64,
    pub unpack_complete: bool,
}

/// The progress of one install attempt. The counters only grow and the two
/// latches, once set, stay set; after a latch is set its counter no longer
/// moves.
#[derive(Clone, Copy, Debug)]
pub struct InstallProgress {
    size: Option<u64>,
    downloaded: u64,
    download_complete: bool,
    unpacked: u64,
    unpack_complete: bool,
}

/// `a + n`, held at `u64::MAX`.
pub open spec fn saturating(a: u64, n: u64) -> u64 {
    if a + n > u64::MAX {
        u64::MAX
    } else {
        (a + n) as u64
    }
}

/// The record after `n` more bytes arrive from the download; once the
/// download is complete further bytes change nothing.
pub open spec fn download_step(v: ProgressView, n: u64) -> ProgressView {
    if v.download_complete {
        v
    } else {
        ProgressView { downloaded: saturating(v.downloaded, n), ..v }
    }
}

/// The record after `n` more bytes are unpacked; once unpacking is complete
/// further bytes change nothing.
pub open spec fn unpack_step(v: ProgressView, n: u64) -> ProgressView {
    if v.unpack_complete {
        v
    } else {
        ProgressView { unpacked: saturating(v.unpacked, n), ..v }
    }
}

/// `b` can follow `a`: the size stays, the counters do not shrink, and a set
/// latch stays set with its counter frozen.
pub open spec fn progresses(a: ProgressView, b: ProgressView) -> bool {
    &&& a.size == b.size
    &&& a.downloaded <= b.downloaded
    &&& a.unpacked <= b.unpacked
    &&& a.download_complete ==> b.download_complete && b.downloaded == a.downloaded
    &&& a.unpack_complete ==> b.unpack_complete && b.unpacked == a.unpacked
}

/// A fresh record.
pub open spec fn fresh(size: Option<u64>) -> ProgressView {
    ProgressView {
        size,
        downloaded: 0,
        download_complete: false,
        unpacked: 0,
        unpack_complete: false,
    }
}

/// The record after the download latch is set.
pub open spec fn complete_download(v: ProgressView) -> ProgressView {
    ProgressView { download_complete: true, ..v }
}

/// The record after each chunk of `chunks`, in order, arrives.
pub open spec fn after_chunks(v: ProgressView, chunks: Seq<u64>) -> ProgressView
    decreases chunks.len(),
{
    if chunks.len() == 0 {
        v
    } else {
        download_step(after_chunks(v, chunks.drop_last()), chunks.last())
    }
}

/// The total of the chunk sizes.
pub open spec fn total(chunks: Seq<u64>) -> int
    decreases chunks.len(),
{
    if chunks.len() == 0 {
        0
    } else {
        total(chunks.drop_last()) + chunks.last()
    }
}

impl View for InstallProgress {
    type V = ProgressView;

    closed spec fn view(&self) -> ProgressView {
        ProgressView {
            size: self.size,
            downloaded: self.downloaded,
            download_complete: self.download_complete,
            unpacked: self.unpacked,
            unpack_complete: self.unpack_complete,
        }
    }
}

impl InstallProgress {
    /// A fresh record for a download of `size` bytes, where the size is known.
    pub fn new(size: Option<u64>) -> (r: InstallProgress)
        ensures
            r@ == fresh(size),
    {
        InstallProgress {
            size,
            downloaded: 0,
            download_complete: false,
            unpacked: 0,
            unpack_complete: false,
        }
    }

    pub fn size(&self) -> (r: Option<u64>)
        ensures
            r == self@.size,
    {
        self.size
    }

    pub fn downloaded(&self) -> (r: u64)
        ensures
            r == self@.downloaded,
    {
        self.downloaded
    }

    pub fn unpacked(&self) -> (r: u64)
        ensures
            r == self@.unpacked,
    {
        self.unpacked
    }

    pub fn is_download_complete(&self) -> (r: bool)
        ensures
            r == self@.download_complete,
    {
        self.download_complete
    }

    pub fn is_unpack_complete(&self) -> (r: bool)
        ensures
            r == self@.unpack_complete,
    {
        self.unpack_complete
    }

    /// Counts `n` bytes that arrived from the download.
    pub fn track_download(&mut self, n: u64)
        ensures
            final(self)@ == download_step(old(self)@, n),
            progresses(old(self)@, final(self)@),
    {
        if !self.download_complete {
            self.downloaded = self.downloaded.saturating_add(n);
        }
    }

    /// Counts `n` bytes read while unpacking.
    pub fn track_unpack(&mut self, n: u64)
        ensures
            final(self)@ == unpack_step(old(self)@, n),
            progresses(old(self)@, final(self)@),
    {
        if !self.unpack_complete {
            self.unpacked = self.unpacked.saturating_add(n);
        }
    }

    /// Sets the download latch.
    pub fn download_complete(&mut self)
        ensures
            final(self)@ == complete_download(old(self)@),
            progresses(old(self)@, final(self)@),
    {
        self.download_complete = true;
    }

    /// Sets the unpack latch.
    pub fn unpack_complete(&mut self)
        ensures
            final(self)@ == (ProgressView { unpack_complete: true, ..old(self)@ }),
            progresses(old(self)@, final(self)@),
    {
        self.unpack_complete = true;
    }

    /// Sets the unpack latch once the container runtime has loaded the image;
    /// a refused image leaves the record as it is.
    pub fn finish_unpack(&mut self, image_load: &Result<(), String>)
        ensures
            image_load is Ok ==> final(self)@ == (ProgressView { unpack_complete: true, ..old(self)@ }),
            image_load is Err ==> final(self)@ == old(self)@,
            progresses(old(self)@, final(self)@),
    {
        if image_load.is_ok() {
            self.unpack_complete = true;
        }
    }

    /// The share of the download done, in percent, where the size is known
    /// and not zero; held at 100.
    pub fn download_percent(&self) -> (r: Option<u64>)
        ensures
            r == (match self@.size {
                Some(s) if s > 0 => Some(
                    if self@.downloaded * 100 / (s as int) > 100 {
                        100u64
                    } else {
                        (self@.downloaded * 100 / (s as int)) as u64
                    },
                ),
                _ => None,
            }),
    {
        match self.size {
            Some(s) if s > 0 => {
                let p = (self.downloaded as u128) * 100 / (s as u128);
                if p > 100 {
                    Some(100)
                } else {
                    Some(p as u64)
                }
            },
            _ => None,
        }
    }
}

/// Bytes of download between two saved progress snapshots.
pub const SNAPSHOT_EVERY: u64 = 1048576;

/// Decides when a progress snapshot is due during a download.
#[derive(Clone, Copy, Debug)]
pub struct SnapshotTimer {
    since: u64,
}

impl SnapshotTimer {
    /// Bytes counted since the last snapshot.
    pub closed spec fn pending(&self) -> u64 {
        self.since
    }

    pub fn new() -> (r: SnapshotTimer)
        ensures
            r.pending() == 0,
    {
        SnapshotTimer { since: 0 }
    }

    /// Counts `n` more bytes; a snapshot is due once at least
    /// `SNAPSHOT_EVERY` bytes arrived since the last one, and the count then
    /// starts again.
    pub fn record(&mut self, n: u64) -> (due: bool)
        ensures
            due == (old(self).pending() + n >= SNAPSHOT_EVERY),
            due ==> final(self).pending() == 0,
            !due ==> final(self).pending() == old(self).pending() + n,
    {
        if (self.since as u128) + (n as u128) >= SNAPSHOT_EVERY as u128 {
            self.since = 0;
            true
        } else {
            self.since = self.since + n;
            false
        }
    }
}

proof fn lemma_after_chunks_grows(v: ProgressView, chunks: Seq<u64>, i: int)
    requires
        0 <= i <= chunks.len(),
    ensures
        progresses(after_chunks(v, chunks.take(i)), after_chunks(v, chunks)),
    decreases chunks.len(),
{
    if i < chunks.len() {
        let prev = chunks.drop_last();
        assert(prev.take(i) =~= chunks.take(i));
        lemma_after_chunks_grows(v, prev, i);
    } else {
        assert(chunks.take(i) =~= chunks);
    }
}

proof fn lemma_after_chunks_total(size: Option<u64>, chunks: Seq<u64>)
    requires
        total(chunks) <= u64::MAX,
    ensures
        after_chunks(fresh(size), chunks).downloaded == total(chunks),
        !after_chunks(fresh(size), chunks).download_complete,
        after_chunks(fresh(size), chunks).size == size,
    decreases chunks.len(),
{
    if chunks.len() > 0 {
        lemma_after_chunks_total(size, chunks.drop_last());
    }
}

proof fn lemma_after_latch(v: ProgressView, later: Seq<u64>)
    requires
        v.download_complete,
    ensures
        after_chunks(v, later) == v,
    decreases later.len(),
{
    if later.len() > 0 {
        lemma_after_latch(v, later.drop_last());
    }
}

/// A download in chunks of any sizes, from a fresh record: the downloaded
/// counter never decreases from one chunk to the next; once the download is
/// marked complete the counter equals the total of the chunks, and bytes
/// that arrive after that change nothing.
pub proof fn lemma_download_progress(size: Option<u64>, chunks: Seq<u64>, later: Seq<u64>)
    requires
        total(chunks) <= u64::MAX,
    ensures
        forall|i: int, j: int|
            0 <= i <= j <= chunks.len() ==> #[trigger] after_chunks(fresh(size), chunks.take(i)).downloaded
                <= #[trigger] after_chunks(fresh(size), chunks.take(j)).downloaded,
        complete_download(after_chunks(fresh(size), chunks)).download_complete,
        complete_download(after_chunks(fresh(size), chunks)).downloaded == total(chunks),
        after_chunks(complete_download(after_chunks(fresh(size), chunks)), later) == complete_download(
            after_chunks(fresh(size), chunks),
        ),
{
    assert forall|i: int, j: int|
        0 <= i <= j <= chunks.len() implies #[trigger] after_chunks(fresh(size), chunks.take(i)).downloaded
        <= #[trigger] after_chunks(fresh(size), chunks.take(j)).downloaded by {
        let cj = chunks.take(j);
        assert(cj.take(i) =~= chunks.take(i));
        lemma_after_chunks_grows(fresh(size), cj, i);
    }
    lemma_after_chunks_total(size, chunks);
    lemma_after_latch(complete_download(after_chunks(fresh(size), chunks)), later);
}

} // verus!
