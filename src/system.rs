//! Counters read from the kernel, and the HTTP status of RPC error codes.

use vstd::prelude::*;

use crate::error::Error;
use vstd::string::{StrSliceExecFns, StringExecFns};

use crate::parse::{has_prefix, lines, parse_u64, split_lines, split_words, starts_with, u64_text, views, words};

verus! {

/// The CPU time counters of the first line of `/proc/stat`.
#[derive(Clone, Copy, Debug, PartialEq, Eq, Structural)]
pub struct ProcStat {
    pub user: u64,
    pub nice: u64,
    pub system: u64,
    pub idle: u64,
    pub iowait: u64,
    pub irq: u64,
    pub softirq: u64,
}

impl ProcStat {
    pub open spec fn spec_total(self) -> int {
        self.user + self.nice + self.system + self.idle + self.iowait + self.irq + self.softirq
    }

    /// All counters together.
    pub fn total(&self) -> (r: u64)
        requires
            self.spec_total() <= u64::MAX,
        ensures
            r == self.spec_total(),
    {
        self.user + self.nice + self.system + self.idle + self.iowait + self.irq + self.softirq
    }

    /// Time in user space, niced or not.
    pub fn user(&self) -> (r: u64)
        requires
            self.spec_total() <= u64::MAX,
        ensures
            r == self.user + self.nice,
    {
        self.user + self.nice
    }

    /// Time in the kernel, interrupts included.
    pub fn system(&self) -> (r: u64)
        requires
            self.spec_total() <= u64::MAX,
        ensures
            r == self.system + self.irq + self.softirq,
    {
        self.system + self.irq + self.softirq
    }

    /// Time in user space and in the kernel.
    pub fn used(&self) -> (r: u64)
        requires
            self.spec_total() <= u64::MAX,
        ensures
            r == self.user + self.nice + self.system + self.irq + self.softirq,
    {
        self.user() + self.system()
    }
}

/// The fields of `/proc/meminfo` that the metrics read, in KiB.
#[derive(Clone, Copy, Debug, PartialEq, Eq, Structural)]
pub struct MemInfo {
    pub mem_total: u64,
    pub mem_free: u64,
    pub mem_available: u64,
    pub buffers: u64,
    pub cached: u64,
    pub slab: u64,
    pub swap_total: u64,
    pub swap_free: u64,
}

/// The columns after the first word of a line.
pub open spec fn columns(line: Seq<char>) -> Seq<Seq<char>> {
    let w = words(line);
    if w.len() == 0 {
        w
    } else {
        w.subrange(1, w.len() as int)
    }
}

/// The counters of the `cpu` line of `/proc/stat`: every column must be a
/// number, and there must be at least ten.
pub open spec fn proc_stat_of(line: Seq<char>) -> Option<ProcStat> {
    let c = columns(line);
    if c.len() >= 10 && forall|i: int| 0 <= i < c.len() ==> #[trigger] u64_text(c[i]) is Some {
        Some(
            ProcStat {
                user: u64_text(c[0])->Some_0,
                nice: u64_text(c[1])->Some_0,
                system: u64_text(c[2])->Some_0,
                idle: u64_text(c[3])->Some_0,
                iowait: u64_text(c[4])->Some_0,
                irq: u64_text(c[5])->Some_0,
                softirq: u64_text(c[6])->Some_0,
            },
        )
    } else {
        None
    }
}

/// Reads the first line of `/proc/stat`.
pub fn parse_proc_stat(line: &str) -> (r: Result<ProcStat, Error>)
    ensures
        r is Ok <==> proc_stat_of(line@) is Some,
        r matches Ok(p) ==> proc_stat_of(line@) == Some(p),
        r matches Err(e) ==> e == Error::InvalidOutput,
{
    let w = split_words(line);
    let ghost c = columns(line@);
    let mut values: Vec<u64> = Vec::new();
    let mut i: usize = 1;
    while i < w.len()
        invariant
            views(w@) == words(line@),
            1 <= i <= w@.len() || w@.len() == 0,
            values@.len() == if w@.len() == 0 { 0 } else { i - 1 },
            c == columns(line@),
            forall|j: int| 0 <= j < values@.len() ==> Some(#[trigger] values@[j]) == u64_text(c[j]),
        decreases w@.len() - i,
    {
        assert(c[i - 1] == w@[i as int]@);
        match parse_u64(w[i].as_str()) {
            Some(v) => values.push(v),
            None => {
                return Err(Error::InvalidOutput);
            },
        }
        i = i + 1;
    }
    assert(values@.len() == c.len());
    if values.len() < 10 {
        return Err(Error::InvalidOutput);
    }
    assert forall|j: int| 0 <= j < c.len() implies #[trigger] u64_text(c[j]) is Some by {
        assert(Some(values@[j]) == u64_text(c[j]));
    }
    assert(Some(values@[0]) == u64_text(c[0]));
    assert(Some(values@[1]) == u64_text(c[1]));
    assert(Some(values@[2]) == u64_text(c[2]));
    assert(Some(values@[3]) == u64_text(c[3]));
    assert(Some(values@[4]) == u64_text(c[4]));
    assert(Some(values@[5]) == u64_text(c[5]));
    assert(Some(values@[6]) == u64_text(c[6]));
    Ok(
        ProcStat {
            user: values[0],
            nice: values[1],
            system: values[2],
            idle: values[3],
            iowait: values[4],
            irq: values[5],
            softirq: values[6],
        },
    )
}

/// Which field a line of `/proc/meminfo` gives, by the first of the keys
/// that it starts with; -1 where none.
pub open spec fn mem_key(line: Seq<char>) -> int {
    if has_prefix(line, "MemTotal"@) {
        0
    } else if has_prefix(line, "MemFree"@) {
        1
    } else if has_prefix(line, "MemAvailable"@) {
        2
    } else if has_prefix(line, "Buffers"@) {
        3
    } else if has_prefix(line, "Cached"@) {
        4
    } else if has_prefix(line, "Slab"@) {
        5
    } else if has_prefix(line, "SwapTotal"@) {
        6
    } else if has_prefix(line, "SwapFree"@) {
        7
    } else {
        -1
    }
}

pub open spec fn set_mem_field(m: MemInfo, k: int, v: u64) -> MemInfo {
    if k == 0 {
        MemInfo { mem_total: v, ..m }
    } else if k == 1 {
        MemInfo { mem_free: v, ..m }
    } else if k == 2 {
        MemInfo { mem_available: v, ..m }
    } else if k == 3 {
        MemInfo { buffers: v, ..m }
    } else if k == 4 {
        MemInfo { cached: v, ..m }
    } else if k == 5 {
        MemInfo { slab: v, ..m }
    } else if k == 6 {
        MemInfo { swap_total: v, ..m }
    } else {
        MemInfo { swap_free: v, ..m }
    }
}

/// One line's effect: a keyed line must carry a number as its second word,
/// which sets the field and counts; other lines change nothing.
pub open spec fn mem_step(st: Option<(MemInfo, nat)>, line: Seq<char>) -> Option<(MemInfo, nat)> {
    match st {
        None => None,
        Some((m, c)) => {
            let k = mem_key(line);
            if k < 0 {
                Some((m, c))
            } else if words(line).len() < 2 || u64_text(words(line)[1]) is None {
                None
            } else {
                Some((set_mem_field(m, k, u64_text(words(line)[1])->Some_0), c + 1))
            }
        },
    }
}

pub open spec fn zero_mem() -> MemInfo {
    MemInfo {
        mem_total: 0,
        mem_free: 0,
        mem_available: 0,
        buffers: 0,
        cached: 0,
        slab: 0,
        swap_total: 0,
        swap_free: 0,
    }
}

pub open spec fn mem_fold(ls: Seq<Seq<char>>) -> Option<(MemInfo, nat)>
    decreases ls.len(),
{
    if ls.len() == 0 {
        Some((zero_mem(), 0))
    } else {
        mem_step(mem_fold(ls.drop_last()), ls.last())
    }
}

/// The fields of `/proc/meminfo`: each keyed line read, and exactly eight of
/// them.
pub open spec fn mem_info_of(s: Seq<char>) -> Option<MemInfo> {
    match mem_fold(lines(s)) {
        Some((m, c)) => if c == 8 {
            Some(m)
        } else {
            None
        },
        None => None,
    }
}

fn mem_key_of(line: &str) -> (r: i8)
    ensures
        r == mem_key(line@),
{
    if starts_with(line, "MemTotal") {
        0
    } else if starts_with(line, "MemFree") {
        1
    } else if starts_with(line, "MemAvailable") {
        2
    } else if starts_with(line, "Buffers") {
        3
    } else if starts_with(line, "Cached") {
        4
    } else if starts_with(line, "Slab") {
        5
    } else if starts_with(line, "SwapTotal") {
        6
    } else if starts_with(line, "SwapFree") {
        7
    } else {
        -1
    }
}

/// Applies one line of `/proc/meminfo`; false where the line is keyed but
/// carries no number.
fn mem_line(m: &mut MemInfo, count: &mut u64, line: &str) -> (ok: bool)
    requires
        *old(count) < u64::MAX,
    ensures
        ok ==> mem_step(Some((*old(m), *old(count) as nat)), line@) == Some(
            (*final(m), *final(count) as nat),
        ),
        !ok ==> mem_step(Some((*old(m), *old(count) as nat)), line@) is None,
        *final(count) <= *old(count) + 1,
{
    let k = mem_key_of(line);
    if k < 0 {
        return true;
    }
    let w = split_words(line);
    if w.len() < 2 {
        return false;
    }
    let v = match parse_u64(w[1].as_str()) {
        Some(v) => v,
        None => {
            return false;
        },
    };
    if k == 0 {
        m.mem_total = v;
    } else if k == 1 {
        m.mem_free = v;
    } else if k == 2 {
        m.mem_available = v;
    } else if k == 3 {
        m.buffers = v;
    } else if k == 4 {
        m.cached = v;
    } else if k == 5 {
        m.slab = v;
    } else if k == 6 {
        m.swap_total = v;
    } else {
        m.swap_free = v;
    }
    *count = *count + 1;
    true
}

/// Reads `/proc/meminfo`.
pub fn parse_mem_info(contents: &str) -> (r: Result<MemInfo, Error>)
    ensures
        r is Ok <==> mem_info_of(contents@) is Some,
        r matches Ok(m) ==> mem_info_of(contents@) == Some(m),
        r matches Err(e) ==> e == Error::InvalidOutput,
{
    let ls = split_lines(contents);
    let ghost l = lines(contents@);
    let mut m = MemInfo {
        mem_total: 0,
        mem_free: 0,
        mem_available: 0,
        buffers: 0,
        cached: 0,
        slab: 0,
        swap_total: 0,
        swap_free: 0,
    };
    let mut count: u64 = 0;
    let mut i: usize = 0;
    assert(l.take(0) =~= Seq::<Seq<char>>::empty());
    while i < ls.len()
        invariant
            views(ls@) == l,
            l == lines(contents@),
            i <= ls@.len(),
            count <= i,
            mem_fold(l.take(i as int)) == Some((m, count as nat)),
        decreases ls@.len() - i,
    {
        assert(l.take(i + 1).drop_last() =~= l.take(i as int));
        assert(l.take(i + 1).last() == ls@[i as int]@);
        if !mem_line(&mut m, &mut count, ls[i].as_str()) {
            proof {
                lemma_mem_fold_stuck(l, i as int + 1);
            }
            return Err(Error::InvalidOutput);
        }
        i = i + 1;
    }
    assert(l.take(ls@.len() as int) =~= l);
    if count != 8 {
        return Err(Error::InvalidOutput);
    }
    Ok(m)
}

/// Once a line fails, the whole reading fails.
proof fn lemma_mem_fold_stuck(l: Seq<Seq<char>>, i: int)
    requires
        0 <= i <= l.len(),
        mem_fold(l.take(i)) is None,
    ensures
        mem_fold(l) is None,
    decreases l.len() - i,
{
    if i < l.len() {
        assert(l.take(i + 1).drop_last() =~= l.take(i));
        lemma_mem_fold_stuck(l, i + 1);
    } else {
        assert(l.take(i) =~= l);
    }
}

/// A journal line split at its first space: the timestamp and the message.
pub open spec fn split_once_space(l: Seq<char>) -> Option<(Seq<char>, Seq<char>)> {
    if exists|i: int| 0 <= i < l.len() && l[i] == ' ' {
        let i = choose|i: int| 0 <= i < l.len() && l[i] == ' ' && forall|j: int| 0 <= j < i ==> l[j] != ' ';
        Some((l.subrange(0, i), l.subrange(i + 1, l.len() as int)))
    } else {
        None
    }
}

/// Splits a line at its first space.
pub fn split_at_space(l: &str) -> (r: Option<(String, String)>)
    ensures
        match r {
            Some((a, b)) => split_once_space(l@) == Some((a@, b@)),
            None => split_once_space(l@) is None,
        },
{
    let n = l.unicode_len();
    let mut i: usize = 0;
    while i < n
        invariant
            n == l@.len(),
            i <= n,
            forall|j: int| 0 <= j < i ==> l@[j] != ' ',
        decreases n - i,
    {
        if l.get_char(i) == ' ' {
            proof {
                let c = choose|c: int| 0 <= c < l@.len() && l@[c] == ' ' && forall|j: int| 0 <= j < c ==> l@[j] != ' ';
                assert(c == i) by {
                    if c < i {
                        assert(l@[c] != ' ');
                    } else if c > i {
                        assert(l@[i as int] != ' ');
                    }
                }
            }
            return Some(
                (String::from_str(l.substring_char(0, i)), String::from_str(l.substring_char(i + 1, n))),
            );
        }
        i = i + 1;
    }
    None
}

/// The lines of a reversed journal dump after its heading, each split at
/// its first space, put back in time order; nothing where a line has no
/// space.
pub open spec fn journal_of(ls: Seq<Seq<char>>) -> Option<Seq<(Seq<char>, Seq<char>)>>
    decreases ls.len(),
{
    if ls.len() == 0 {
        Some(Seq::empty())
    } else {
        match (journal_of(ls.drop_last()), split_once_space(ls.last())) {
            (Some(prev), Some(e)) => Some(seq![e] + prev),
            _ => None,
        }
    }
}

/// Reads the output of a reversed journal dump: a heading, then one line per
/// entry, newest first.
pub fn parse_journal(out: &str) -> (r: Result<Vec<(String, String)>, Error>)
    ensures
        match r {
            Ok(v) => journal_of(crate::wifi::after_heading(out@)) matches Some(e) && e.len() == v@.len()
                && forall|i: int| 0 <= i < v@.len() ==> (#[trigger] v@[i]).0@ == e[i].0 && v@[i].1@ == e[i].1,
            Err(e) => e == Error::InvalidOutput && journal_of(crate::wifi::after_heading(out@)) is None,
        },
{
    let ls = split_lines(out);
    let ghost body = crate::wifi::after_heading(out@);
    let mut rev: Vec<(String, String)> = Vec::new();
    if ls.len() == 0 {
        assert(body =~= Seq::<Seq<char>>::empty());
        return Ok(rev);
    }
    let mut i: usize = 1;
    let ghost mut acc: Seq<(Seq<char>, Seq<char>)> = Seq::empty();
    assert(body.take(0) =~= Seq::<Seq<char>>::empty());
    while i < ls.len()
        invariant
            views(ls@) == lines(out@),
            ls@.len() >= 1,
            body == crate::wifi::after_heading(out@),
            body.len() == ls@.len() - 1,
            1 <= i <= ls@.len(),
            journal_of(body.take(i - 1)) == Some(acc),
            acc.len() == rev@.len(),
            forall|j: int|
                0 <= j < rev@.len() ==> (#[trigger] rev@[j]).0@ == acc[rev@.len() - 1 - j].0 && rev@[j].1@
                    == acc[rev@.len() - 1 - j].1,
        decreases ls@.len() - i,
    {
        let ghost t = body.take(i as int);
        assert(t.drop_last() =~= body.take(i - 1));
        assert(t.last() == ls@[i as int]@);
        match split_at_space(ls[i].as_str()) {
            Some(e) => {
                let ghost ev = (e.0@, e.1@);
                rev.push(e);
                proof {
                    let old_acc = acc;
                    acc = seq![ev] + old_acc;
                    assert forall|j: int| 0 <= j < rev@.len() implies (#[trigger] rev@[j]).0@ == acc[rev@.len()
                        - 1 - j].0 && rev@[j].1@ == acc[rev@.len() - 1 - j].1 by {
                        if j < rev@.len() - 1 {
                            assert(acc[rev@.len() - 1 - j] == old_acc[rev@.len() - 2 - j]);
                        }
                    }
                }
            },
            None => {
                proof {
                    lemma_journal_stuck(body, i as int);
                }
                return Err(Error::InvalidOutput);
            },
        }
        i = i + 1;
    }
    assert(body.take(ls@.len() - 1) =~= body);
    let ghost e = acc;
    let mut out_v: Vec<(String, String)> = Vec::new();
    let mut k: usize = rev.len();
    while k > 0
        invariant
            k <= rev@.len(),
            e.len() == rev@.len(),
            forall|j: int|
                0 <= j < rev@.len() ==> (#[trigger] rev@[j]).0@ == e[rev@.len() - 1 - j].0 && rev@[j].1@
                    == e[rev@.len() - 1 - j].1,
            out_v@.len() == rev@.len() - k,
            forall|j: int| 0 <= j < out_v@.len() ==> (#[trigger] out_v@[j]).0@ == e[j].0 && out_v@[j].1@ == e[j].1,
        decreases k,
    {
        k = k - 1;
        let (a, b) = &rev[k];
        out_v.push((a.clone(), b.clone()));
    }
    Ok(out_v)
}

proof fn lemma_journal_stuck(l: Seq<Seq<char>>, i: int)
    requires
        0 <= i <= l.len(),
        journal_of(l.take(i)) is None,
    ensures
        journal_of(l) is None,
    decreases l.len() - i,
{
    if i < l.len() {
        assert(l.take(i + 1).drop_last() =~= l.take(i));
        lemma_journal_stuck(l, i + 1);
    } else {
        assert(l.take(i) =~= l);
    }
}

/// The HTTP status for a JSON-RPC error code: the request errors (parse
/// error, invalid request, unknown method, invalid parameters) are the
/// client's fault, everything else the server's.
pub fn status_code(code: i32) -> (r: u16)
    ensures
        r == if code == -32700 || code == -32600 || code == -32601 || code == -32602 {
            400u16
        } else {
            500u16
        },
{
    if code == -32700 || code == -32600 || code == -32601 || code == -32602 {
        400
    } else {
        500
    }
}

} // verus!
