//! Splitting text into words, fields and lines, and reading numbers, as the
//! standard library's `str` methods do.

use vstd::prelude::*;
use vstd::string::{StrSliceExecFns, StringExecFns};

verus! {

/// A character with the Unicode `White_Space` property.
pub open spec fn is_ws(c: char) -> bool {
    ('\u{9}' <= c && c <= '\u{d}') || c == ' ' || c == '\u{85}' || c == '\u{a0}' || c == '\u{1680}'
        || ('\u{2000}' <= c && c <= '\u{200a}') || c == '\u{2028}' || c == '\u{2029}' || c
        == '\u{202f}' || c == '\u{205f}' || c == '\u{3000}'
}

pub fn is_whitespace(c: char) -> (r: bool)
    ensures
        r == is_ws(c),
{
    ('\u{9}' <= c && c <= '\u{d}') || c == ' ' || c == '\u{85}' || c == '\u{a0}' || c == '\u{1680}'
        || ('\u{2000}' <= c && c <= '\u{200a}') || c == '\u{2028}' || c == '\u{2029}' || c
        == '\u{202f}' || c == '\u{205f}' || c == '\u{3000}'
}

/// The maximal runs of non-whitespace characters, in order.
pub open spec fn words(s: Seq<char>) -> Seq<Seq<char>>
    decreases s.len(),
{
    if s.len() == 0 {
        Seq::empty()
    } else {
        let t = words(s.drop_last());
        let c = s.last();
        if is_ws(c) {
            t
        } else if s.len() >= 2 && !is_ws(s[s.len() - 2]) {
            t.update(t.len() - 1, t.last().push(c))
        } else {
            t.push(seq![c])
        }
    }
}

/// The pieces of `s` between occurrences of `sep`; one piece more than
/// there are separators.
pub open spec fn fields(s: Seq<char>, sep: char) -> Seq<Seq<char>>
    decreases s.len(),
{
    if s.len() == 0 {
        seq![Seq::empty()]
    } else {
        let t = fields(s.drop_last(), sep);
        let c = s.last();
        if c == sep {
            t.push(Seq::empty())
        } else {
            t.update(t.len() - 1, t.last().push(c))
        }
    }
}

pub proof fn lemma_fields_nonempty(s: Seq<char>, sep: char)
    ensures
        fields(s, sep).len() >= 1,
    decreases s.len(),
{
    if s.len() > 0 {
        lemma_fields_nonempty(s.drop_last(), sep);
    }
}

pub proof fn lemma_words_open(s: Seq<char>)
    ensures
        s.len() >= 1 && !is_ws(s.last()) ==> words(s).len() >= 1,
    decreases s.len(),
{
    if s.len() > 0 {
        lemma_words_open(s.drop_last());
    }
}

pub open spec fn views(v: Seq<String>) -> Seq<Seq<char>> {
    v.map_values(|s: String| s@)
}

/// Splits `s` into its words.
pub fn split_words(s: &str) -> (r: Vec<String>)
    ensures
        views(r@) == words(s@),
{
    let n = s.unicode_len();
    let mut out: Vec<String> = Vec::new();
    let mut i: usize = 0;
    assert(s@.take(0) =~= Seq::<char>::empty());
    while i < n
        invariant
            n == s@.len(),
            i <= n,
            views(out@) == words(s@.take(i as int)),
        decreases n - i,
    {
        let c = s.get_char(i);
        let ghost t = s@.take(i + 1);
        proof {
            assert(t.drop_last() =~= s@.take(i as int));
            assert(t.last() == c);
            if i >= 1 {
                assert(t[t.len() - 2] == s@[i - 1]);
                lemma_words_open(s@.take(i as int));
                assert(s@.take(i as int).last() == s@[i - 1]);
            }
        }
        if !is_whitespace(c) {
            let piece = s.substring_char(i, i + 1);
            assert(piece@ =~= seq![c]);
            let ghost before = out@;
            if i >= 1 && !is_whitespace(s.get_char(i - 1)) {
                let mut last = out.pop().unwrap();
                let ghost old_last = last@;
                last.append(piece);
                out.push(last);
                proof {
                    assert(before.len() >= 1);
                    assert(old_last == views(before).last());
                    assert(last@ =~= old_last.push(c));
                    assert(out@ == before.drop_last().push(last));
                    assert(views(out@) =~= views(before).update(
                        views(before).len() - 1,
                        views(before).last().push(c),
                    ));
                }
            } else {
                out.push(String::from_str(piece));
                assert(views(out@) =~= views(before).push(seq![c]));
            }
        }
        i = i + 1;
        assert(views(out@) =~= words(s@.take(i as int)));
    }
    assert(s@.take(n as int) =~= s@);
    out
}

/// Splits `s` at each `sep`.
pub fn split_fields(s: &str, sep: char) -> (r: Vec<String>)
    ensures
        views(r@) == fields(s@, sep),
{
    let n = s.unicode_len();
    let mut out: Vec<String> = Vec::new();
    out.push(String::new());
    let mut i: usize = 0;
    assert(s@.take(0) =~= Seq::<char>::empty());
    assert(views(out@) =~= fields(Seq::<char>::empty(), sep));
    while i < n
        invariant
            n == s@.len(),
            i <= n,
            views(out@) == fields(s@.take(i as int), sep),
        decreases n - i,
    {
        let c = s.get_char(i);
        proof {
            let t = s@.take(i + 1);
            assert(t.drop_last() =~= s@.take(i as int));
            assert(t.last() == c);
            lemma_fields_nonempty(s@.take(i as int), sep);
        }
        let ghost before = out@;
        if c == sep {
            out.push(String::new());
            assert(views(out@) =~= views(before).push(Seq::empty()));
        } else {
            let piece = s.substring_char(i, i + 1);
            assert(piece@ =~= seq![c]);
            let mut last = out.pop().unwrap();
            let ghost old_last = last@;
            last.append(piece);
            out.push(last);
            proof {
                assert(before.len() >= 1);
                assert(old_last == views(before).last());
                assert(last@ =~= old_last.push(c));
                assert(out@ == before.drop_last().push(last));
                assert(views(out@) =~= views(before).update(
                    views(before).len() - 1,
                    views(before).last().push(c),
                ));
            }
        }
        i = i + 1;
        assert(views(out@) =~= fields(s@.take(i as int), sep));
    }
    assert(s@.take(n as int) =~= s@);
    out
}

/// A line without the one carriage return that may end it.
pub open spec fn strip_cr(l: Seq<char>) -> Seq<char> {
    if l.len() > 0 && l.last() == '\r' {
        l.drop_last()
    } else {
        l
    }
}

/// The lines of `s`: the pieces between line feeds, without a last empty
/// one, each without a final carriage return.
pub open spec fn lines(s: Seq<char>) -> Seq<Seq<char>> {
    let f = fields(s, '\n');
    let g = if f.last().len() == 0 {
        f.drop_last()
    } else {
        f
    };
    g.map_values(|l: Seq<char>| strip_cr(l))
}

fn strip_cr_string(l: String) -> (r: String)
    ensures
        r@ == strip_cr(l@),
{
    let n = l.as_str().unicode_len();
    if n > 0 && l.as_str().get_char(n - 1) == '\r' {
        let r = String::from_str(l.as_str().substring_char(0, n - 1));
        assert(r@ =~= strip_cr(l@));
        r
    } else {
        l
    }
}

/// Splits `s` into its lines.
pub fn split_lines(s: &str) -> (r: Vec<String>)
    ensures
        views(r@) == lines(s@),
{
    let mut f = split_fields(s, '\n');
    proof {
        lemma_fields_nonempty(s@, '\n');
    }
    let ghost g = if fields(s@, '\n').last().len() == 0 {
        fields(s@, '\n').drop_last()
    } else {
        fields(s@, '\n')
    };
    let k = f.len();
    if f[k - 1].as_str().unicode_len() == 0 {
        f.pop();
    }
    assert(views(f@) =~= g);
    let mut out: Vec<String> = Vec::new();
    let fs = f;
    let m = fs.len();
    let mut i: usize = 0;
    while i < m
        invariant
            m == fs@.len(),
            views(fs@) == g,
            i <= m,
            out@.len() == i,
            forall|j: int| 0 <= j < i ==> #[trigger] out@[j]@ == strip_cr(g[j]),
        decreases m - i,
    {
        let line = fs[i].clone();
        out.push(strip_cr_string(line));
        i = i + 1;
    }
    assert(views(out@) =~= lines(s@));
    out
}

/// `s` begins with `p`.
pub open spec fn has_prefix(s: Seq<char>, p: Seq<char>) -> bool {
    p.len() <= s.len() && s.subrange(0, p.len() as int) == p
}

pub fn starts_with(s: &str, p: &str) -> (r: bool)
    ensures
        r == has_prefix(s@, p@),
{
    let n = s.unicode_len();
    let k = p.unicode_len();
    if k > n {
        return false;
    }
    let mut i: usize = 0;
    while i < k
        invariant
            n == s@.len(),
            k == p@.len(),
            k <= n,
            i <= k,
            forall|j: int| 0 <= j < i ==> s@[j] == p@[j],
        decreases k - i,
    {
        if s.get_char(i) != p.get_char(i) {
            assert(s@.subrange(0, k as int)[i as int] != p@[i as int]);
            return false;
        }
        i = i + 1;
    }
    assert(s@.subrange(0, k as int) =~= p@);
    true
}

/// The value of a run of decimal digits.
pub open spec fn digits_value(s: Seq<char>) -> nat
    decreases s.len(),
{
    if s.len() == 0 {
        0
    } else {
        digits_value(s.drop_last()) * 10 + ((s.last() as nat) - ('0' as nat)) as nat
    }
}

pub open spec fn all_digits(s: Seq<char>) -> bool {
    forall|i: int| 0 <= i < s.len() ==> '0' <= #[trigger] s[i] && s[i] <= '9'
}

/// An ASCII digit.
pub open spec fn is_digit(c: char) -> bool {
    '0' <= c && c <= '9'
}

/// `s[i..j]` is a maximal run of ASCII digits.
pub open spec fn digit_run(s: Seq<char>, i: int, j: int) -> bool {
    &&& 0 <= i < j <= s.len()
    &&& forall|k: int| i <= k < j ==> is_digit(#[trigger] s[k])
    &&& (i == 0 || !is_digit(s[i - 1]))
    &&& (j == s.len() || !is_digit(s[j]))
}

/// No maximal run of digits in `s` has the value `v`.
pub open spec fn no_run_of(s: Seq<char>, v: nat) -> bool {
    forall|i: int, j: int| #[trigger] digit_run(s, i, j) ==> digits_value(s.subrange(i, j)) != v
}

/// One more than the largest `usize`: the cap of a run's running value.
pub open spec fn run_cap() -> nat {
    usize::MAX as nat + 1
}

pub open spec fn capped(v: nat) -> nat {
    if v > run_cap() {
        run_cap()
    } else {
        v
    }
}

proof fn lemma_capped_step(v: nat, d: nat)
    requires
        d <= 9,
    ensures
        capped(v * 10 + d) == capped(capped(v) * 10 + d),
{
    if v > run_cap() {
        assert(v * 10 + d > run_cap()) by (nonlinear_arith)
            requires
                v > run_cap(),
        ;
        assert(run_cap() * 10 + d > run_cap()) by (nonlinear_arith)
            requires
                run_cap() > 0,
        ;
    }
}

/// A maximal run that ends where a known run ends, and whose start is
/// preceded by no digit, is that run.
proof fn lemma_run_start(s: Seq<char>, a: int, st: int, b: int)
    requires
        digit_run(s, a, b),
        0 <= st < b,
        st == 0 || !is_digit(s[st - 1]),
        forall|k: int| st <= k < b ==> is_digit(#[trigger] s[k]),
    ensures
        a == st,
{
    if a < st {
        assert(is_digit(s[st - 1]));
    } else if a > st {
        assert(is_digit(s[a - 1]));
    }
}

/// Whether no maximal run of digits in `s` has the value `usize::MAX`.
pub fn no_run_of_usize_max(s: &str) -> (r: bool)
    ensures
        r == no_run_of(s@, usize::MAX as nat),
{
    let n = s.unicode_len();
    let mut i: usize = 0;
    let mut in_run = false;
    let mut st: usize = 0;
    let mut acc: u128 = 0;
    let cap: u128 = usize::MAX as u128 + 1;
    let max: u128 = usize::MAX as u128;
    while i < n
        invariant
            n == s@.len(),
            i <= n,
            cap == run_cap(),
            max == usize::MAX,
            forall|a: int, b: int|
                #[trigger] digit_run(s@, a, b) && b < i ==> digits_value(s@.subrange(a, b)) != usize::MAX
                    as nat,
            in_run ==> {
                &&& st < i
                &&& (st == 0 || !is_digit(s@[st - 1]))
                &&& forall|k: int| st <= k < i ==> is_digit(#[trigger] s@[k])
                &&& acc == capped(digits_value(s@.subrange(st as int, i as int)))
            },
            !in_run ==> (i == 0 || !is_digit(s@[i - 1])),
        decreases n - i,
    {
        let c = s.get_char(i);
        if '0' <= c && c <= '9' {
            let d = (c as u32 - '0' as u32) as u128;
            let ghost d_nat = d as nat;
            assert(s@[i as int] == c);
            assert(d_nat == (c as nat) - ('0' as nat));
            if in_run {
                proof {
                    let prev = s@.subrange(st as int, i as int);
                    let next = s@.subrange(st as int, i + 1);
                    assert(next.drop_last() =~= prev);
                    assert(next.last() == c);
                    assert(digits_value(next) == digits_value(prev) * 10 + d_nat);
                    lemma_capped_step(digits_value(prev), d_nat);
                }
                let v = acc * 10 + d;
                acc = if v > cap {
                    cap
                } else {
                    v
                };
            } else {
                in_run = true;
                st = i;
                acc = d;
                proof {
                    let next = s@.subrange(i as int, i + 1);
                    assert(next.drop_last() =~= Seq::<char>::empty());
                    assert(digits_value(Seq::<char>::empty()) == 0);
                    assert(digits_value(next.drop_last()) == 0);
                    assert(next.last() == c);
                    assert(digits_value(next) == d_nat);
                }
            }
            i = i + 1;
        } else {
            if in_run {
                if acc == max {
                    assert(digit_run(s@, st as int, i as int));
                    return false;
                }
                proof {
                    assert forall|a: int, b: int| #[trigger]
                        digit_run(s@, a, b) && b < i + 1 implies digits_value(s@.subrange(a, b))
                        != usize::MAX as nat by {
                        if b == i {
                            lemma_run_start(s@, a, st as int, b);
                        }
                    }
                }
                in_run = false;
            }
            i = i + 1;
        }
    }
    if in_run {
        if acc == max {
            assert(digit_run(s@, st as int, n as int));
            return false;
        }
    }
    proof {
        assert forall|a: int, b: int| #[trigger] digit_run(s@, a, b) implies digits_value(
            s@.subrange(a, b),
        ) != usize::MAX as nat by {
            if b == n && in_run {
                lemma_run_start(s@, a, st as int, b);
            }
        }
    }
    true
}

/// What `u64::from_str` gives: an optional plus sign, then at least one
/// digit, with a value that fits.
pub open spec fn u64_text(s: Seq<char>) -> Option<u64> {
    let d = if s.len() > 0 && s[0] == '+' {
        s.subrange(1, s.len() as int)
    } else {
        s
    };
    if d.len() > 0 && all_digits(d) && digits_value(d) <= u64::MAX {
        Some(digits_value(d) as u64)
    } else {
        None
    }
}

proof fn lemma_digits_monotone(s: Seq<char>, i: int)
    requires
        0 <= i <= s.len(),
        all_digits(s),
    ensures
        digits_value(s.take(i)) <= digits_value(s),
    decreases s.len(),
{
    if i < s.len() {
        let p = s.drop_last();
        assert(p.take(i) =~= s.take(i));
        lemma_digits_monotone(p, i);
    } else {
        assert(s.take(i) =~= s);
    }
}

/// Reads the digits of `d` as a number, where it fits.
fn read_digits(d: &str) -> (r: Option<u64>)
    requires
        d@.len() > 0,
    ensures
        r is Some <==> (all_digits(d@) && digits_value(d@) <= u64::MAX),
        r matches Some(v) ==> v == digits_value(d@),
{
    let n = d.unicode_len();
    let mut acc: u64 = 0;
    let mut i: usize = 0;
    assert(d@.take(0) =~= Seq::<char>::empty());
    while i < n
        invariant
            n == d@.len(),
            i <= n,
            all_digits(d@.take(i as int)),
            acc == digits_value(d@.take(i as int)),
        decreases n - i,
    {
        let c = d.get_char(i);
        let ghost t = d@.take(i + 1);
        assert(t.drop_last() =~= d@.take(i as int));
        if c < '0' || c > '9' {
            assert(!all_digits(d@)) by {
                assert(d@[i as int] == c);
            }
            return None;
        }
        let digit = (c as u32 - '0' as u32) as u64;
        if acc > (u64::MAX - digit) / 10 {
            proof {
                assert(digits_value(t) == acc * 10 + digit);
                assert(acc * 10 + digit > u64::MAX) by (nonlinear_arith)
                    requires
                        acc > (u64::MAX - digit) / 10,
                        digit <= 9,
                ;
                if all_digits(d@) {
                    lemma_digits_monotone(d@, i + 1);
                }
            }
            return None;
        }
        proof {
            assert(acc * 10 + digit <= u64::MAX) by (nonlinear_arith)
                requires
                    acc <= (u64::MAX - digit) / 10,
                    digit <= 9,
            ;
        }
        acc = acc * 10 + digit;
        i = i + 1;
        assert(all_digits(d@.take(i as int))) by {
            assert forall|j: int| 0 <= j < i implies '0' <= #[trigger] d@.take(i as int)[j]
                && d@.take(i as int)[j] <= '9' by {
                if j < i - 1 {
                    assert(d@.take(i as int)[j] == d@.take(i - 1)[j]);
                }
            }
        }
    }
    assert(d@.take(n as int) =~= d@);
    Some(acc)
}

/// Reads a `u64` as `u64::from_str` does.
pub fn parse_u64(s: &str) -> (r: Option<u64>)
    ensures
        r == u64_text(s@),
{
    let n = s.unicode_len();
    let d = if n > 0 && s.get_char(0) == '+' {
        s.substring_char(1, n)
    } else {
        s
    };
    if d.unicode_len() == 0 {
        return None;
    }
    read_digits(d)
}

/// What `i64::from_str` gives: an optional sign, then at least one digit,
/// with a value in range.
pub open spec fn i64_text(s: Seq<char>) -> Option<i64> {
    let neg = s.len() > 0 && s[0] == '-';
    let d = if s.len() > 0 && (s[0] == '+' || s[0] == '-') {
        s.subrange(1, s.len() as int)
    } else {
        s
    };
    if d.len() > 0 && all_digits(d) && (if neg {
        digits_value(d) <= 0x8000_0000_0000_0000
    } else {
        digits_value(d) <= 0x7fff_ffff_ffff_ffff
    }) {
        Some(
            if neg {
                (-digits_value(d)) as i64
            } else {
                digits_value(d) as i64
            },
        )
    } else {
        None
    }
}

/// Reads an `i64` as `i64::from_str` does.
pub fn parse_i64(s: &str) -> (r: Option<i64>)
    ensures
        r == i64_text(s@),
{
    let n = s.unicode_len();
    let signed = n > 0 && (s.get_char(0) == '+' || s.get_char(0) == '-');
    let neg = n > 0 && s.get_char(0) == '-';
    let d = if signed {
        s.substring_char(1, n)
    } else {
        s
    };
    if d.unicode_len() == 0 {
        return None;
    }
    match read_digits(d) {
        None => {
            proof {
                if all_digits(d@) {
                    assert(digits_value(d@) > u64::MAX);
                }
            }
            None
        },
        Some(v) => {
            if neg {
                if v <= 0x8000_0000_0000_0000 {
                    Some((-(v as i128)) as i64)
                } else {
                    None
                }
            } else if v <= 0x7fff_ffff_ffff_ffff {
                Some(v as i64)
            } else {
                None
            }
        },
    }
}

} // verus!
