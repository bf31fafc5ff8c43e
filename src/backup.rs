//! Backups: the include and exclude rules that a volume's `.backupignore`
//! file gives the backup tool.

use vstd::prelude::*;
use vstd::string::{StrSliceExecFns, StringExecFns};

use crate::parse::views;
use crate::volume::{join, join_path};

verus! {

/// `s` without its leading `!` characters.
pub open spec fn trim_bangs(s: Seq<char>) -> Seq<char>
    decreases s.len(),
{
    if s.len() > 0 && s[0] == '!' {
        trim_bangs(s.subrange(1, s.len() as int))
    } else {
        s
    }
}

/// The rule of one line: a line that starts with `!` includes the path
/// after the `!`s, any other line excludes its path; paths are relative to
/// the volume.
pub open spec fn filter_arg(volume: Seq<char>, line: Seq<char>) -> Seq<char> {
    if line.len() > 0 && line[0] == '!' {
        "--include="@ + join(volume, trim_bangs(line))
    } else {
        "--exclude="@ + join(volume, line)
    }
}

/// The rules of the non-empty lines, in order.
pub open spec fn filter_args(volume: Seq<char>, ls: Seq<Seq<char>>) -> Seq<Seq<char>>
    decreases ls.len(),
{
    if ls.len() == 0 {
        Seq::empty()
    } else {
        let prev = filter_args(volume, ls.drop_last());
        if ls.last().len() == 0 {
            prev
        } else {
            prev.push(filter_arg(volume, ls.last()))
        }
    }
}

fn trim_bangs_str(s: &str) -> (r: &str)
    ensures
        r@ == trim_bangs(s@),
{
    let n = s.unicode_len();
    let mut i: usize = 0;
    assert(s@.subrange(0, n as int) =~= s@);
    let mut done = false;
    while !done && i < n
        invariant
            n == s@.len(),
            i <= n,
            trim_bangs(s@) == trim_bangs(s@.subrange(i as int, n as int)),
            done ==> i < n && s@[i as int] != '!',
        decreases n - i + if done { 0int } else { 1int },
    {
        if s.get_char(i) != '!' {
            done = true;
        } else {
            proof {
                let t = s@.subrange(i as int, n as int);
                assert(t.subrange(1, t.len() as int) =~= s@.subrange(i + 1, n as int));
            }
            i = i + 1;
        }
    }
    let r = s.substring_char(i, n);
    proof {
        if i == n {
            assert(r@ =~= Seq::<char>::empty());
        } else {
            assert(r@[0] != '!');
        }
    }
    r
}

/// The backup tool's include and exclude arguments for the lines of a
/// volume's `.backupignore` file.
pub fn backup_filter_args(volume: &str, ignore_lines: &Vec<String>) -> (r: Vec<String>)
    ensures
        views(r@) == filter_args(volume@, views(ignore_lines@)),
{
    proof {
        reveal_strlit("!");
    }
    let ghost ls = views(ignore_lines@);
    let mut out: Vec<String> = Vec::new();
    let mut i: usize = 0;
    assert(ls.take(0) =~= Seq::<Seq<char>>::empty());
    while i < ignore_lines.len()
        invariant
            ls == views(ignore_lines@),
            i <= ignore_lines@.len(),
            views(out@) == filter_args(volume@, ls.take(i as int)),
        decreases ignore_lines@.len() - i,
    {
        let line = ignore_lines[i].as_str();
        assert(ls.take(i + 1).drop_last() =~= ls.take(i as int));
        assert(ls.take(i + 1).last() == line@);
        let n = line.unicode_len();
        if n > 0 {
            let mut path = String::from_str(volume);
            let mut arg;
            if line.get_char(0) == '!' {
                join_path(&mut path, trim_bangs_str(line));
                arg = String::from_str("--include=");
            } else {
                join_path(&mut path, line);
                arg = String::from_str("--exclude=");
            }
            arg.append(path.as_str());
            let ghost before = views(out@);
            out.push(arg);
            assert(views(out@) =~= before.push(filter_arg(volume@, line@)));
        }
        i = i + 1;
    }
    assert(ls.take(ignore_lines@.len() as int) =~= ls);
    out
}

} // verus!
