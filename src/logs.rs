//! Notification levels and lines, and the arguments of a container log
//! request.

use vstd::prelude::*;
use vstd::string::{StrSliceExecFns, StringExecFns};

use crate::parse::views;
use crate::text::{decimal, push_decimal};

verus! {

/// How serious a notification is.
#[derive(Clone, Copy, Debug, PartialEq, Eq, Structural)]
pub enum Level {
    Error,
    Warn,
    Success,
    Info,
}

/// The name of a level.
pub open spec fn level_text(l: Level) -> Seq<char> {
    match l {
        Level::Error => "ERROR"@,
        Level::Warn => "WARN"@,
        Level::Success => "SUCCESS"@,
        Level::Info => "INFO"@,
    }
}

impl Level {
    pub fn as_str(&self) -> (r: &'static str)
        ensures
            r@ == level_text(*self),
    {
        match self {
            Level::Error => "ERROR",
            Level::Warn => "WARN",
            Level::Success => "SUCCESS",
            Level::Info => "INFO",
        }
    }

    /// The level whose name is `s`.
    pub fn from_name(s: &str) -> (r: Option<Level>)
        ensures
            r matches Some(l) ==> level_text(l) == s@,
            r is None ==> forall|l: Level| level_text(l) != s@,
    {
        if crate::s9pk::id::str_eq(s, "ERROR") {
            Some(Level::Error)
        } else if crate::s9pk::id::str_eq(s, "WARN") {
            Some(Level::Warn)
        } else if crate::s9pk::id::str_eq(s, "SUCCESS") {
            Some(Level::Success)
        } else if crate::s9pk::id::str_eq(s, "INFO") {
            Some(Level::Info)
        } else {
            proof {
                assert forall|l: Level| level_text(l) != s@ by {
                    match l {
                        Level::Error => {},
                        Level::Warn => {},
                        Level::Success => {},
                        Level::Info => {},
                    }
                }
            }
            None
        }
    }
}

/// `s` with each `from` replaced by `to`.
pub open spec fn replace_char(s: Seq<char>, from: char, to: Seq<char>) -> Seq<char>
    decreases s.len(),
{
    if s.len() == 0 {
        Seq::empty()
    } else {
        replace_char(s.drop_last(), from, to) + if s.last() == from {
            to
        } else {
            seq![s.last()]
        }
    }
}

/// Appends `src` with each `from` replaced by `to`.
fn push_replaced(out: &mut String, src: &str, from: char, to: &str)
    ensures
        final(out)@ == old(out)@ + replace_char(src@, from, to@),
{
    let n = src.unicode_len();
    let mut i: usize = 0;
    while i < n
        invariant
            n == src@.len(),
            i <= n,
            out@ == old(out)@ + replace_char(src@.take(i as int), from, to@),
        decreases n - i,
    {
        let c = src.get_char(i);
        if c == from {
            out.append(to);
        } else {
            out.append(src.substring_char(i, i + 1));
        }
        proof {
            assert(src@.take(i + 1).drop_last() =~= src@.take(i as int));
            assert(src@.subrange(i as int, i + 1) =~= seq![c]);
        }
        i = i + 1;
        assert(out@ =~= old(out)@ + replace_char(src@.take(i as int), from, to@));
    }
    assert(src@.take(n as int) =~= src@);
}

/// A notification that a package reported.
#[derive(Clone, Debug)]
pub struct Notification {
    pub time: i64,
    pub level: Level,
    pub code: usize,
    pub title: String,
    pub message: String,
}

/// The one-line form of a notification: level, code, title and message,
/// separated by colons; a colon in the title becomes U+A789 and a line break
/// in the message becomes U+2026.
pub open spec fn notification_line(n: Notification) -> Seq<char> {
    level_text(n.level) + seq![':'] + decimal(n.code as nat) + seq![':'] + replace_char(
        n.title@,
        ':',
        seq!['\u{A789}'],
    ) + seq![':'] + replace_char(n.message@, '\n', seq!['\u{2026}'])
}

impl Notification {
    pub fn to_line(&self) -> (r: String)
        ensures
            r@ == notification_line(*self),
    {
        proof {
            reveal_strlit(":");
            reveal_strlit("\u{A789}");
            reveal_strlit("\u{2026}");
        }
        let mut s = String::from_str(self.level.as_str());
        s.append(":");
        push_decimal(&mut s, self.code as u64);
        s.append(":");
        push_replaced(&mut s, self.title.as_str(), ':', "\u{A789}");
        s.append(":");
        push_replaced(&mut s, self.message.as_str(), '\n', "\u{2026}");
        assert(":"@ =~= seq![':']);
        assert("\u{A789}"@ =~= seq!['\u{A789}']);
        assert("\u{2026}"@ =~= seq!['\u{2026}']);
        assert(s@ =~= notification_line(*self));
        s
    }
}

/// What a container log request asks for.
#[derive(Clone, Debug)]
pub struct LogOptions {
    pub details: bool,
    pub follow: bool,
    pub since: Option<String>,
    pub until: Option<String>,
    pub tail: Option<usize>,
    pub timestamps: bool,
}

/// The arguments of `docker logs` for container `name`.
pub open spec fn log_args(name: Seq<char>, o: LogOptions) -> Seq<Seq<char>> {
    seq!["logs"@] + (if o.details {
        seq!["--details"@]
    } else {
        Seq::empty()
    }) + (if o.follow {
        seq!["-f"@]
    } else {
        Seq::empty()
    }) + (match o.since {
        Some(t) => seq!["--since"@, t@],
        None => Seq::empty(),
    }) + (match o.until {
        Some(t) => seq!["--until"@, t@],
        None => Seq::empty(),
    }) + (match o.tail {
        Some(n) => seq!["--tail"@, decimal(n as nat)],
        None => Seq::empty(),
    }) + (if o.timestamps {
        seq!["-t"@]
    } else {
        Seq::empty()
    }) + seq![name]
}

impl LogOptions {
    /// The arguments of `docker logs` for container `name`.
    pub fn docker_args(&self, name: &str) -> (r: Vec<String>)
        ensures
            views(r@) == log_args(name@, *self),
    {
        let mut args: Vec<String> = Vec::new();
        push_arg(&mut args, String::from_str("logs"));
        push_flag(&mut args, self.details, "--details");
        push_flag(&mut args, self.follow, "-f");
        push_option(&mut args, "--since", &self.since);
        push_option(&mut args, "--until", &self.until);
        let tail = match self.tail {
            Some(n) => {
                let mut t = String::new();
                push_decimal(&mut t, n as u64);
                assert(t@ =~= decimal(n as nat));
                Some(t)
            },
            None => None,
        };
        push_option(&mut args, "--tail", &tail);
        push_flag(&mut args, self.timestamps, "-t");
        push_arg(&mut args, String::from_str(name));
        assert(views(args@) =~= log_args(name@, *self));
        args
    }
}

fn push_arg(args: &mut Vec<String>, a: String)
    ensures
        views(final(args)@) == views(old(args)@).push(a@),
{
    args.push(a);
    assert(views(final(args)@) =~= views(old(args)@).push(a@));
}

fn push_flag(args: &mut Vec<String>, on: bool, flag: &str)
    ensures
        views(final(args)@) == views(old(args)@) + if on {
            seq![flag@]
        } else {
            Seq::empty()
        },
{
    if on {
        push_arg(args, String::from_str(flag));
    }
    assert(views(final(args)@) =~= views(old(args)@) + if on {
        seq![flag@]
    } else {
        Seq::<Seq<char>>::empty()
    });
}

fn push_option(args: &mut Vec<String>, flag: &str, value: &Option<String>)
    ensures
        views(final(args)@) == views(old(args)@) + match value {
            Some(t) => seq![flag@, t@],
            None => Seq::empty(),
        },
{
    match value {
        Some(t) => {
            push_arg(args, String::from_str(flag));
            push_arg(args, t.clone());
        },
        None => {},
    }
    assert(views(final(args)@) =~= views(old(args)@) + match value {
        Some(t) => seq![flag@, t@],
        None => Seq::<Seq<char>>::empty(),
    });
}

} // verus!
