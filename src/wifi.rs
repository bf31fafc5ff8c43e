//! WiFi management: requests, the arguments handed to `wpa_cli`, and the
//! readings of its answers.

use vstd::prelude::*;
use vstd::string::StringExecFns;

use crate::error::Error;
use crate::parse::{fields, i64_text, lines, parse_i64, split_fields, split_lines, views};
use crate::s9pk::id::str_eq;
use crate::text::{push_signed_decimal, signed_decimal};

verus! {

/// A request to add a network.
#[derive(Clone, Debug)]
pub struct AddWifiReq {
    pub ssid: String,
    pub password: String,
    pub country: String,
    pub priority: isize,
    pub connect: bool,
}

/// What is known of the WiFi state.
#[derive(Clone, Debug)]
pub struct WiFiInfo {
    pub ssids: Vec<String>,
    pub selected: Option<String>,
    pub connected: Option<String>,
    pub country: String,
    pub ethernet: bool,
    /// The signal strength in percent, where there is a signal.
    pub signal_strength: Option<usize>,
}

/// The `wpa_cli` front end of one interface.
#[derive(Clone, Debug)]
pub struct WpaCli {
    pub interface: String,
}

/// A network's identifier within `wpa_supplicant`.
#[derive(Clone, Debug, PartialEq, Eq)]
pub struct NetworkId(pub String);

/// An attribute of a network.
#[derive(Clone, Debug)]
pub enum NetworkAttr {
    Ssid(String),
    Psk(String),
    Priority(isize),
    ScanSsid(bool),
}

/// The value of an attribute as `wpa_cli` takes it: strings quoted, numbers
/// in decimal, flags as `1` or `0`.
pub open spec fn attr_text(a: NetworkAttr) -> Seq<char> {
    match a {
        NetworkAttr::Ssid(s) => seq!['"'] + s@ + seq!['"'],
        NetworkAttr::Psk(s) => seq!['"'] + s@ + seq!['"'],
        NetworkAttr::Priority(n) => signed_decimal(n as int),
        NetworkAttr::ScanSsid(b) => if b {
            seq!['1']
        } else {
            seq!['0']
        },
    }
}

impl NetworkAttr {
    pub fn to_arg(&self) -> (r: String)
        ensures
            r@ == attr_text(*self),
    {
        proof {
            reveal_strlit("\"");
            reveal_strlit("1");
            reveal_strlit("0");
        }
        let mut s = String::new();
        match self {
            NetworkAttr::Ssid(t) => {
                s.append("\"");
                s.append(t.as_str());
                s.append("\"");
            },
            NetworkAttr::Psk(t) => {
                s.append("\"");
                s.append(t.as_str());
                s.append("\"");
            },
            NetworkAttr::Priority(n) => {
                push_signed_decimal(&mut s, *n as i64);
            },
            NetworkAttr::ScanSsid(b) => {
                if *b {
                    s.append("1");
                } else {
                    s.append("0");
                }
            },
        }
        assert(s@ =~= attr_text(*self));
        s
    }
}

/// The signal strength in percent for a reading in dBm: none at or below
/// -100, full at or above -50, linear in between.
pub open spec fn strength_of(rssi: int) -> int {
    if rssi <= -100 {
        0
    } else if rssi >= -50 {
        100
    } else {
        2 * (rssi + 100)
    }
}

pub fn signal_strength(rssi: Option<i64>) -> (r: Option<usize>)
    ensures
        match rssi {
            None => r is None,
            Some(x) => r == Some(strength_of(x as int) as usize),
        },
{
    match rssi {
        None => None,
        Some(x) => {
            if x <= -100 {
                Some(0)
            } else if x >= -50 {
                Some(100)
            } else {
                Some((2 * (x + 100)) as usize)
            }
        },
    }
}

/// A command that ended with code 0 succeeded; any other code, or a signal
/// where there is no code, is a failure.
pub fn check_exit_status(code: Option<i32>) -> (r: Result<(), Error>)
    ensures
        r is Ok <==> code == Some(0i32),
        r matches Err(e) ==> e == Error::ExitStatus(code),
{
    match code {
        Some(0) => Ok(()),
        _ => Err(Error::ExitStatus(code)),
    }
}

impl AddWifiReq {
    /// A network name and password must be ASCII.
    pub fn check(&self) -> (r: Result<(), Error>)
        ensures
            r is Ok <==> (vstd::string::string_is_ascii(&self.ssid) && vstd::string::string_is_ascii(
                &self.password,
            )),
            r matches Err(e) ==> e == Error::NotAscii,
    {
        if !self.ssid.as_str().is_ascii() || !self.password.as_str().is_ascii() {
            return Err(Error::NotAscii);
        }
        Ok(())
    }
}

/// Whether deleting network `ssid` goes ahead, given the network in use and
/// whether the wired interface is connected: the network in use is deleted
/// only while the host stays reachable by wire; another network is left as
/// it is.
pub fn delete_decision(current: Option<&str>, ssid: &str, ethernet: bool) -> (r: Result<bool, Error>)
    ensures
        match current {
            None => r == Ok::<bool, Error>(true),
            Some(c) => if c@ == ssid@ {
                if ethernet {
                    r == Ok::<bool, Error>(true)
                } else {
                    r == Err::<bool, Error>(Error::WouldDisconnect)
                }
            } else {
                r == Ok::<bool, Error>(false)
            },
        },
{
    match current {
        None => Ok(true),
        Some(c) => {
            if str_eq(c, ssid) {
                if ethernet {
                    Ok(true)
                } else {
                    Err(Error::WouldDisconnect)
                }
            } else {
                Ok(false)
            }
        },
    }
}

/// The network to select again after trying `ssid`: the one in use before,
/// where the attempt failed.
pub fn fallback_network(connected: bool, previous: Option<String>) -> (r: Option<String>)
    ensures
        r == if connected {
            None
        } else {
            previous
        },
{
    if connected {
        None
    } else {
        previous
    }
}

/// The rows of a `list_networks` answer after its heading: each row with
/// at least two tab-separated fields gives (network name, identifier).
pub open spec fn network_rows(ls: Seq<Seq<char>>) -> Seq<(Seq<char>, Seq<char>)>
    decreases ls.len(),
{
    if ls.len() == 0 {
        Seq::empty()
    } else {
        let prev = network_rows(ls.drop_last());
        let f = fields(ls.last(), '\t');
        if f.len() >= 2 {
            prev.push((f[1], f[0]))
        } else {
            prev
        }
    }
}

pub open spec fn after_heading(out: Seq<char>) -> Seq<Seq<char>> {
    let l = lines(out);
    if l.len() == 0 {
        l
    } else {
        l.subrange(1, l.len() as int)
    }
}

/// Reads a `list_networks` answer: (network name, identifier) per row, in
/// order.
pub fn parse_network_list(out: &str) -> (r: Vec<(String, NetworkId)>)
    ensures
        r@.len() == network_rows(after_heading(out@)).len(),
        forall|i: int|
            0 <= i < r@.len() ==> (#[trigger] r@[i]).0@ == network_rows(after_heading(out@))[i].0
                && r@[i].1.0@ == network_rows(after_heading(out@))[i].1,
{
    let ls = split_lines(out);
    let ghost body = after_heading(out@);
    let mut rows: Vec<(String, NetworkId)> = Vec::new();
    if ls.len() == 0 {
        return rows;
    }
    let mut i: usize = 1;
    assert(body.take(0) =~= Seq::<Seq<char>>::empty());
    while i < ls.len()
        invariant
            views(ls@) == lines(out@),
            ls@.len() >= 1,
            body == after_heading(out@),
            1 <= i <= ls@.len(),
            rows@.len() == network_rows(body.take(i - 1)).len(),
            forall|j: int|
                0 <= j < rows@.len() ==> (#[trigger] rows@[j]).0@ == network_rows(body.take(i - 1))[j].0
                    && rows@[j].1.0@ == network_rows(body.take(i - 1))[j].1,
        decreases ls@.len() - i,
    {
        let ghost t = body.take(i as int);
        assert(t.drop_last() =~= body.take(i - 1));
        assert(t.last() == ls@[i as int]@);
        let f = split_fields(ls[i].as_str(), '\t');
        if f.len() >= 2 {
            rows.push((f[1].clone(), NetworkId(f[0].clone())));
        }
        i = i + 1;
    }
    assert(body.take(ls@.len() - 1) =~= body);
    rows
}

/// The reading of a `signal_poll` answer: no signal where the answer is
/// `FAIL`; otherwise the number after the first `=` of the first line. An
/// answer of another shape reads as nothing.
pub open spec fn signal_of(out: Seq<char>) -> Option<Option<i64>> {
    if out == "FAIL"@ {
        Some(None)
    } else if lines(out).len() == 0 {
        None
    } else {
        let f = fields(lines(out)[0], '=');
        if f.len() < 2 {
            None
        } else {
            match i64_text(f[1]) {
                Some(x) => Some(Some(x)),
                None => None,
            }
        }
    }
}

/// Reads a `signal_poll` answer.
pub fn parse_signal_poll(out: &str) -> (r: Result<Option<i64>, Error>)
    ensures
        r is Ok <==> signal_of(out@) is Some,
        r matches Ok(v) ==> signal_of(out@) == Some(v),
        r matches Err(e) ==> e == Error::InvalidOutput,
{
    if str_eq(out, "FAIL") {
        return Ok(None);
    }
    let ls = split_lines(out);
    if ls.len() == 0 {
        return Err(Error::InvalidOutput);
    }
    let f = split_fields(ls[0].as_str(), '=');
    if f.len() < 2 {
        return Err(Error::InvalidOutput);
    }
    match parse_i64(f[1].as_str()) {
        Some(x) => Ok(Some(x)),
        None => Err(Error::InvalidOutput),
    }
}

} // verus!
