//! Recognizers for the parts of a log line. Each takes the input and hands
//! back the unconsumed rest beside what it recognized.
use vstd::prelude::*;
use vstd::utf8::encode_utf8;

use super::log_kind::LogKind;
use crate::death_cause::DeathCause;
use crate::errors::Error;
use crate::scan::{find, find_from, matches_at, occurs_at, run_end, skip_run, ByteClass};

verus! {

pub open spec fn colon() -> Seq<u8> {
    encode_utf8(":"@)
}

pub open spec fn killed_sep() -> Seq<u8> {
    encode_utf8(" killed "@)
}

pub open spec fn by_sep() -> Seq<u8> {
    encode_utf8(" by "@)
}

/// The name that stands for the world as an assassin.
pub open spec fn world_name() -> Seq<u8> {
    encode_utf8("<world>"@)
}

/// What `timestamp` recognizes: leading whitespace, then minutes and seconds
/// as digit runs around a colon. On success, the rest and the two runs.
pub open spec fn timestamp_spec(s: Seq<u8>) -> Result<(Seq<u8>, (Seq<u8>, Seq<u8>)), Error> {
    let a = run_end(s, 0, ByteClass::Space);
    let b = run_end(s, a, ByteClass::Digit);
    let c = run_end(s, b + 1, ByteClass::Digit);
    if b > a && b < s.len() && s[b] == 58 && c > b + 1 {
        Ok((s.subrange(c, s.len() as int), (s.subrange(a, b), s.subrange(b + 1, c))))
    } else {
        Err(Error::MalformedTimestamp)
    }
}

/// The kind whose tag stands at `a`, trying the tags in a fixed order.
pub open spec fn kind_at(s: Seq<u8>, a: int) -> Option<LogKind> {
    if occurs_at(s, LogKind::ClientBegin.tag_bytes(), a) {
        Some(LogKind::ClientBegin)
    } else if occurs_at(s, LogKind::ClientConnect.tag_bytes(), a) {
        Some(LogKind::ClientConnect)
    } else if occurs_at(s, LogKind::ClientDisconnect.tag_bytes(), a) {
        Some(LogKind::ClientDisconnect)
    } else if occurs_at(s, LogKind::ClientUserinfoChanged.tag_bytes(), a) {
        Some(LogKind::ClientUserinfoChanged)
    } else if occurs_at(s, LogKind::InitGame.tag_bytes(), a) {
        Some(LogKind::InitGame)
    } else if occurs_at(s, LogKind::Item.tag_bytes(), a) {
        Some(LogKind::Item)
    } else if occurs_at(s, LogKind::Kill.tag_bytes(), a) {
        Some(LogKind::Kill)
    } else if occurs_at(s, LogKind::Say.tag_bytes(), a) {
        Some(LogKind::Say)
    } else if occurs_at(s, LogKind::Score.tag_bytes(), a) {
        Some(LogKind::Score)
    } else if occurs_at(s, LogKind::ShutdownGame.tag_bytes(), a) {
        Some(LogKind::ShutdownGame)
    } else if occurs_at(s, LogKind::Dashline.tag_bytes(), a) {
        Some(LogKind::Dashline)
    } else if occurs_at(s, LogKind::CtfScore.tag_bytes(), a) {
        Some(LogKind::CtfScore)
    } else if occurs_at(s, LogKind::Exit.tag_bytes(), a) {
        Some(LogKind::Exit)
    } else {
        None
    }
}

/// Where a keyword of kind `k` found at `a` ends: after the tag, or after
/// the whole run of dashes.
pub open spec fn kind_end(s: Seq<u8>, a: int, k: LogKind) -> int {
    if k == LogKind::Dashline {
        run_end(s, a, ByteClass::Dash)
    } else {
        a + k.tag_bytes().len()
    }
}

/// What `log_kind` recognizes: leading whitespace, then an event keyword.
pub open spec fn log_kind_spec(s: Seq<u8>) -> Result<(Seq<u8>, LogKind), Error> {
    let a = run_end(s, 0, ByteClass::Space);
    match kind_at(s, a) {
        Some(k) => Ok((s.subrange(kind_end(s, a, k), s.len() as int), k)),
        None => Err(Error::UnrecognizedEventKind),
    }
}

/// The actor that an assassin's text names: `None` for the world.
pub open spec fn actor_of(name: Seq<u8>) -> Option<Seq<u8>> {
    if name == world_name() {
        None
    } else {
        Some(name)
    }
}

/// What `kill` recognizes: `<anything>:<whitespace><assassin> killed
/// <victim> by <cause>`, the cause running to the end of the line. On
/// success, the rest (from the line feed on) and the assassin (as
/// `actor_of`), the victim and the cause.
pub open spec fn kill_spec(s: Seq<u8>) -> Result<(Seq<u8>, (Option<Seq<u8>>, Seq<u8>, DeathCause)), Error> {
    match find_from(s, colon(), 0) {
        None => Err(Error::MalformedKillPayload),
        Some(c) => {
            let a = run_end(s, c + colon().len(), ByteClass::Space);
            if a == c + colon().len() {
                Err(Error::MalformedKillPayload)
            } else {
                match find_from(s, killed_sep(), a) {
                    None => Err(Error::MalformedKillPayload),
                    Some(k) => {
                        let v = k + killed_sep().len();
                        match find_from(s, by_sep(), v) {
                            None => Err(Error::MalformedKillPayload),
                            Some(b) => {
                                let cs = b + by_sep().len();
                                let ce = run_end(s, cs, ByteClass::NotNewline);
                                match DeathCause::from_keyword_spec(s.subrange(cs, ce)) {
                                    None => Err(Error::UnrecognizedCause),
                                    Some(cause) => Ok(
                                        (
                                            s.subrange(ce, s.len() as int),
                                            (actor_of(s.subrange(a, k)), s.subrange(v, b), cause),
                                        ),
                                    ),
                                }
                            },
                        }
                    },
                }
            }
        },
    }
}

/// What `consume_rest_of_line` recognizes: the bytes before the first line
/// feed, and the rest after it.
pub open spec fn line_spec(s: Seq<u8>) -> Option<(Seq<u8>, Seq<u8>)> {
    let e = run_end(s, 0, ByteClass::NotNewline);
    if e < s.len() {
        Some((s.subrange(e + 1, s.len() as int), s.subrange(0, e)))
    } else {
        None
    }
}

/// The one who scored a kill.
#[derive(Debug, PartialEq, Eq)]
pub enum Assassin<'file> {
    World,
    Person(&'file [u8]),
}

impl<'file> View for Assassin<'file> {
    type V = Option<Seq<u8>>;

    open spec fn view(&self) -> Option<Seq<u8>> {
        match self {
            Assassin::World => None,
            Assassin::Person(p) => Some(p@),
        }
    }
}

/// The payload of a kill line.
#[derive(Debug, PartialEq, Eq)]
pub struct KillInfo<'file> {
    pub assassin: Assassin<'file>,
    pub victim: &'file [u8],
    pub mean: DeathCause,
}

fn colon_bytes() -> (r: &'static [u8])
    ensures
        r@ == colon(),
{
    ":".as_bytes()
}

fn killed_sep_bytes() -> (r: &'static [u8])
    ensures
        r@ == killed_sep(),
{
    " killed ".as_bytes()
}

fn by_sep_bytes() -> (r: &'static [u8])
    ensures
        r@ == by_sep(),
{
    " by ".as_bytes()
}

fn world_name_bytes() -> (r: &'static [u8])
    ensures
        r@ == world_name(),
{
    "<world>".as_bytes()
}

/// Parses the timestamp that opens a log line, `MM:ss`:
///
/// ```text
///  15:00  <rest>
/// ```
pub fn timestamp<'file>(input: &'file [u8]) -> (r: Result<(&'file [u8], (&'file [u8], &'file [u8])), Error>)
    ensures
        match timestamp_spec(input@) {
            Ok((rest, (m, sec))) => r matches Ok((r_rest, (r_m, r_sec))) && r_rest@ == rest && r_m@ == m
                && r_sec@ == sec,
            Err(e) => r == Err::<(&'file [u8], (&'file [u8], &'file [u8])), Error>(e),
        },
{
    let a = skip_run(input, 0, ByteClass::Space);
    let b = skip_run(input, a, ByteClass::Digit);
    if b == a || b >= input.len() || input[b] != 58 {
        return Err(Error::MalformedTimestamp);
    }
    let c = skip_run(input, b + 1, ByteClass::Digit);
    if c == b + 1 {
        return Err(Error::MalformedTimestamp);
    }
    Ok((&input[c..input.len()], (&input[a..b], &input[b + 1..c])))
}

fn tag_at(input: &[u8], a: usize, k: LogKind) -> (r: bool)
    ensures
        r == occurs_at(input@, k.tag_bytes(), a as int),
{
    matches_at(input, a, k.tag_str().as_bytes())
}

/// Parses the kind of a log line, the keyword after the timestamp.
pub fn log_kind<'file>(input: &'file [u8]) -> (r: Result<(&'file [u8], LogKind), Error>)
    ensures
        match log_kind_spec(input@) {
            Ok((rest, k)) => r matches Ok((r_rest, r_k)) && r_rest@ == rest && r_k == k,
            Err(e) => r == Err::<(&'file [u8], LogKind), Error>(e),
        },
{
    let n = input.len();
    let a = skip_run(input, 0, ByteClass::Space);
    let k = if tag_at(input, a, LogKind::ClientBegin) {
        LogKind::ClientBegin
    } else if tag_at(input, a, LogKind::ClientConnect) {
        LogKind::ClientConnect
    } else if tag_at(input, a, LogKind::ClientDisconnect) {
        LogKind::ClientDisconnect
    } else if tag_at(input, a, LogKind::ClientUserinfoChanged) {
        LogKind::ClientUserinfoChanged
    } else if tag_at(input, a, LogKind::InitGame) {
        LogKind::InitGame
    } else if tag_at(input, a, LogKind::Item) {
        LogKind::Item
    } else if tag_at(input, a, LogKind::Kill) {
        LogKind::Kill
    } else if tag_at(input, a, LogKind::Say) {
        LogKind::Say
    } else if tag_at(input, a, LogKind::Score) {
        LogKind::Score
    } else if tag_at(input, a, LogKind::ShutdownGame) {
        LogKind::ShutdownGame
    } else if tag_at(input, a, LogKind::Dashline) {
        LogKind::Dashline
    } else if tag_at(input, a, LogKind::CtfScore) {
        LogKind::CtfScore
    } else if tag_at(input, a, LogKind::Exit) {
        LogKind::Exit
    } else {
        return Err(Error::UnrecognizedEventKind);
    };
    assert(kind_at(input@, a as int) == Some(k));
    assert(occurs_at(input@, k.tag_bytes(), a as int));
    let end = if k == LogKind::Dashline {
        skip_run(input, a, ByteClass::Dash)
    } else {
        a + k.tag_str().as_bytes().len()
    };
    Ok((&input[end..input.len()], k))
}

/// Parses the payload of a kill line, after its keyword:
///
/// ```text
///  3 4 6: player1 killed Player 2 by MOD_ROCKET
/// ```
pub fn kill<'file>(input: &'file [u8]) -> (r: Result<(&'file [u8], KillInfo<'file>), Error>)
    ensures
        match kill_spec(input@) {
            Ok((rest, (assassin, victim, cause))) => r matches Ok((r_rest, info)) && r_rest@ == rest
                && info.assassin@ == assassin && info.victim@ == victim && info.mean == cause,
            Err(e) => r matches Err(r_e) && r_e == e,
        },
{
    let n = input.len();
    let c = match find(input, 0, colon_bytes()) {
        Some(c) => c,
        None => return Err(Error::MalformedKillPayload),
    };
    proof {
        crate::scan::lemma_find_from_bounds(input@, colon(), 0);
    }
    let after = c + colon_bytes().len();
    let a = skip_run(input, after, ByteClass::Space);
    if a == after {
        return Err(Error::MalformedKillPayload);
    }
    let k = match find(input, a, killed_sep_bytes()) {
        Some(k) => k,
        None => return Err(Error::MalformedKillPayload),
    };
    proof {
        crate::scan::lemma_find_from_bounds(input@, killed_sep(), a as int);
    }
    let v = k + killed_sep_bytes().len();
    let b = match find(input, v, by_sep_bytes()) {
        Some(b) => b,
        None => return Err(Error::MalformedKillPayload),
    };
    proof {
        crate::scan::lemma_find_from_bounds(input@, by_sep(), v as int);
    }
    let cs = b + by_sep_bytes().len();
    let ce = skip_run(input, cs, ByteClass::NotNewline);
    let mean = match DeathCause::from_keyword(&input[cs..ce]) {
        Some(m) => m,
        None => return Err(Error::UnrecognizedCause),
    };
    let name = &input[a..k];
    let assassin = if crate::scan::bytes_eq(name, world_name_bytes()) {
        Assassin::World
    } else {
        Assassin::Person(name)
    };
    Ok((&input[ce..input.len()], KillInfo { assassin, victim: &input[v..b], mean }))
}

/// Splits off the first line: the bytes before the first line feed, and the
/// rest after it. `None` when no line feed is left.
pub fn consume_rest_of_line<'file>(input: &'file [u8]) -> (r: Option<(&'file [u8], &'file [u8])>)
    ensures
        match line_spec(input@) {
            Some((rest, line)) => r matches Some((r_rest, r_line)) && r_rest@ == rest && r_line@ == line,
            None => r is None,
        },
{
    let e = skip_run(input, 0, ByteClass::NotNewline);
    if e < input.len() {
        Some((&input[e + 1..input.len()], &input[0..e]))
    } else {
        None
    }
}

} // verus!
