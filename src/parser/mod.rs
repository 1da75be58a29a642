//! The session aggregator: folds the lines of a log into one report per
//! closed match.
use vstd::prelude::*;

pub mod combinators;
pub mod lemmas;
pub mod log_kind;

use self::combinators::{
    consume_rest_of_line, kill, kill_spec, line_spec, log_kind_spec, timestamp, timestamp_spec,
    Assassin,
};
use self::log_kind::LogKind;
use crate::death_cause::{DeathCause, DeathCauseDb, CAUSE_COUNT};
use crate::errors::Error;
use crate::frag_tally::FragTally;
use crate::report::{MatchView, Report};
use crate::scan::{run_end, ByteClass};

verus! {

/// The totals at the start of match number `game`.
pub open spec fn fresh(game: int) -> MatchView {
    MatchView {
        game_number: game,
        total_kills: 0,
        kills: Map::empty(),
        means: Seq::new(CAUSE_COUNT as nat, |i: int| 0u16),
    }
}

/// The net score of `p` in a tally, zero if absent.
pub open spec fn score(kills: Map<Seq<u8>, int>, p: Seq<u8>) -> int {
    if kills.contains_key(p) {
        kills[p]
    } else {
        0
    }
}

/// The totals after one kill: a player's kill raises the assassin's score,
/// a kill by the world lowers the victim's.
pub open spec fn apply_kill(
    st: MatchView,
    assassin: Option<Seq<u8>>,
    victim: Seq<u8>,
    cause: DeathCause,
) -> MatchView {
    let kills = match assassin {
        None => st.kills.insert(victim, score(st.kills, victim) - 1),
        Some(p) => st.kills.insert(p, score(st.kills, p) + 1),
    };
    let i = cause.index() as int;
    MatchView {
        game_number: st.game_number,
        total_kills: st.total_kills + 1,
        kills,
        means: st.means.update(i, (st.means[i] + 1) as u16),
    }
}

/// What one line does to the totals: the new totals, and the report of the
/// match that it closes, if it closes one.
#[verifier::opaque]
pub open spec fn step(st: MatchView, line: Seq<u8>) -> Result<(MatchView, Option<MatchView>), Error> {
    match timestamp_spec(line) {
        Err(e) => Err(e),
        Ok((r1, _)) => match log_kind_spec(r1) {
            Err(e) => Err(e),
            Ok((r2, k)) => if k == LogKind::Kill {
                match kill_spec(r2) {
                    Err(e) => Err(e),
                    Ok((_, (assassin, victim, cause))) => if st.total_kills >= u16::MAX {
                        Err(Error::CounterOverflow)
                    } else {
                        Ok((apply_kill(st, assassin, victim, cause), None))
                    },
                }
            } else if k == LogKind::ShutdownGame {
                if st.game_number >= u16::MAX {
                    Err(Error::CounterOverflow)
                } else {
                    Ok((fresh(st.game_number + 1), Some(st)))
                }
            } else {
                Ok((st, None))
            },
        },
    }
}

/// The reports of the lines of `s` from `pos` on, starting from `st`, and
/// the error that stopped them, if one did.
pub open spec fn run_from(st: MatchView, s: Seq<u8>, pos: int) -> (Seq<MatchView>, Option<Error>)
    decreases s.len() + 1 - pos,
{
    if pos < 0 || pos >= s.len() {
        (seq![], None)
    } else {
        let e = run_end(s, pos, ByteClass::NotNewline);
        proof {
            crate::scan::lemma_run_end_bounds(s, pos, ByteClass::NotNewline);
        }
        match step(st, s.subrange(pos, e)) {
            Err(err) => (seq![], Some(err)),
            Ok((next, out)) => {
                let (later, err) = run_from(next, s, e + 1);
                match out {
                    Some(snap) => (seq![snap] + later, err),
                    None => (later, err),
                }
            },
        }
    }
}

/// The reports of a whole log, and the error that stopped it, if one did.
pub open spec fn parse_spec(s: Seq<u8>) -> (Seq<MatchView>, Option<Error>) {
    run_from(fresh(0), s, 0)
}

/// Whether a line closes a match: a timestamp, then `ShutdownGame:`.
pub open spec fn closes(line: Seq<u8>) -> bool {
    &&& timestamp_spec(line) matches Ok((r1, _))
    &&& log_kind_spec(r1) matches Ok((_, k))
    &&& k == LogKind::ShutdownGame
}

/// Whether some line of `s` from `pos` on closes a match.
pub open spec fn closing_line_from(s: Seq<u8>, pos: int) -> bool
    decreases s.len() + 1 - pos,
{
    if pos < 0 || pos >= s.len() {
        false
    } else {
        let e = run_end(s, pos, ByteClass::NotNewline);
        proof {
            crate::scan::lemma_run_end_bounds(s, pos, ByteClass::NotNewline);
        }
        closes(s.subrange(pos, e)) || closing_line_from(s, e + 1)
    }
}

/// Only a closing line hands out a report.
pub proof fn lemma_report_only_on_close(st: MatchView, line: Seq<u8>)
    ensures
        step(st, line) matches Ok((_, Some(_))) ==> closes(line),
{
    reveal(step);
}

/// A closing line hands out the totals of the match so far and starts the
/// next match afresh, numbered one higher.
pub proof fn lemma_close_resets(st: MatchView, line: Seq<u8>)
    requires
        closes(line),
        st.game_number < u16::MAX,
    ensures
        step(st, line) == Ok::<(MatchView, Option<MatchView>), Error>((fresh(st.game_number + 1), Some(st))),
{
    reveal(step);
}

/// Across a closing line, the reports that follow are those of a fresh
/// match: nothing before the line reaches past it but the match number.
pub proof fn lemma_reports_after_close(st: MatchView, s: Seq<u8>, pos: int)
    requires
        0 <= pos < s.len(),
        closes(s.subrange(pos, run_end(s, pos, ByteClass::NotNewline))),
        st.game_number < u16::MAX,
    ensures
        ({
            let e = run_end(s, pos, ByteClass::NotNewline);
            let (later, err) = run_from(fresh(st.game_number + 1), s, e + 1);
            run_from(st, s, pos) == (seq![st] + later, err)
        }),
{
    lemma_close_resets(st, s.subrange(pos, run_end(s, pos, ByteClass::NotNewline)));
}

/// A log with no closing line from `pos` on yields no report from there,
/// whatever state it starts in.
pub proof fn lemma_no_close_no_report(st: MatchView, s: Seq<u8>, pos: int)
    requires
        !closing_line_from(s, pos),
    ensures
        run_from(st, s, pos).0 == Seq::<MatchView>::empty(),
    decreases s.len() + 1 - pos,
{
    if 0 <= pos < s.len() {
        let e = run_end(s, pos, ByteClass::NotNewline);
        crate::scan::lemma_run_end_bounds(s, pos, ByteClass::NotNewline);
        let line = s.subrange(pos, e);
        lemma_report_only_on_close(st, line);
        if let Ok((next, out)) = step(st, line) {
            lemma_no_close_no_report(next, s, e + 1);
        }
    }
}

/// Parsing is a function of the bytes alone: the same buffer always gives
/// the same reports and the same error.
pub proof fn lemma_parse_deterministic(a: Seq<u8>, b: Seq<u8>)
    requires
        a == b,
    ensures
        parse_spec(a) == parse_spec(b),
{
}

/// The running state of a parse.
pub struct Parser {
    game: u16,
    total_kills: u16,
    kills: FragTally,
    means: DeathCauseDb,
}

impl View for Parser {
    type V = MatchView;

    closed spec fn view(&self) -> MatchView {
        MatchView {
            game_number: self.game as int,
            total_kills: self.total_kills as int,
            kills: self.kills@,
            means: self.means@,
        }
    }
}

impl Default for Parser {
    fn default() -> (r: Parser)
        ensures
            r.wf(),
            r@ == fresh(0),
    {
        Parser::new()
    }
}

impl Parser {
    pub closed spec fn wf(&self) -> bool {
        self.kills.wf() && self@.consistent()
    }

    /// A parser at the start of the first match.
    pub fn new() -> (r: Parser)
        ensures
            r.wf(),
            r@ == fresh(0),
    {
        Parser { game: 0, total_kills: 0, kills: FragTally::new(), means: DeathCauseDb::new() }
    }

    /// Closes the current match: returns its totals and starts the next.
    pub fn snapshot_report(&mut self) -> (r: Report)
        requires
            old(self).wf(),
            old(self)@.game_number < u16::MAX,
        ensures
            final(self).wf(),
            r.wf(),
            r@ == old(self)@,
            final(self)@ == fresh(old(self)@.game_number + 1),
    {
        let mut kills = FragTally::new();
        std::mem::swap(&mut kills, &mut self.kills);
        let report = Report {
            game_number: self.game,
            total_kills: self.total_kills,
            kills,
            means: self.means,
        };
        self.game = self.game + 1;
        self.total_kills = 0;
        self.means = DeathCauseDb::new();
        report
    }

    /// Feeds one line, without its line feed. On an error the state is
    /// left as it was.
    pub fn parse_line(&mut self, line: &[u8]) -> (r: Result<Option<Report>, Error>)
        requires
            old(self).wf(),
        ensures
            final(self).wf(),
            match step(old(self)@, line@) {
                Err(e) => r == Err::<Option<Report>, Error>(e) && final(self)@ == old(self)@,
                Ok((next, out)) => final(self)@ == next && match out {
                    None => r matches Ok(None),
                    Some(snap) => r matches Ok(Some(rep)) && rep@ == snap && rep.wf(),
                },
            },
    {
        reveal(step);
        let (rest, _) = match timestamp(line) {
            Ok(p) => p,
            Err(e) => return Err(e),
        };
        let (rest, kind) = match combinators::log_kind(rest) {
            Ok(p) => p,
            Err(e) => return Err(e),
        };
        match kind {
            LogKind::Kill => {
                let (_, info) = match kill(rest) {
                    Ok(p) => p,
                    Err(e) => return Err(e),
                };
                if self.total_kills == u16::MAX {
                    return Err(Error::CounterOverflow);
                }
                proof {
                    self.means.lemma_view_len();
                    crate::death_cause::lemma_entry_le_sum(self.means@, info.mean.index() as int);
                }
                let ghost old_total = self.total_kills as int;
                let ghost old_kills = self.kills@;
                match info.assassin {
                    Assassin::World => {
                        self.kills.add(info.victim, -1);
                    },
                    Assassin::Person(person) => {
                        self.kills.add(person, 1);
                    },
                }
                self.total_kills = self.total_kills + 1;
                self.means.inc_death(info.mean);
                assert forall|p: Seq<u8>| #[trigger] self.kills@.contains_key(p) implies
                    -(self.total_kills as int) <= self.kills@[p] <= self.total_kills by {
                    if old_kills.contains_key(p) {
                        assert(-old_total <= old_kills[p] <= old_total);
                    }
                }
                Ok(None)
            },
            LogKind::ShutdownGame => {
                if self.game == u16::MAX {
                    return Err(Error::CounterOverflow);
                }
                Ok(Some(self.snapshot_report()))
            },
            _ => Ok(None),
        }
    }

    /// Parses a whole log. Returns the report of every closed match, in the
    /// order in which they closed; on a line that does not parse, the error
    /// beside the reports of the matches closed before it.
    pub fn parse(input: &[u8]) -> (r: Result<Vec<Report>, (Error, Vec<Report>)>)
        ensures
            ({
                let (snaps, err) = parse_spec(input@);
                match r {
                    Ok(reports) => err is None && reports@.map_values(|p: Report| p@) == snaps,
                    Err((e, reports)) => err == Some(e) && reports@.map_values(|p: Report| p@) == snaps,
                }
            }),
            forall|i: int| #![trigger r->Ok_0@[i]] r is Ok && 0 <= i < r->Ok_0@.len() ==> r->Ok_0@[i].wf(),
    {
        let mut parser = Parser::new();
        let mut reports: Vec<Report> = Vec::new();
        let mut rest: &[u8] = input;
        let ghost n = input@.len();
        loop
            invariant
                parser.wf(),
                rest@ == input@.subrange(input@.len() - rest@.len(), input@.len() as int),
                rest@.len() <= input@.len(),
                n == input@.len(),
                ({
                    let (all, err) = parse_spec(input@);
                    let (later, err2) = run_from(parser@, input@, n - rest@.len());
                    all == reports@.map_values(|p: Report| p@) + later && err == err2
                }),
                forall|i: int| 0 <= i < reports@.len() ==> (#[trigger] reports@[i]).wf(),
            decreases rest@.len(),
        {
            if rest.len() == 0 {
                return Ok(reports);
            }
            let ghost pos = n - rest@.len();
            let (line, next) = match consume_rest_of_line(rest) {
                Some((after, line)) => (line, after),
                None => (rest, &rest[0..0]),
            };
            proof {
                crate::scan::lemma_run_end_suffix(input@, pos, 0, ByteClass::NotNewline);
                crate::scan::lemma_run_end_bounds(input@, pos, ByteClass::NotNewline);
                let e = run_end(input@, pos, ByteClass::NotNewline);
                assert(line@ == input@.subrange(pos, e));
                if e < n {
                    assert(next@ =~= input@.subrange(e + 1, n as int));
                } else {
                    assert(next@ =~= input@.subrange(n as int, n as int));
                }
            }
            let ghost before = parser@;
            let ghost done = reports@.map_values(|p: Report| p@);
            match parser.parse_line(line) {
                Ok(Some(report)) => {
                    reports.push(report);
                    proof {
                        let e = run_end(input@, pos, ByteClass::NotNewline);
                        let later = run_from(parser@, input@, e + 1).0;
                        assert(run_from(parser@, input@, e + 1) == run_from(parser@, input@, n - next@.len()));
                        assert(reports@.map_values(|p: Report| p@) =~= done + seq![report@]);
                        assert(done + (seq![report@] + later) =~= (done + seq![report@]) + later);
                    }
                },
                Ok(None) => {
                    proof {
                        let e = run_end(input@, pos, ByteClass::NotNewline);
                        assert(run_from(parser@, input@, e + 1) == run_from(parser@, input@, n - next@.len()));
                    }
                },
                Err(e) => {
                    return Err((e, reports));
                },
            }
            rest = next;
        }
    }
}

} // verus!
