use quake_log::death_cause::{DeathCause, DeathCauseDb};
use quake_log::errors::Error;
use quake_log::parser::Parser;
use quake_log::report::Report;

fn parse_ok(input: &[u8]) -> Vec<Report> {
    match Parser::parse(input) {
        Ok(reports) => reports,
        Err((e, _)) => panic!("unexpected error {:?}", e),
    }
}

fn parse_err(input: &[u8]) -> (Error, Vec<Report>) {
    match Parser::parse(input) {
        Ok(_) => panic!("expected an error"),
        Err(pair) => pair,
    }
}

fn players(report: &Report) -> Vec<(Vec<u8>, isize)> {
    let mut out = Vec::new();
    for i in 0..report.kills.len() {
        let name = report.kills.name(i);
        out.push((name.to_vec(), report.kills.get(name)));
    }
    out.sort();
    out
}

const MATCH_ONE: &str = " 0:00 InitGame: \\sv_floodProtect\\1
 1:00 Kill: 1 2 3: A killed B by MOD_ROCKET
 1:05 Kill: 0 0 0: <world> killed B by MOD_FALLING
 1:10 ShutdownGame:
";

#[test]
fn one_match_scenario() {
    let reports = parse_ok(MATCH_ONE.as_bytes());
    assert_eq!(reports.len(), 1);
    let r = &reports[0];
    assert_eq!(r.game_number, 0);
    assert_eq!(r.total_kills, 2);
    assert_eq!(players(r), vec![(b"A".to_vec(), 1), (b"B".to_vec(), -1)]);
    assert_eq!(r.means.counted(), vec![(1, DeathCause::Rocket), (1, DeathCause::Falling)]);
    assert_eq!(r.means.count(DeathCause::Rocket), 1);
    assert_eq!(r.means.count(DeathCause::Shotgun), 0);
}

#[test]
fn two_matches_are_numbered_and_reset() {
    let input = format!(
        "{} 2:00 InitGame: x\n 2:01 Kill: 1 2 3: C killed D by MOD_SHOTGUN\n 2:02 ------\n 2:03 ShutdownGame:\n",
        MATCH_ONE
    );
    let reports = parse_ok(input.as_bytes());
    assert_eq!(reports.len(), 2);
    assert_eq!(reports[0].game_number, 0);
    assert_eq!(reports[1].game_number, 1);
    assert_eq!(reports[1].total_kills, 1);
    assert_eq!(players(&reports[1]), vec![(b"C".to_vec(), 1)]);
    assert_eq!(reports[1].means.counted(), vec![(1, DeathCause::Shotgun)]);
}

#[test]
fn unclosed_match_gives_no_report() {
    let input = " 0:00 InitGame: x\n 0:01 Kill: 1 2 3: A killed B by MOD_ROCKET\n";
    assert_eq!(parse_ok(input.as_bytes()).len(), 0);
    let input = format!("{} 3:00 InitGame: y\n 3:01 Kill: 1 2 3: A killed B by MOD_ROCKET", MATCH_ONE);
    assert_eq!(parse_ok(input.as_bytes()).len(), 1);
}

#[test]
fn unknown_cause_keeps_closed_matches() {
    let input = format!("{} 4:00 InitGame: y\n 4:01 Kill: 1 2 3: A killed B by MOD_SPOON\n 4:02 ShutdownGame:\n", MATCH_ONE);
    let (e, reports) = parse_err(input.as_bytes());
    assert_eq!(e, Error::UnrecognizedCause);
    assert_eq!(reports.len(), 1);
    assert_eq!(reports[0].total_kills, 2);
}

#[test]
fn each_line_error_aborts() {
    let (e, reports) = parse_err(b"garbage\n");
    assert_eq!((e, reports.len()), (Error::MalformedTimestamp, 0));
    let (e, _) = parse_err(b" 0:00 Teleport: x\n");
    assert_eq!(e, Error::UnrecognizedEventKind);
    let (e, _) = parse_err(b" 0:00 Kill: A killed B by MOD_ROCKET\n");
    assert_eq!(e, Error::MalformedKillPayload);
    let (e, _) = parse_err(b" 0:00 ShutdownGame:\n\n 0:01 ShutdownGame:\n");
    assert_eq!(e, Error::MalformedTimestamp);
}

#[test]
fn kill_counter_overflow_is_an_error() {
    let line = " 0:01 Kill: 1 2 3: A killed B by MOD_ROCKET\n";
    let input = line.repeat(65536);
    let (e, reports) = parse_err(input.as_bytes());
    assert_eq!(e, Error::CounterOverflow);
    assert_eq!(reports.len(), 0);
    let fits = line.repeat(65535) + " 9:99 ShutdownGame:\n";
    let reports = parse_ok(fits.as_bytes());
    assert_eq!(reports[0].total_kills, 65535);
    assert_eq!(reports[0].kills.get(b"A"), 65535);
}

#[test]
fn parsing_twice_gives_the_same_reports() {
    let input = format!("{}{}", MATCH_ONE, MATCH_ONE);
    let a = parse_ok(input.as_bytes());
    let b = parse_ok(input.as_bytes());
    assert_eq!(a.len(), b.len());
    for (x, y) in a.iter().zip(b.iter()) {
        assert_eq!(x.game_number, y.game_number);
        assert_eq!(x.total_kills, y.total_kills);
        assert_eq!(players(x), players(y));
        assert_eq!(x.means.counted(), y.means.counted());
    }
}

#[test]
fn parse_line_steps_the_state() {
    let mut p = Parser::new();
    assert!(matches!(p.parse_line(b" 0:00 InitGame: x"), Ok(None)));
    assert!(matches!(p.parse_line(b" 0:01 Kill: 1 2 3: <world> killed Zed by MOD_LAVA"), Ok(None)));
    assert_eq!(p.parse_line(b" 0:02 Kill: 1 2 3: Zed died").err(), Some(Error::MalformedKillPayload));
    match p.parse_line(b" 0:03 ShutdownGame:") {
        Ok(Some(r)) => {
            assert_eq!((r.game_number, r.total_kills), (0, 1));
            assert_eq!(r.kills.get(b"Zed"), -1);
            assert_eq!(r.means.counted(), vec![(1, DeathCause::Lava)]);
        }
        _ => panic!("expected a report"),
    }
    let r = p.snapshot_report();
    assert_eq!((r.game_number, r.total_kills, r.kills.len()), (1, 0, 0));
}

#[test]
fn cause_table_counts() {
    let mut db = DeathCauseDb::new();
    assert!(db.counted().is_empty());
    db.inc_death(DeathCause::Grapple);
    db.inc_death(DeathCause::Unknown);
    db.inc_death(DeathCause::Grapple);
    assert_eq!(db.counted(), vec![(1, DeathCause::Unknown), (2, DeathCause::Grapple)]);
}

#[test]
fn empty_log_and_missing_final_line_feed() {
    assert_eq!(parse_ok(b"").len(), 0);
    let reports = parse_ok(b" 0:00 ShutdownGame:");
    assert_eq!(reports.len(), 1);
    assert_eq!((reports[0].game_number, reports[0].total_kills), (0, 0));
    assert!(reports[0].means.counted().is_empty());
}
