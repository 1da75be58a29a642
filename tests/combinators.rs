use quake_log::death_cause::DeathCause;
use quake_log::errors::Error;
use quake_log::parser::combinators::{consume_rest_of_line, kill, log_kind, timestamp, Assassin, KillInfo};
use quake_log::parser::log_kind::LogKind;

#[test]
fn test_parse_timestamp() {
    let parsed = timestamp(b"  20:34 ClientConnect: 2");

    assert_eq!(
        parsed,
        Ok((
            " ClientConnect: 2".as_bytes(),
            ("20".as_bytes(), "34".as_bytes())
        ))
    );
}

#[test]
fn test_parse_log_kind() {
    let parsed = log_kind(b" Exit: Timelimit hit.");
    assert_eq!(parsed, Ok((" Timelimit hit.".as_bytes(), LogKind::Exit)));
}

#[test]
fn test_parse_dashline() {
    let parsed = log_kind(b" ------------------------------------------------------------");
    assert_eq!(parsed, Ok(("".as_bytes(), LogKind::Dashline)));
}

#[test]
fn test_parse_full_dashline() {
    let input = b" 0:00 ------------------------------------------------------------\n";
    let parsed = timestamp(input).and_then(|(rest, stamp)| {
        log_kind(rest).map(|(rest, kind)| (rest, (stamp, kind)))
    });
    assert_eq!(
        parsed,
        Ok((
            "\n".as_bytes(),
            (("0".as_bytes(), "00".as_bytes()), LogKind::Dashline)
        ))
    );
}

#[test]
fn test_parse_kill() {
    let parsed = kill(b" 3 4 6: player1 killed Player 2 by MOD_ROCKET\nnextline");
    let exp_kill = KillInfo {
        assassin: Assassin::Person(b"player1"),
        victim: b"Player 2",
        mean: DeathCause::Rocket,
    };

    assert_eq!(parsed, Ok(("\nnextline".as_bytes(), exp_kill)));
}

#[test]
fn timestamp_keeps_trailing_text() {
    assert_eq!(
        timestamp(b"\t 7:05Kill: x"),
        Ok(("Kill: x".as_bytes(), ("7".as_bytes(), "05".as_bytes())))
    );
}

#[test]
fn timestamp_rejects_missing_parts() {
    assert_eq!(timestamp(b" :05 Kill:"), Err(Error::MalformedTimestamp));
    assert_eq!(timestamp(b" 12 Kill:"), Err(Error::MalformedTimestamp));
    assert_eq!(timestamp(b" 12: Kill:"), Err(Error::MalformedTimestamp));
    assert_eq!(timestamp(b""), Err(Error::MalformedTimestamp));
}

#[test]
fn log_kind_reads_every_keyword() {
    let cases: [(&[u8], LogKind); 12] = [
        (b"ClientBegin:", LogKind::ClientBegin),
        (b"ClientConnect:", LogKind::ClientConnect),
        (b"ClientDisconnect:", LogKind::ClientDisconnect),
        (b"ClientUserinfoChanged:", LogKind::ClientUserinfoChanged),
        (b"InitGame:", LogKind::InitGame),
        (b"Item:", LogKind::Item),
        (b"Kill:", LogKind::Kill),
        (b"say:", LogKind::Say),
        (b"score:", LogKind::Score),
        (b"ShutdownGame:", LogKind::ShutdownGame),
        (b"red:", LogKind::CtfScore),
        (b"Exit:", LogKind::Exit),
    ];
    for (keyword, kind) in cases {
        let mut line = b"  ".to_vec();
        line.extend_from_slice(keyword);
        line.extend_from_slice(b" rest");
        assert_eq!(log_kind(&line), Ok((" rest".as_bytes(), kind)));
    }
}

#[test]
fn log_kind_dashline_of_any_length() {
    assert_eq!(log_kind(b" -"), Ok(("".as_bytes(), LogKind::Dashline)));
    assert_eq!(log_kind(b"---x"), Ok(("x".as_bytes(), LogKind::Dashline)));
}

#[test]
fn log_kind_rejects_unknown_keyword() {
    assert_eq!(log_kind(b" Teleport: 3"), Err(Error::UnrecognizedEventKind));
    assert_eq!(log_kind(b" Kill"), Err(Error::UnrecognizedEventKind));
}

#[test]
fn kill_by_world() {
    let parsed = kill(b" 1022 2 22: <world> killed Isgalamido by MOD_TRIGGER_HURT");
    let expected = KillInfo {
        assassin: Assassin::World,
        victim: b"Isgalamido",
        mean: DeathCause::TriggerHurt,
    };
    assert_eq!(parsed, Ok(("".as_bytes(), expected)));
}

#[test]
fn kill_names_with_spaces() {
    let parsed = kill(b" 2 3 7: Dono da Bola killed Assasinu Credi by MOD_ROCKET_SPLASH");
    let expected = KillInfo {
        assassin: Assassin::Person(b"Dono da Bola"),
        victim: b"Assasinu Credi",
        mean: DeathCause::RocketSplash,
    };
    assert_eq!(parsed, Ok(("".as_bytes(), expected)));
}

#[test]
fn kill_rejects_missing_anchors() {
    assert_eq!(kill(b" 1 2 3 A killed B by MOD_ROCKET"), Err(Error::MalformedKillPayload));
    assert_eq!(kill(b" 1 2 3:A killed B by MOD_ROCKET"), Err(Error::MalformedKillPayload));
    assert_eq!(kill(b" 1 2 3: A shot B by MOD_ROCKET"), Err(Error::MalformedKillPayload));
    assert_eq!(kill(b" 1 2 3: A killed B with MOD_ROCKET"), Err(Error::MalformedKillPayload));
}

#[test]
fn kill_rejects_unknown_cause() {
    assert_eq!(kill(b" 1 2 3: A killed B by MOD_SPOON"), Err(Error::UnrecognizedCause));
    assert_eq!(kill(b" 1 2 3: A killed B by mod_rocket"), Err(Error::UnrecognizedCause));
}

#[test]
fn consume_line_splits_at_line_feed() {
    assert_eq!(
        consume_rest_of_line(b"aaabbb\nnewline"),
        Some(("newline".as_bytes(), "aaabbb".as_bytes()))
    );
    assert_eq!(consume_rest_of_line(b"\n"), Some(("".as_bytes(), "".as_bytes())));
    assert_eq!(consume_rest_of_line(b"no line feed"), None);
}

#[test]
fn cause_keywords_round_trip() {
    let mut i: usize = 0;
    while let Some(cause) = DeathCause::from_index(i) {
        assert_eq!(cause.as_index(), i);
        assert_eq!(DeathCause::from_keyword(cause.as_str().as_bytes()), Some(cause));
        i += 1;
    }
    assert_eq!(i, quake_log::death_cause::CAUSE_COUNT);
    assert_eq!(DeathCause::Unknown.as_str(), "MOD_UNKNOWN");
    assert_eq!(DeathCause::Grapple.as_str(), "MOD_GRAPPLE");
    assert_eq!(DeathCause::Rocket.as_index(), 6);
    assert_eq!(DeathCause::from_keyword(b"MOD_ROCKETS"), None);
}

#[test]
fn kill_splits_at_first_separator() {
    let parsed = kill(b" 1: x killed killed v by MOD_ROCKET");
    let expected = KillInfo {
        assassin: Assassin::Person(b"x"),
        victim: b"killed v",
        mean: DeathCause::Rocket,
    };
    assert_eq!(parsed, Ok(("".as_bytes(), expected)));
}
