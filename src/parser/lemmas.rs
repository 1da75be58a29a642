//! Laws of the line grammar, stated over the spec functions that the
//! recognizers are proved to compute.
use vstd::prelude::*;

use super::combinators::{
    actor_of, by_sep, colon, kill_spec, killed_sep, kind_at, log_kind_spec, timestamp_spec,
};
use super::log_kind::LogKind;
use crate::death_cause::DeathCause;
use crate::scan::{find_from, occurs_at, ByteClass};

verus! {

/// The bytes of each tag, spelled out.
pub open spec fn tag_byte_table(k: LogKind) -> Seq<u8> {
    match k {
        LogKind::ClientBegin => seq![67u8, 108, 105, 101, 110, 116, 66, 101, 103, 105, 110, 58],
        LogKind::ClientConnect => seq![67u8, 108, 105, 101, 110, 116, 67, 111, 110, 110, 101, 99, 116, 58],
        LogKind::ClientDisconnect => seq![67u8, 108, 105, 101, 110, 116, 68, 105, 115, 99, 111, 110, 110, 101, 99, 116, 58],
        LogKind::ClientUserinfoChanged => seq![67u8, 108, 105, 101, 110, 116, 85, 115, 101, 114, 105, 110, 102, 111, 67, 104, 97, 110, 103, 101, 100, 58],
        LogKind::Exit => seq![69u8, 120, 105, 116, 58],
        LogKind::InitGame => seq![73u8, 110, 105, 116, 71, 97, 109, 101, 58],
        LogKind::Item => seq![73u8, 116, 101, 109, 58],
        LogKind::Kill => seq![75u8, 105, 108, 108, 58],
        LogKind::Say => seq![115u8, 97, 121, 58],
        LogKind::Score => seq![115u8, 99, 111, 114, 101, 58],
        LogKind::ShutdownGame => seq![83u8, 104, 117, 116, 100, 111, 119, 110, 71, 97, 109, 101, 58],
        LogKind::Dashline => seq![45u8],
        LogKind::CtfScore => seq![114u8, 101, 100, 58],
    }
}

/// The bytes of each tag.
pub proof fn lemma_tag_bytes(k: LogKind)
    ensures
        k.tag_bytes() == tag_byte_table(k),
{
    match k {
        LogKind::ClientBegin => {
            reveal_strlit("ClientBegin:");
            vstd::utf8::is_ascii_chars_encode_utf8("ClientBegin:"@);
            assert(k.tag_bytes() =~= seq![67u8, 108, 105, 101, 110, 116, 66, 101, 103, 105, 110, 58]);
        },
        LogKind::ClientConnect => {
            reveal_strlit("ClientConnect:");
            vstd::utf8::is_ascii_chars_encode_utf8("ClientConnect:"@);
            assert(k.tag_bytes() =~= seq![67u8, 108, 105, 101, 110, 116, 67, 111, 110, 110, 101, 99, 116, 58]);
        },
        LogKind::ClientDisconnect => {
            reveal_strlit("ClientDisconnect:");
            vstd::utf8::is_ascii_chars_encode_utf8("ClientDisconnect:"@);
            assert(k.tag_bytes() =~= seq![67u8, 108, 105, 101, 110, 116, 68, 105, 115, 99, 111, 110, 110, 101, 99, 116, 58]);
        },
        LogKind::ClientUserinfoChanged => {
            reveal_strlit("ClientUserinfoChanged:");
            vstd::utf8::is_ascii_chars_encode_utf8("ClientUserinfoChanged:"@);
            assert(k.tag_bytes() =~= seq![67u8, 108, 105, 101, 110, 116, 85, 115, 101, 114, 105, 110, 102, 111, 67, 104, 97, 110, 103, 101, 100, 58]);
        },
        LogKind::Exit => {
            reveal_strlit("Exit:");
            vstd::utf8::is_ascii_chars_encode_utf8("Exit:"@);
            assert(k.tag_bytes() =~= seq![69u8, 120, 105, 116, 58]);
        },
        LogKind::InitGame => {
            reveal_strlit("InitGame:");
            vstd::utf8::is_ascii_chars_encode_utf8("InitGame:"@);
            assert(k.tag_bytes() =~= seq![73u8, 110, 105, 116, 71, 97, 109, 101, 58]);
        },
        LogKind::Item => {
            reveal_strlit("Item:");
            vstd::utf8::is_ascii_chars_encode_utf8("Item:"@);
            assert(k.tag_bytes() =~= seq![73u8, 116, 101, 109, 58]);
        },
        LogKind::Kill => {
            reveal_strlit("Kill:");
            vstd::utf8::is_ascii_chars_encode_utf8("Kill:"@);
            assert(k.tag_bytes() =~= seq![75u8, 105, 108, 108, 58]);
        },
        LogKind::Say => {
            reveal_strlit("say:");
            vstd::utf8::is_ascii_chars_encode_utf8("say:"@);
            assert(k.tag_bytes() =~= seq![115u8, 97, 121, 58]);
        },
        LogKind::Score => {
            reveal_strlit("score:");
            vstd::utf8::is_ascii_chars_encode_utf8("score:"@);
            assert(k.tag_bytes() =~= seq![115u8, 99, 111, 114, 101, 58]);
        },
        LogKind::ShutdownGame => {
            reveal_strlit("ShutdownGame:");
            vstd::utf8::is_ascii_chars_encode_utf8("ShutdownGame:"@);
            assert(k.tag_bytes() =~= seq![83u8, 104, 117, 116, 100, 111, 119, 110, 71, 97, 109, 101, 58]);
        },
        LogKind::Dashline => {
            reveal_strlit("-");
            vstd::utf8::is_ascii_chars_encode_utf8("-"@);
            assert(k.tag_bytes() =~= seq![45u8]);
        },
        LogKind::CtfScore => {
            reveal_strlit("red:");
            vstd::utf8::is_ascii_chars_encode_utf8("red:"@);
            assert(k.tag_bytes() =~= seq![114u8, 101, 100, 58]);
        },
    }
}

/// The bytes of the separators of a kill line.
pub proof fn lemma_separator_bytes()
    ensures
        colon() == seq![58u8],
        killed_sep() == seq![32u8, 107, 105, 108, 108, 101, 100, 32],
        by_sep() == seq![32u8, 98, 121, 32],
{
    reveal_strlit(":");
    reveal_strlit(" killed ");
    reveal_strlit(" by ");
    vstd::utf8::is_ascii_chars_encode_utf8(":"@);
    vstd::utf8::is_ascii_chars_encode_utf8(" killed "@);
    vstd::utf8::is_ascii_chars_encode_utf8(" by "@);
    assert(colon() =~= seq![58u8]);
    assert(killed_sep() =~= seq![32u8, 107, 105, 108, 108, 101, 100, 32]);
    assert(by_sep() =~= seq![32u8, 98, 121, 32]);
}

/// No cause keyword holds a line feed.
pub proof fn lemma_keyword_has_no_line_feed(c: DeathCause)
    ensures
        forall|i: int| 0 <= i < c.keyword_bytes().len() ==> c.keyword_bytes()[i] != 10,
{
    match c {
        DeathCause::Unknown => {
            reveal_strlit("MOD_UNKNOWN");
            vstd::utf8::is_ascii_chars_encode_utf8("MOD_UNKNOWN"@);
            assert(c.keyword_bytes() =~= seq![77u8, 79, 68, 95, 85, 78, 75, 78, 79, 87, 78]);
        },
        DeathCause::Shotgun => {
            reveal_strlit("MOD_SHOTGUN");
            vstd::utf8::is_ascii_chars_encode_utf8("MOD_SHOTGUN"@);
            assert(c.keyword_bytes() =~= seq![77u8, 79, 68, 95, 83, 72, 79, 84, 71, 85, 78]);
        },
        DeathCause::Gauntlet => {
            reveal_strlit("MOD_GAUNTLET");
            vstd::utf8::is_ascii_chars_encode_utf8("MOD_GAUNTLET"@);
            assert(c.keyword_bytes() =~= seq![77u8, 79, 68, 95, 71, 65, 85, 78, 84, 76, 69, 84]);
        },
        DeathCause::Machinegun => {
            reveal_strlit("MOD_MACHINEGUN");
            vstd::utf8::is_ascii_chars_encode_utf8("MOD_MACHINEGUN"@);
            assert(c.keyword_bytes() =~= seq![77u8, 79, 68, 95, 77, 65, 67, 72, 73, 78, 69, 71, 85, 78]);
        },
        DeathCause::Grenade => {
            reveal_strlit("MOD_GRENADE");
            vstd::utf8::is_ascii_chars_encode_utf8("MOD_GRENADE"@);
            assert(c.keyword_bytes() =~= seq![77u8, 79, 68, 95, 71, 82, 69, 78, 65, 68, 69]);
        },
        DeathCause::GrenadeSplash => {
            reveal_strlit("MOD_GRENADE_SPLASH");
            vstd::utf8::is_ascii_chars_encode_utf8("MOD_GRENADE_SPLASH"@);
            assert(c.keyword_bytes() =~= seq![77u8, 79, 68, 95, 71, 82, 69, 78, 65, 68, 69, 95, 83, 80, 76, 65, 83, 72]);
        },
        DeathCause::Rocket => {
            reveal_strlit("MOD_ROCKET");
            vstd::utf8::is_ascii_chars_encode_utf8("MOD_ROCKET"@);
            assert(c.keyword_bytes() =~= seq![77u8, 79, 68, 95, 82, 79, 67, 75, 69, 84]);
        },
        DeathCause::RocketSplash => {
            reveal_strlit("MOD_ROCKET_SPLASH");
            vstd::utf8::is_ascii_chars_encode_utf8("MOD_ROCKET_SPLASH"@);
            assert(c.keyword_bytes() =~= seq![77u8, 79, 68, 95, 82, 79, 67, 75, 69, 84, 95, 83, 80, 76, 65, 83, 72]);
        },
        DeathCause::Plasma => {
            reveal_strlit("MOD_PLASMA");
            vstd::utf8::is_ascii_chars_encode_utf8("MOD_PLASMA"@);
            assert(c.keyword_bytes() =~= seq![77u8, 79, 68, 95, 80, 76, 65, 83, 77, 65]);
        },
        DeathCause::PlasmaSplash => {
            reveal_strlit("MOD_PLASMA_SPLASH");
            vstd::utf8::is_ascii_chars_encode_utf8("MOD_PLASMA_SPLASH"@);
            assert(c.keyword_bytes() =~= seq![77u8, 79, 68, 95, 80, 76, 65, 83, 77, 65, 95, 83, 80, 76, 65, 83, 72]);
        },
        DeathCause::Railgun => {
            reveal_strlit("MOD_RAILGUN");
            vstd::utf8::is_ascii_chars_encode_utf8("MOD_RAILGUN"@);
            assert(c.keyword_bytes() =~= seq![77u8, 79, 68, 95, 82, 65, 73, 76, 71, 85, 78]);
        },
        DeathCause::Lightning => {
            reveal_strlit("MOD_LIGHTNING");
            vstd::utf8::is_ascii_chars_encode_utf8("MOD_LIGHTNING"@);
            assert(c.keyword_bytes() =~= seq![77u8, 79, 68, 95, 76, 73, 71, 72, 84, 78, 73, 78, 71]);
        },
        DeathCause::Bfg => {
            reveal_strlit("MOD_BFG");
            vstd::utf8::is_ascii_chars_encode_utf8("MOD_BFG"@);
            assert(c.keyword_bytes() =~= seq![77u8, 79, 68, 95, 66, 70, 71]);
        },
        DeathCause::BfgSplash => {
            reveal_strlit("MOD_BFG_SPLASH");
            vstd::utf8::is_ascii_chars_encode_utf8("MOD_BFG_SPLASH"@);
            assert(c.keyword_bytes() =~= seq![77u8, 79, 68, 95, 66, 70, 71, 95, 83, 80, 76, 65, 83, 72]);
        },
        DeathCause::Water => {
            reveal_strlit("MOD_WATER");
            vstd::utf8::is_ascii_chars_encode_utf8("MOD_WATER"@);
            assert(c.keyword_bytes() =~= seq![77u8, 79, 68, 95, 87, 65, 84, 69, 82]);
        },
        DeathCause::Slime => {
            reveal_strlit("MOD_SLIME");
            vstd::utf8::is_ascii_chars_encode_utf8("MOD_SLIME"@);
            assert(c.keyword_bytes() =~= seq![77u8, 79, 68, 95, 83, 76, 73, 77, 69]);
        },
        DeathCause::Lava => {
            reveal_strlit("MOD_LAVA");
            vstd::utf8::is_ascii_chars_encode_utf8("MOD_LAVA"@);
            assert(c.keyword_bytes() =~= seq![77u8, 79, 68, 95, 76, 65, 86, 65]);
        },
        DeathCause::Crush => {
            reveal_strlit("MOD_CRUSH");
            vstd::utf8::is_ascii_chars_encode_utf8("MOD_CRUSH"@);
            assert(c.keyword_bytes() =~= seq![77u8, 79, 68, 95, 67, 82, 85, 83, 72]);
        },
        DeathCause::Telefrag => {
            reveal_strlit("MOD_TELEFRAG");
            vstd::utf8::is_ascii_chars_encode_utf8("MOD_TELEFRAG"@);
            assert(c.keyword_bytes() =~= seq![77u8, 79, 68, 95, 84, 69, 76, 69, 70, 82, 65, 71]);
        },
        DeathCause::Falling => {
            reveal_strlit("MOD_FALLING");
            vstd::utf8::is_ascii_chars_encode_utf8("MOD_FALLING"@);
            assert(c.keyword_bytes() =~= seq![77u8, 79, 68, 95, 70, 65, 76, 76, 73, 78, 71]);
        },
        DeathCause::Suicide => {
            reveal_strlit("MOD_SUICIDE");
            vstd::utf8::is_ascii_chars_encode_utf8("MOD_SUICIDE"@);
            assert(c.keyword_bytes() =~= seq![77u8, 79, 68, 95, 83, 85, 73, 67, 73, 68, 69]);
        },
        DeathCause::TargetLaser => {
            reveal_strlit("MOD_TARGET_LASER");
            vstd::utf8::is_ascii_chars_encode_utf8("MOD_TARGET_LASER"@);
            assert(c.keyword_bytes() =~= seq![77u8, 79, 68, 95, 84, 65, 82, 71, 69, 84, 95, 76, 65, 83, 69, 82]);
        },
        DeathCause::TriggerHurt => {
            reveal_strlit("MOD_TRIGGER_HURT");
            vstd::utf8::is_ascii_chars_encode_utf8("MOD_TRIGGER_HURT"@);
            assert(c.keyword_bytes() =~= seq![77u8, 79, 68, 95, 84, 82, 73, 71, 71, 69, 82, 95, 72, 85, 82, 84]);
        },
        DeathCause::Nail => {
            reveal_strlit("MOD_NAIL");
            vstd::utf8::is_ascii_chars_encode_utf8("MOD_NAIL"@);
            assert(c.keyword_bytes() =~= seq![77u8, 79, 68, 95, 78, 65, 73, 76]);
        },
        DeathCause::Chaingun => {
            reveal_strlit("MOD_CHAINGUN");
            vstd::utf8::is_ascii_chars_encode_utf8("MOD_CHAINGUN"@);
            assert(c.keyword_bytes() =~= seq![77u8, 79, 68, 95, 67, 72, 65, 73, 78, 71, 85, 78]);
        },
        DeathCause::ProximityMine => {
            reveal_strlit("MOD_PROXIMITY_MINE");
            vstd::utf8::is_ascii_chars_encode_utf8("MOD_PROXIMITY_MINE"@);
            assert(c.keyword_bytes() =~= seq![77u8, 79, 68, 95, 80, 82, 79, 88, 73, 77, 73, 84, 89, 95, 77, 73, 78, 69]);
        },
        DeathCause::Kamikaze => {
            reveal_strlit("MOD_KAMIKAZE");
            vstd::utf8::is_ascii_chars_encode_utf8("MOD_KAMIKAZE"@);
            assert(c.keyword_bytes() =~= seq![77u8, 79, 68, 95, 75, 65, 77, 73, 75, 65, 90, 69]);
        },
        DeathCause::Juiced => {
            reveal_strlit("MOD_JUICED");
            vstd::utf8::is_ascii_chars_encode_utf8("MOD_JUICED"@);
            assert(c.keyword_bytes() =~= seq![77u8, 79, 68, 95, 74, 85, 73, 67, 69, 68]);
        },
        DeathCause::Grapple => {
            reveal_strlit("MOD_GRAPPLE");
            vstd::utf8::is_ascii_chars_encode_utf8("MOD_GRAPPLE"@);
            assert(c.keyword_bytes() =~= seq![77u8, 79, 68, 95, 71, 82, 65, 80, 80, 76, 69]);
        },
    }
}

/// Whether every byte of `s` is of `class`.
pub open spec fn all_of(s: Seq<u8>, class: ByteClass) -> bool {
    forall|i: int| 0 <= i < s.len() ==> class.holds(#[trigger] s[i])
}

/// A timestamp `<whitespace>M:SS` is consumed exactly: the two digit runs
/// come back unchanged, the whitespace is dropped and what follows is left
/// as it was.
pub proof fn lemma_timestamp_of_valid_text(ws: Seq<u8>, m: Seq<u8>, sec: Seq<u8>, rest: Seq<u8>)
    requires
        all_of(ws, ByteClass::Space),
        m.len() > 0,
        all_of(m, ByteClass::Digit),
        sec.len() > 0,
        all_of(sec, ByteClass::Digit),
        rest.len() == 0 || !ByteClass::Digit.holds(rest[0]),
    ensures
        timestamp_spec(ws + m + seq![58u8] + sec + rest) == Ok::<(Seq<u8>, (Seq<u8>, Seq<u8>)), crate::errors::Error>(
            (rest, (m, sec)),
        ),
{
    let s = ws + m + seq![58u8] + sec + rest;
    let a = ws.len() as int;
    let b = a + m.len();
    let c = b + 1 + sec.len();
    assert forall|k: int| 0 <= k < a implies ByteClass::Space.holds(#[trigger] s[k]) by {
        assert(s[k] == ws[k]);
    }
    assert(s[a] == m[0]);
    crate::scan::lemma_run_end_exact(s, 0, a, ByteClass::Space);
    assert forall|k: int| a <= k < b implies ByteClass::Digit.holds(#[trigger] s[k]) by {
        assert(s[k] == m[k - a]);
    }
    assert(s[b] == 58);
    crate::scan::lemma_run_end_exact(s, a, b, ByteClass::Digit);
    assert forall|k: int| b + 1 <= k < c implies ByteClass::Digit.holds(#[trigger] s[k]) by {
        assert(s[k] == sec[k - b - 1]);
    }
    if c < s.len() {
        assert(s[c] == rest[0]);
    }
    crate::scan::lemma_run_end_exact(s, b + 1, c, ByteClass::Digit);
    assert(s.subrange(c, s.len() as int) =~= rest);
    assert(s.subrange(a, b) =~= m);
    assert(s.subrange(b + 1, c) =~= sec);
}

/// A run of one or more dashes is a dashline, whatever its length; the
/// rest starts right after the run.
pub proof fn lemma_dashline(ws: Seq<u8>, n: nat, rest: Seq<u8>)
    requires
        all_of(ws, ByteClass::Space),
        n >= 1,
        rest.len() == 0 || rest[0] != 45,
    ensures
        log_kind_spec(ws + Seq::new(n, |i: int| 45u8) + rest) == Ok::<(Seq<u8>, LogKind), crate::errors::Error>(
            (rest, LogKind::Dashline),
        ),
{
    let dashes = Seq::new(n, |i: int| 45u8);
    let s = ws + dashes + rest;
    let a = ws.len() as int;
    let e = a + n;
    assert forall|k: int| 0 <= k < a implies ByteClass::Space.holds(#[trigger] s[k]) by {
        assert(s[k] == ws[k]);
    }
    assert(s[a] == 45);
    crate::scan::lemma_run_end_exact(s, 0, a, ByteClass::Space);
    assert forall|k: int| a <= k < e implies ByteClass::Dash.holds(#[trigger] s[k]) by {
        assert(s[k] == dashes[k - a]);
    }
    if e < s.len() {
        assert(s[e] == rest[0]);
    }
    crate::scan::lemma_run_end_exact(s, a, e, ByteClass::Dash);
    lemma_kind_at_dash(s, a);
    assert(s.subrange(e, s.len() as int) =~= rest);
}

/// The length of a tag and its bytes at 0, 1 and 6 (zero where the tag
/// is shorter): enough to tell the tags apart.
pub open spec fn tag_head(k: LogKind) -> (nat, u8, u8, u8) {
    match k {
        LogKind::ClientBegin => (12, 67, 108, 66),
        LogKind::ClientConnect => (14, 67, 108, 67),
        LogKind::ClientDisconnect => (17, 67, 108, 68),
        LogKind::ClientUserinfoChanged => (22, 67, 108, 85),
        LogKind::InitGame => (9, 73, 110, 109),
        LogKind::Item => (5, 73, 116, 0),
        LogKind::Kill => (5, 75, 105, 0),
        LogKind::Say => (4, 115, 97, 0),
        LogKind::Score => (6, 115, 99, 0),
        LogKind::ShutdownGame => (13, 83, 104, 119),
        LogKind::Dashline => (1, 45, 0, 0),
        LogKind::CtfScore => (4, 114, 101, 0),
        LogKind::Exit => (5, 69, 120, 0),
    }
}

proof fn lemma_tag_head(k: LogKind)
    ensures
        ({
            let t = k.tag_bytes();
            let (n, b0, b1, b6) = tag_head(k);
            &&& t.len() == n
            &&& t[0] == b0
            &&& (n > 1 ==> t[1] == b1)
            &&& (n > 6 ==> t[6] == b6)
        }),
{
    lemma_tag_bytes(k);
}

/// Where `t` stands at `a`, the bytes at 0, 1 and 6 of it stand there too.
proof fn lemma_occurs_head(s: Seq<u8>, t: Seq<u8>, a: int)
    ensures
        occurs_at(s, t, a) ==> {
            &&& (t.len() > 0 ==> s[a] == t[0])
            &&& (t.len() > 1 ==> s[a + 1] == t[1])
            &&& (t.len() > 6 ==> s[a + 6] == t[6])
        },
{
    if occurs_at(s, t, a) {
        let w = s.subrange(a, a + t.len());
        if t.len() > 0 {
            assert(w[0] == t[0]);
        }
        if t.len() > 1 {
            assert(w[1] == t[1]);
        }
        if t.len() > 6 {
            assert(w[6] == t[6]);
        }
    }
}

/// The tags decide among themselves by the bytes at 0, 1 and 6.
proof fn lemma_heads_at(s: Seq<u8>, a: int)
    ensures
        forall|k: LogKind| occurs_at(s, #[trigger] k.tag_bytes(), a) ==> {
            let (n, b0, b1, b6) = tag_head(k);
            &&& s[a] == b0
            &&& (n > 1 ==> s[a + 1] == b1)
            &&& (n > 6 ==> s[a + 6] == b6)
        },
{
    assert forall|k: LogKind| occurs_at(s, #[trigger] k.tag_bytes(), a) implies {
        let (n, b0, b1, b6) = tag_head(k);
        &&& s[a] == b0
        &&& (n > 1 ==> s[a + 1] == b1)
        &&& (n > 6 ==> s[a + 6] == b6)
    } by {
        lemma_tag_head(k);
        lemma_occurs_head(s, k.tag_bytes(), a);
    }
}

/// A dash where a keyword is due makes a dashline.
proof fn lemma_kind_at_dash(s: Seq<u8>, a: int)
    requires
        0 <= a < s.len(),
        s[a] == 45,
    ensures
        kind_at(s, a) == Some(LogKind::Dashline),
{
    lemma_heads_at(s, a);
    lemma_tag_bytes(LogKind::Dashline);
    assert(s.subrange(a, a + 1) =~= seq![45u8]);
}

/// Each keyword after whitespace is recognized as its own kind, and the
/// rest starts right after the keyword.
pub proof fn lemma_log_kind_keyword(ws: Seq<u8>, k: LogKind, rest: Seq<u8>)
    requires
        all_of(ws, ByteClass::Space),
        k != LogKind::Dashline,
    ensures
        log_kind_spec(ws + k.tag_bytes() + rest) == Ok::<(Seq<u8>, LogKind), crate::errors::Error>((rest, k)),
{
    let t = k.tag_bytes();
    let s = ws + t + rest;
    let a = ws.len() as int;
    lemma_tag_head(k);
    assert forall|i: int| 0 <= i < a implies ByteClass::Space.holds(#[trigger] s[i]) by {
        assert(s[i] == ws[i]);
    }
    assert(s[a] == t[0]);
    crate::scan::lemma_run_end_exact(s, 0, a, ByteClass::Space);
    assert(s[a + 1] == t[1]);
    if t.len() > 6 {
        assert(s[a + 6] == t[6]);
    }
    assert(s.subrange(a, a + t.len()) =~= t);
    lemma_kind_at_tag(s, a, k);
    assert(s.subrange(a + t.len(), s.len() as int) =~= rest);
}

proof fn lemma_kind_at_tag(s: Seq<u8>, a: int, k: LogKind)
    requires
        k != LogKind::Dashline,
        occurs_at(s, k.tag_bytes(), a),
        s[a] == k.tag_bytes()[0],
        s[a + 1] == k.tag_bytes()[1],
        k.tag_bytes().len() > 6 ==> s[a + 6] == k.tag_bytes()[6],
    ensures
        kind_at(s, a) == Some(k),
{
    lemma_heads_at(s, a);
    lemma_tag_head(k);
}

/// Whether the first `sep` in `name + sep` is the one appended: `name`
/// holds no `sep` and does not end in a way that lets one start early.
pub open spec fn sep_first_after(name: Seq<u8>, sep: Seq<u8>) -> bool {
    find_from(name + sep, sep, 0) == Some(name.len() as int)
}

/// For a separator that starts and ends with a space and holds no other
/// space, the first one in `name + sep` is the appended one exactly when
/// `name` holds none and does not end in all of `sep` but its last byte.
pub proof fn lemma_sep_first_after(name: Seq<u8>, sep: Seq<u8>)
    requires
        sep.len() >= 2,
        sep[0] == 32,
        sep[sep.len() - 1] == 32,
        forall|m: int| 0 < m < sep.len() - 1 ==> sep[m] != 32,
        find_from(name, sep, 0) is None,
        !(name.len() >= sep.len() - 1 && name.subrange(name.len() - (sep.len() - 1), name.len() as int)
            == sep.subrange(0, sep.len() - 1)),
    ensures
        sep_first_after(name, sep),
{
    let w = name + sep;
    let n = name.len() as int;
    let l = sep.len() as int;
    crate::scan::lemma_find_from_bounds(name, sep, 0);
    assert forall|j: int| 0 <= j < n implies !occurs_at(w, sep, j) by {
        if j + l <= n {
            assert(w.subrange(0, n) =~= name);
            crate::scan::lemma_occurs_in_window(w, name, 0, sep, j);
        } else if occurs_at(w, sep, j) {
            let d = n - j;
            assert(w.subrange(j, j + l)[d] == sep[d]);
            assert(w[n] == sep[0]);
            assert(d == l - 1);
            assert(name.subrange(n - (l - 1), n) =~= sep.subrange(0, l - 1)) by {
                assert forall|i: int| 0 <= i < l - 1 implies name.subrange(n - (l - 1), n)[i] == sep[i] by {
                    assert(w.subrange(j, j + l)[i] == sep[i]);
                    assert(w[j + i] == name[j + i]);
                }
            }
        }
    }
    assert(w.subrange(n, n + l) =~= sep);
    crate::scan::lemma_find_first(w, sep, 0, n);
}

/// ` killed ` and ` by ` are separators of that shape.
pub proof fn lemma_separators_shape()
    ensures
        killed_sep().len() >= 2,
        killed_sep()[0] == 32,
        killed_sep()[killed_sep().len() - 1] == 32,
        forall|m: int| 0 < m < killed_sep().len() - 1 ==> killed_sep()[m] != 32,
        by_sep().len() >= 2,
        by_sep()[0] == 32,
        by_sep()[by_sep().len() - 1] == 32,
        forall|m: int| 0 < m < by_sep().len() - 1 ==> by_sep()[m] != 32,
{
    lemma_separator_bytes();
}

/// A window of `s` that ends in `sep`, whose first `sep` is that last one,
/// places the first `sep` of `s` from the window's start.
proof fn lemma_find_in_window(s: Seq<u8>, name: Seq<u8>, sep: Seq<u8>, off: int)
    requires
        0 <= off,
        off + name.len() + sep.len() <= s.len(),
        s.subrange(off, off + name.len() + sep.len()) == name + sep,
        sep_first_after(name, sep),
    ensures
        find_from(s, sep, off) == Some(off + name.len()),
{
    let w = name + sep;
    crate::scan::lemma_find_from_bounds(w, sep, 0);
    assert forall|j: int| off <= j < off + name.len() implies !occurs_at(s, sep, j) by {
        crate::scan::lemma_occurs_in_window(s, w, off, sep, j);
    }
    crate::scan::lemma_occurs_in_window(s, w, off, sep, off + name.len());
    crate::scan::lemma_find_first(s, sep, off, off + name.len());
}

/// A kill line built from its parts parses back to those parts: the
/// assassin (the world exactly when it reads `<world>`), the victim and the
/// cause, with what follows the line left as it was.
#[verifier::spinoff_prover]
#[verifier::rlimit(40)]
pub proof fn lemma_kill_round_trip(
    junk: Seq<u8>,
    assassin: Seq<u8>,
    victim: Seq<u8>,
    cause: DeathCause,
    tail: Seq<u8>,
)
    requires
        forall|i: int| 0 <= i < junk.len() ==> junk[i] != 58,
        assassin.len() > 0,
        !ByteClass::Space.holds(assassin[0]),
        sep_first_after(assassin, killed_sep()),
        sep_first_after(victim, by_sep()),
        tail.len() == 0 || tail[0] == 10,
    ensures
        kill_spec(
            junk + colon() + seq![32u8] + assassin + killed_sep() + victim + by_sep() + cause.keyword_bytes() + tail,
        ) == Ok::<(Seq<u8>, (Option<Seq<u8>>, Seq<u8>, DeathCause)), crate::errors::Error>(
            (tail, (actor_of(assassin), victim, cause)),
        ),
{
    lemma_separator_bytes();
    let kw = cause.keyword_bytes();
    let pre = junk + colon() + seq![32u8];
    let w1 = assassin + killed_sep();
    let w2 = victim + by_sep();
    let s = pre + w1 + w2 + kw + tail;
    assert(s =~= junk + colon() + seq![32u8] + assassin + killed_sep() + victim + by_sep() + kw + tail);
    let j0 = junk.len() as int;
    let a = j0 + 2;
    let v = a + w1.len();
    let cs = v + w2.len();
    let ce = cs + kw.len();
    // the colon
    assert forall|j: int| 0 <= j < j0 implies !occurs_at(s, colon(), j) by {
        if occurs_at(s, colon(), j) {
            assert(s.subrange(j, j + 1)[0] == colon()[0]);
            assert(s[j] == junk[j]);
        }
    }
    assert(s.subrange(j0, j0 + 1) =~= colon());
    crate::scan::lemma_find_first(s, colon(), 0, j0);
    // the whitespace after it
    assert(s[j0 + 1] == 32);
    assert(s[a] == assassin[0]);
    crate::scan::lemma_run_end_exact(s, j0 + 1, a, ByteClass::Space);
    // the two separators
    assert(s.subrange(a, a + w1.len()) =~= w1);
    lemma_find_in_window(s, assassin, killed_sep(), a);
    assert(s.subrange(v, v + w2.len()) =~= w2);
    lemma_find_in_window(s, victim, by_sep(), v);
    // the cause, up to the end of the line
    lemma_keyword_has_no_line_feed(cause);
    assert forall|i: int| cs <= i < ce implies ByteClass::NotNewline.holds(#[trigger] s[i]) by {
        assert(s[i] == kw[i - cs]);
    }
    if ce < s.len() {
        assert(s[ce] == tail[0]);
    }
    crate::scan::lemma_run_end_exact(s, cs, ce, ByteClass::NotNewline);
    assert(s.subrange(cs, ce) =~= kw);
    crate::death_cause::lemma_cause_round_trip(cause);
    assert(s.subrange(a, a + assassin.len()) =~= assassin);
    assert(s.subrange(v, v + victim.len()) =~= victim);
    assert(s.subrange(ce, s.len() as int) =~= tail);
}

} // verus!
