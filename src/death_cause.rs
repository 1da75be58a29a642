use vstd::prelude::*;
use vstd::utf8::encode_utf8;

verus! {

/// Number of causes in the registry.
pub const CAUSE_COUNT: usize = 29;

/// Means of death.
#[derive(Debug, Clone, Copy, PartialEq, Eq, Structural)]
pub enum DeathCause {
    Unknown,
    Shotgun,
    Gauntlet,
    Machinegun,
    Grenade,
    GrenadeSplash,
    Rocket,
    RocketSplash,
    Plasma,
    PlasmaSplash,
    Railgun,
    Lightning,
    Bfg,
    BfgSplash,
    Water,
    Slime,
    Lava,
    Crush,
    Telefrag,
    Falling,
    Suicide,
    TargetLaser,
    TriggerHurt,
    Nail,
    Chaingun,
    ProximityMine,
    Kamikaze,
    Juiced,
    Grapple,
}

impl DeathCause {
    /// The keyword that names the cause in a log line.
    pub open spec fn keyword(self) -> Seq<char> {
        match self {
            DeathCause::Unknown => "MOD_UNKNOWN"@,
            DeathCause::Shotgun => "MOD_SHOTGUN"@,
            DeathCause::Gauntlet => "MOD_GAUNTLET"@,
            DeathCause::Machinegun => "MOD_MACHINEGUN"@,
            DeathCause::Grenade => "MOD_GRENADE"@,
            DeathCause::GrenadeSplash => "MOD_GRENADE_SPLASH"@,
            DeathCause::Rocket => "MOD_ROCKET"@,
            DeathCause::RocketSplash => "MOD_ROCKET_SPLASH"@,
            DeathCause::Plasma => "MOD_PLASMA"@,
            DeathCause::PlasmaSplash => "MOD_PLASMA_SPLASH"@,
            DeathCause::Railgun => "MOD_RAILGUN"@,
            DeathCause::Lightning => "MOD_LIGHTNING"@,
            DeathCause::Bfg => "MOD_BFG"@,
            DeathCause::BfgSplash => "MOD_BFG_SPLASH"@,
            DeathCause::Water => "MOD_WATER"@,
            DeathCause::Slime => "MOD_SLIME"@,
            DeathCause::Lava => "MOD_LAVA"@,
            DeathCause::Crush => "MOD_CRUSH"@,
            DeathCause::Telefrag => "MOD_TELEFRAG"@,
            DeathCause::Falling => "MOD_FALLING"@,
            DeathCause::Suicide => "MOD_SUICIDE"@,
            DeathCause::TargetLaser => "MOD_TARGET_LASER"@,
            DeathCause::TriggerHurt => "MOD_TRIGGER_HURT"@,
            DeathCause::Nail => "MOD_NAIL"@,
            DeathCause::Chaingun => "MOD_CHAINGUN"@,
            DeathCause::ProximityMine => "MOD_PROXIMITY_MINE"@,
            DeathCause::Kamikaze => "MOD_KAMIKAZE"@,
            DeathCause::Juiced => "MOD_JUICED"@,
            DeathCause::Grapple => "MOD_GRAPPLE"@,
        }
    }

    /// The keyword as the bytes that stand in a log.
    pub open spec fn keyword_bytes(self) -> Seq<u8> {
        encode_utf8(self.keyword())
    }

    /// The dense ordinal of the cause, in declaration order.
    pub open spec fn index(self) -> nat {
        match self {
            DeathCause::Unknown => 0,
            DeathCause::Shotgun => 1,
            DeathCause::Gauntlet => 2,
            DeathCause::Machinegun => 3,
            DeathCause::Grenade => 4,
            DeathCause::GrenadeSplash => 5,
            DeathCause::Rocket => 6,
            DeathCause::RocketSplash => 7,
            DeathCause::Plasma => 8,
            DeathCause::PlasmaSplash => 9,
            DeathCause::Railgun => 10,
            DeathCause::Lightning => 11,
            DeathCause::Bfg => 12,
            DeathCause::BfgSplash => 13,
            DeathCause::Water => 14,
            DeathCause::Slime => 15,
            DeathCause::Lava => 16,
            DeathCause::Crush => 17,
            DeathCause::Telefrag => 18,
            DeathCause::Falling => 19,
            DeathCause::Suicide => 20,
            DeathCause::TargetLaser => 21,
            DeathCause::TriggerHurt => 22,
            DeathCause::Nail => 23,
            DeathCause::Chaingun => 24,
            DeathCause::ProximityMine => 25,
            DeathCause::Kamikaze => 26,
            DeathCause::Juiced => 27,
            DeathCause::Grapple => 28,
        }
    }

    /// The cause that a keyword names, if any.
    pub open spec fn from_keyword_spec(s: Seq<u8>) -> Option<DeathCause> {
        if exists|c: DeathCause| c.keyword_bytes() == s {
            Some(choose|c: DeathCause| c.keyword_bytes() == s)
        } else {
            None
        }
    }

    pub fn as_str(self) -> (r: &'static str)
        ensures
            r@ == self.keyword(),
    {
        match self {
            DeathCause::Unknown => "MOD_UNKNOWN",
            DeathCause::Shotgun => "MOD_SHOTGUN",
            DeathCause::Gauntlet => "MOD_GAUNTLET",
            DeathCause::Machinegun => "MOD_MACHINEGUN",
            DeathCause::Grenade => "MOD_GRENADE",
            DeathCause::GrenadeSplash => "MOD_GRENADE_SPLASH",
            DeathCause::Rocket => "MOD_ROCKET",
            DeathCause::RocketSplash => "MOD_ROCKET_SPLASH",
            DeathCause::Plasma => "MOD_PLASMA",
            DeathCause::PlasmaSplash => "MOD_PLASMA_SPLASH",
            DeathCause::Railgun => "MOD_RAILGUN",
            DeathCause::Lightning => "MOD_LIGHTNING",
            DeathCause::Bfg => "MOD_BFG",
            DeathCause::BfgSplash => "MOD_BFG_SPLASH",
            DeathCause::Water => "MOD_WATER",
            DeathCause::Slime => "MOD_SLIME",
            DeathCause::Lava => "MOD_LAVA",
            DeathCause::Crush => "MOD_CRUSH",
            DeathCause::Telefrag => "MOD_TELEFRAG",
            DeathCause::Falling => "MOD_FALLING",
            DeathCause::Suicide => "MOD_SUICIDE",
            DeathCause::TargetLaser => "MOD_TARGET_LASER",
            DeathCause::TriggerHurt => "MOD_TRIGGER_HURT",
            DeathCause::Nail => "MOD_NAIL",
            DeathCause::Chaingun => "MOD_CHAINGUN",
            DeathCause::ProximityMine => "MOD_PROXIMITY_MINE",
            DeathCause::Kamikaze => "MOD_KAMIKAZE",
            DeathCause::Juiced => "MOD_JUICED",
            DeathCause::Grapple => "MOD_GRAPPLE",
        }
    }

    pub fn as_index(self) -> (r: usize)
        ensures
            r == self.index(),
            r < CAUSE_COUNT,
    {
        match self {
            DeathCause::Unknown => 0,
            DeathCause::Shotgun => 1,
            DeathCause::Gauntlet => 2,
            DeathCause::Machinegun => 3,
            DeathCause::Grenade => 4,
            DeathCause::GrenadeSplash => 5,
            DeathCause::Rocket => 6,
            DeathCause::RocketSplash => 7,
            DeathCause::Plasma => 8,
            DeathCause::PlasmaSplash => 9,
            DeathCause::Railgun => 10,
            DeathCause::Lightning => 11,
            DeathCause::Bfg => 12,
            DeathCause::BfgSplash => 13,
            DeathCause::Water => 14,
            DeathCause::Slime => 15,
            DeathCause::Lava => 16,
            DeathCause::Crush => 17,
            DeathCause::Telefrag => 18,
            DeathCause::Falling => 19,
            DeathCause::Suicide => 20,
            DeathCause::TargetLaser => 21,
            DeathCause::TriggerHurt => 22,
            DeathCause::Nail => 23,
            DeathCause::Chaingun => 24,
            DeathCause::ProximityMine => 25,
            DeathCause::Kamikaze => 26,
            DeathCause::Juiced => 27,
            DeathCause::Grapple => 28,
        }
    }

    /// The cause with ordinal `i`; `None` past the last one.
    pub fn from_index(i: usize) -> (r: Option<DeathCause>)
        ensures
            r matches Some(c) ==> c.index() == i,
            r is Some <==> i < CAUSE_COUNT,
    {
        match i {
            0 => Some(DeathCause::Unknown),
            1 => Some(DeathCause::Shotgun),
            2 => Some(DeathCause::Gauntlet),
            3 => Some(DeathCause::Machinegun),
            4 => Some(DeathCause::Grenade),
            5 => Some(DeathCause::GrenadeSplash),
            6 => Some(DeathCause::Rocket),
            7 => Some(DeathCause::RocketSplash),
            8 => Some(DeathCause::Plasma),
            9 => Some(DeathCause::PlasmaSplash),
            10 => Some(DeathCause::Railgun),
            11 => Some(DeathCause::Lightning),
            12 => Some(DeathCause::Bfg),
            13 => Some(DeathCause::BfgSplash),
            14 => Some(DeathCause::Water),
            15 => Some(DeathCause::Slime),
            16 => Some(DeathCause::Lava),
            17 => Some(DeathCause::Crush),
            18 => Some(DeathCause::Telefrag),
            19 => Some(DeathCause::Falling),
            20 => Some(DeathCause::Suicide),
            21 => Some(DeathCause::TargetLaser),
            22 => Some(DeathCause::TriggerHurt),
            23 => Some(DeathCause::Nail),
            24 => Some(DeathCause::Chaingun),
            25 => Some(DeathCause::ProximityMine),
            26 => Some(DeathCause::Kamikaze),
            27 => Some(DeathCause::Juiced),
            28 => Some(DeathCause::Grapple),
            _ => None,
        }
    }
}

impl DeathCause {
    /// The cause whose keyword is `s`; `None` for any other bytes.
    pub fn from_keyword(s: &[u8]) -> (r: Option<DeathCause>)
        ensures
            r == Self::from_keyword_spec(s@),
            r matches Some(c) ==> c.keyword_bytes() == s@,
            r is None <==> forall|c: DeathCause| c.keyword_bytes() != s@,
    {
        let mut i: usize = 0;
        while i < CAUSE_COUNT
            invariant
                forall|d: DeathCause| d.index() < i ==> d.keyword_bytes() != s@,
            decreases CAUSE_COUNT - i,
        {
            if let Some(c) = DeathCause::from_index(i) {
                let name = c.as_str();
                let k = name.as_bytes();
                assert(k@ == c.keyword_bytes());
                if crate::scan::bytes_eq(k, s) {
                    proof {
                        let d = choose|d: DeathCause| d.keyword_bytes() == s@;
                        lemma_keyword_injective(c, d);
                    }
                    return Some(c);
                }
            }
            i = i + 1;
        }
        assert forall|d: DeathCause| d.keyword_bytes() != s@ by {
            lemma_index_bound(d);
        }
        None
    }
}

proof fn lemma_index_bound(c: DeathCause)
    ensures
        c.index() < CAUSE_COUNT,
{
}

/// Reading a cause's keyword back gives that cause.
pub proof fn lemma_cause_round_trip(c: DeathCause)
    ensures
        DeathCause::from_keyword_spec(c.keyword_bytes()) == Some(c),
{
    let d = choose|d: DeathCause| d.keyword_bytes() == c.keyword_bytes();
    lemma_keyword_injective(c, d);
}

/// Kill counts per cause, in a dense table indexed by ordinal.
#[derive(Debug, Clone, Copy)]
pub struct DeathCauseDb {
    counts: [u16; CAUSE_COUNT],
}

/// The sum of a table of counts.
pub open spec fn sum_counts(counts: Seq<u16>) -> int
    decreases counts.len(),
{
    if counts.len() == 0 {
        0
    } else {
        sum_counts(counts.drop_last()) + counts.last()
    }
}

/// The nonzero entries among the first `n` of a table, as (count, ordinal),
/// in ascending ordinal order.
pub open spec fn nonzero_counts(counts: Seq<u16>, n: int) -> Seq<(u16, nat)>
    decreases n,
{
    if n <= 0 {
        seq![]
    } else if counts[n - 1] != 0 {
        nonzero_counts(counts, n - 1).push((counts[n - 1], (n - 1) as nat))
    } else {
        nonzero_counts(counts, n - 1)
    }
}

/// Each entry of a table is at most its sum.
pub proof fn lemma_entry_le_sum(counts: Seq<u16>, i: int)
    requires
        0 <= i < counts.len(),
    ensures
        counts[i] <= sum_counts(counts),
    decreases counts.len(),
{
    if i < counts.len() - 1 {
        lemma_entry_le_sum(counts.drop_last(), i);
    }
    lemma_sum_nonneg(counts.drop_last());
}

pub proof fn lemma_sum_nonneg(counts: Seq<u16>)
    ensures
        sum_counts(counts) >= 0,
    decreases counts.len(),
{
    if counts.len() > 0 {
        lemma_sum_nonneg(counts.drop_last());
    }
}

/// Raising one entry by one raises the sum by one.
pub proof fn lemma_sum_increment(counts: Seq<u16>, i: int, v: u16)
    requires
        0 <= i < counts.len(),
        v == counts[i] + 1,
    ensures
        sum_counts(counts.update(i, v)) == sum_counts(counts) + 1,
    decreases counts.len(),
{
    let u = counts.update(i, v);
    if i < counts.len() - 1 {
        assert(u.drop_last() =~= counts.drop_last().update(i, v));
        lemma_sum_increment(counts.drop_last(), i, v);
    } else {
        assert(u.drop_last() =~= counts.drop_last());
    }
}

/// A table of zeros sums to zero.
pub proof fn lemma_sum_zeros(n: nat)
    ensures
        sum_counts(Seq::new(n, |i: int| 0u16)) == 0,
    decreases n,
{
    if n > 0 {
        assert(Seq::new(n, |i: int| 0u16).drop_last() =~= Seq::new((n - 1) as nat, |i: int| 0u16));
        lemma_sum_zeros((n - 1) as nat);
    }
}

impl View for DeathCauseDb {
    type V = Seq<u16>;

    closed spec fn view(&self) -> Seq<u16> {
        self.counts@
    }
}

impl DeathCauseDb {
    /// The kills counted for cause `c`.
    pub open spec fn count_of(&self, c: DeathCause) -> u16 {
        self@[c.index() as int]
    }

    pub proof fn lemma_view_len(&self)
        ensures
            self@.len() == CAUSE_COUNT,
    {
    }

    /// A table with every count at zero.
    pub fn new() -> (r: DeathCauseDb)
        ensures
            r@ == Seq::new(CAUSE_COUNT as nat, |i: int| 0u16),
            sum_counts(r@) == 0,
    {
        let r = DeathCauseDb { counts: [0u16; CAUSE_COUNT] };
        assert(r@ =~= Seq::new(CAUSE_COUNT as nat, |i: int| 0u16));
        proof {
            lemma_sum_zeros(CAUSE_COUNT as nat);
        }
        r
    }

    /// Counts one more kill by `death`.
    pub fn inc_death(&mut self, death: DeathCause)
        requires
            old(self).count_of(death) < u16::MAX,
        ensures
            final(self)@ == old(self)@.update(death.index() as int, (old(self).count_of(death) + 1) as u16),
            sum_counts(final(self)@) == sum_counts(old(self)@) + 1,
    {
        let i = death.as_index();
        let v = self.counts[i] + 1;
        proof {
            lemma_sum_increment(self@, i as int, v);
        }
        self.counts[i] = v;
    }

    /// The kills counted for cause `c`.
    pub fn count(&self, c: DeathCause) -> (r: u16)
        ensures
            r == self.count_of(c),
    {
        self.counts[c.as_index()]
    }

    /// The causes with a nonzero count, with their counts, in ascending
    /// ordinal order.
    pub fn counted(&self) -> (r: Vec<(u16, DeathCause)>)
        ensures
            r@.map_values(|p: (u16, DeathCause)| (p.0, p.1.index())) == nonzero_counts(self@, CAUSE_COUNT as int),
    {
        let mut r: Vec<(u16, DeathCause)> = Vec::new();
        let mut i: usize = 0;
        while i < CAUSE_COUNT
            invariant
                i <= CAUSE_COUNT,
                self@.len() == CAUSE_COUNT,
                r@.map_values(|p: (u16, DeathCause)| (p.0, p.1.index())) == nonzero_counts(self@, i as int),
            decreases CAUSE_COUNT - i,
        {
            let n = self.counts[i];
            if n != 0 {
                if let Some(c) = DeathCause::from_index(i) {
                    r.push((n, c));
                }
            }
            assert(r@.map_values(|p: (u16, DeathCause)| (p.0, p.1.index())) =~= nonzero_counts(self@, i + 1));
            i = i + 1;
        }
        r
    }
}

impl Default for DeathCauseDb {
    fn default() -> (r: DeathCauseDb)
        ensures
            r@ == Seq::new(CAUSE_COUNT as nat, |i: int| 0u16),
    {
        DeathCauseDb::new()
    }
}

/// Length and three letters of a keyword: enough to tell any two apart.
spec fn signature(k: Seq<char>) -> (nat, char, char, char) {
    (k.len(), k[4], k[5], k[6])
}

spec fn keyword_signature(c: DeathCause) -> (nat, char, char, char) {
    match c {
            DeathCause::Unknown => (11, 'U', 'N', 'K'),
            DeathCause::Shotgun => (11, 'S', 'H', 'O'),
            DeathCause::Gauntlet => (12, 'G', 'A', 'U'),
            DeathCause::Machinegun => (14, 'M', 'A', 'C'),
            DeathCause::Grenade => (11, 'G', 'R', 'E'),
            DeathCause::GrenadeSplash => (18, 'G', 'R', 'E'),
            DeathCause::Rocket => (10, 'R', 'O', 'C'),
            DeathCause::RocketSplash => (17, 'R', 'O', 'C'),
            DeathCause::Plasma => (10, 'P', 'L', 'A'),
            DeathCause::PlasmaSplash => (17, 'P', 'L', 'A'),
            DeathCause::Railgun => (11, 'R', 'A', 'I'),
            DeathCause::Lightning => (13, 'L', 'I', 'G'),
            DeathCause::Bfg => (7, 'B', 'F', 'G'),
            DeathCause::BfgSplash => (14, 'B', 'F', 'G'),
            DeathCause::Water => (9, 'W', 'A', 'T'),
            DeathCause::Slime => (9, 'S', 'L', 'I'),
            DeathCause::Lava => (8, 'L', 'A', 'V'),
            DeathCause::Crush => (9, 'C', 'R', 'U'),
            DeathCause::Telefrag => (12, 'T', 'E', 'L'),
            DeathCause::Falling => (11, 'F', 'A', 'L'),
            DeathCause::Suicide => (11, 'S', 'U', 'I'),
            DeathCause::TargetLaser => (16, 'T', 'A', 'R'),
            DeathCause::TriggerHurt => (16, 'T', 'R', 'I'),
            DeathCause::Nail => (8, 'N', 'A', 'I'),
            DeathCause::Chaingun => (12, 'C', 'H', 'A'),
            DeathCause::ProximityMine => (18, 'P', 'R', 'O'),
            DeathCause::Kamikaze => (12, 'K', 'A', 'M'),
            DeathCause::Juiced => (10, 'J', 'U', 'I'),
            DeathCause::Grapple => (11, 'G', 'R', 'A'),
    }
}

proof fn lemma_keyword_signature(a: DeathCause)
    ensures
        signature(a.keyword()) == keyword_signature(a),
{
    match a {
        DeathCause::Unknown => {
            reveal_strlit("MOD_UNKNOWN");
            let k = "MOD_UNKNOWN"@;
            assert(k.len() == 11 && k[4] == 'U' && k[5] == 'N' && k[6] == 'K');
        },
        DeathCause::Shotgun => {
            reveal_strlit("MOD_SHOTGUN");
            let k = "MOD_SHOTGUN"@;
            assert(k.len() == 11 && k[4] == 'S' && k[5] == 'H' && k[6] == 'O');
        },
        DeathCause::Gauntlet => {
            reveal_strlit("MOD_GAUNTLET");
            let k = "MOD_GAUNTLET"@;
            assert(k.len() == 12 && k[4] == 'G' && k[5] == 'A' && k[6] == 'U');
        },
        DeathCause::Machinegun => {
            reveal_strlit("MOD_MACHINEGUN");
            let k = "MOD_MACHINEGUN"@;
            assert(k.len() == 14 && k[4] == 'M' && k[5] == 'A' && k[6] == 'C');
        },
        DeathCause::Grenade => {
            reveal_strlit("MOD_GRENADE");
            let k = "MOD_GRENADE"@;
            assert(k.len() == 11 && k[4] == 'G' && k[5] == 'R' && k[6] == 'E');
        },
        DeathCause::GrenadeSplash => {
            reveal_strlit("MOD_GRENADE_SPLASH");
            let k = "MOD_GRENADE_SPLASH"@;
            assert(k.len() == 18 && k[4] == 'G' && k[5] == 'R' && k[6] == 'E');
        },
        DeathCause::Rocket => {
            reveal_strlit("MOD_ROCKET");
            let k = "MOD_ROCKET"@;
            assert(k.len() == 10 && k[4] == 'R' && k[5] == 'O' && k[6] == 'C');
        },
        DeathCause::RocketSplash => {
            reveal_strlit("MOD_ROCKET_SPLASH");
            let k = "MOD_ROCKET_SPLASH"@;
            assert(k.len() == 17 && k[4] == 'R' && k[5] == 'O' && k[6] == 'C');
        },
        DeathCause::Plasma => {
            reveal_strlit("MOD_PLASMA");
            let k = "MOD_PLASMA"@;
            assert(k.len() == 10 && k[4] == 'P' && k[5] == 'L' && k[6] == 'A');
        },
        DeathCause::PlasmaSplash => {
            reveal_strlit("MOD_PLASMA_SPLASH");
            let k = "MOD_PLASMA_SPLASH"@;
            assert(k.len() == 17 && k[4] == 'P' && k[5] == 'L' && k[6] == 'A');
        },
        DeathCause::Railgun => {
            reveal_strlit("MOD_RAILGUN");
            let k = "MOD_RAILGUN"@;
            assert(k.len() == 11 && k[4] == 'R' && k[5] == 'A' && k[6] == 'I');
        },
        DeathCause::Lightning => {
            reveal_strlit("MOD_LIGHTNING");
            let k = "MOD_LIGHTNING"@;
            assert(k.len() == 13 && k[4] == 'L' && k[5] == 'I' && k[6] == 'G');
        },
        DeathCause::Bfg => {
            reveal_strlit("MOD_BFG");
            let k = "MOD_BFG"@;
            assert(k.len() == 7 && k[4] == 'B' && k[5] == 'F' && k[6] == 'G');
        },
        DeathCause::BfgSplash => {
            reveal_strlit("MOD_BFG_SPLASH");
            let k = "MOD_BFG_SPLASH"@;
            assert(k.len() == 14 && k[4] == 'B' && k[5] == 'F' && k[6] == 'G');
        },
        DeathCause::Water => {
            reveal_strlit("MOD_WATER");
            let k = "MOD_WATER"@;
            assert(k.len() == 9 && k[4] == 'W' && k[5] == 'A' && k[6] == 'T');
        },
        DeathCause::Slime => {
            reveal_strlit("MOD_SLIME");
            let k = "MOD_SLIME"@;
            assert(k.len() == 9 && k[4] == 'S' && k[5] == 'L' && k[6] == 'I');
        },
        DeathCause::Lava => {
            reveal_strlit("MOD_LAVA");
            let k = "MOD_LAVA"@;
            assert(k.len() == 8 && k[4] == 'L' && k[5] == 'A' && k[6] == 'V');
        },
        DeathCause::Crush => {
            reveal_strlit("MOD_CRUSH");
            let k = "MOD_CRUSH"@;
            assert(k.len() == 9 && k[4] == 'C' && k[5] == 'R' && k[6] == 'U');
        },
        DeathCause::Telefrag => {
            reveal_strlit("MOD_TELEFRAG");
            let k = "MOD_TELEFRAG"@;
            assert(k.len() == 12 && k[4] == 'T' && k[5] == 'E' && k[6] == 'L');
        },
        DeathCause::Falling => {
            reveal_strlit("MOD_FALLING");
            let k = "MOD_FALLING"@;
            assert(k.len() == 11 && k[4] == 'F' && k[5] == 'A' && k[6] == 'L');
        },
        DeathCause::Suicide => {
            reveal_strlit("MOD_SUICIDE");
            let k = "MOD_SUICIDE"@;
            assert(k.len() == 11 && k[4] == 'S' && k[5] == 'U' && k[6] == 'I');
        },
        DeathCause::TargetLaser => {
            reveal_strlit("MOD_TARGET_LASER");
            let k = "MOD_TARGET_LASER"@;
            assert(k.len() == 16 && k[4] == 'T' && k[5] == 'A' && k[6] == 'R');
        },
        DeathCause::TriggerHurt => {
            reveal_strlit("MOD_TRIGGER_HURT");
            let k = "MOD_TRIGGER_HURT"@;
            assert(k.len() == 16 && k[4] == 'T' && k[5] == 'R' && k[6] == 'I');
        },
        DeathCause::Nail => {
            reveal_strlit("MOD_NAIL");
            let k = "MOD_NAIL"@;
            assert(k.len() == 8 && k[4] == 'N' && k[5] == 'A' && k[6] == 'I');
        },
        DeathCause::Chaingun => {
            reveal_strlit("MOD_CHAINGUN");
            let k = "MOD_CHAINGUN"@;
            assert(k.len() == 12 && k[4] == 'C' && k[5] == 'H' && k[6] == 'A');
        },
        DeathCause::ProximityMine => {
            reveal_strlit("MOD_PROXIMITY_MINE");
            let k = "MOD_PROXIMITY_MINE"@;
            assert(k.len() == 18 && k[4] == 'P' && k[5] == 'R' && k[6] == 'O');
        },
        DeathCause::Kamikaze => {
            reveal_strlit("MOD_KAMIKAZE");
            let k = "MOD_KAMIKAZE"@;
            assert(k.len() == 12 && k[4] == 'K' && k[5] == 'A' && k[6] == 'M');
        },
        DeathCause::Juiced => {
            reveal_strlit("MOD_JUICED");
            let k = "MOD_JUICED"@;
            assert(k.len() == 10 && k[4] == 'J' && k[5] == 'U' && k[6] == 'I');
        },
        DeathCause::Grapple => {
            reveal_strlit("MOD_GRAPPLE");
            let k = "MOD_GRAPPLE"@;
            assert(k.len() == 11 && k[4] == 'G' && k[5] == 'R' && k[6] == 'A');
        },
    }
}

/// Distinct causes have distinct keywords.
pub proof fn lemma_keyword_injective(a: DeathCause, b: DeathCause)
    requires
        a.keyword_bytes() == b.keyword_bytes(),
    ensures
        a == b,
{
    vstd::utf8::encode_utf8_decode_utf8(a.keyword());
    vstd::utf8::encode_utf8_decode_utf8(b.keyword());
    lemma_keyword_signature(a);
    lemma_keyword_signature(b);
}

} // verus!
