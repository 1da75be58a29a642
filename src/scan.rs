//! Scanning primitives over byte slices, each with the spec function that it
//! computes.
use vstd::prelude::*;

verus! {

/// The classes of bytes that the log grammar skips over in runs.
#[derive(Debug, Clone, Copy, PartialEq, Eq, Structural)]
pub enum ByteClass {
    /// Space, tab, carriage return or line feed.
    Space,
    /// An ASCII decimal digit.
    Digit,
    /// The dash `-`.
    Dash,
    /// Anything but a line feed.
    NotNewline,
}

impl ByteClass {
    pub open spec fn holds(self, b: u8) -> bool {
        match self {
            ByteClass::Space => b == 32 || b == 9 || b == 13 || b == 10,
            ByteClass::Digit => 48 <= b <= 57,
            ByteClass::Dash => b == 45,
            ByteClass::NotNewline => b != 10,
        }
    }

    pub fn test(self, b: u8) -> (r: bool)
        ensures
            r == self.holds(b),
    {
        match self {
            ByteClass::Space => b == 32 || b == 9 || b == 13 || b == 10,
            ByteClass::Digit => 48 <= b && b <= 57,
            ByteClass::Dash => b == 45,
            ByteClass::NotNewline => b != 10,
        }
    }
}

/// The end of the longest run of bytes of `class` that starts at `i`.
pub open spec fn run_end(s: Seq<u8>, i: int, class: ByteClass) -> int
    decreases s.len() - i,
{
    if 0 <= i < s.len() && class.holds(s[i]) {
        run_end(s, i + 1, class)
    } else {
        i
    }
}

/// A run measured in a suffix ends where it ends in the whole.
pub proof fn lemma_run_end_suffix(s: Seq<u8>, pos: int, j: int, class: ByteClass)
    requires
        0 <= pos <= s.len(),
        0 <= j <= s.len() - pos,
    ensures
        run_end(s.subrange(pos, s.len() as int), j, class) + pos == run_end(s, pos + j, class),
    decreases s.len() - pos - j,
{
    if j < s.len() - pos && class.holds(s[pos + j]) {
        lemma_run_end_suffix(s, pos, j + 1, class);
    }
}

/// Whether `pat` stands in `s` at position `i`.
pub open spec fn occurs_at(s: Seq<u8>, pat: Seq<u8>, i: int) -> bool {
    0 <= i && i + pat.len() <= s.len() && s.subrange(i, i + pat.len()) == pat
}

/// The first position at or after `i` where `pat` stands in `s`.
pub open spec fn find_from(s: Seq<u8>, pat: Seq<u8>, i: int) -> Option<int>
    decreases s.len() + 1 - i,
{
    if i < 0 || i + pat.len() > s.len() {
        None
    } else if occurs_at(s, pat, i) {
        Some(i)
    } else {
        find_from(s, pat, i + 1)
    }
}

pub proof fn lemma_run_end_bounds(s: Seq<u8>, i: int, class: ByteClass)
    requires
        0 <= i <= s.len(),
    ensures
        i <= run_end(s, i, class) <= s.len(),
        forall|k: int| i <= k < run_end(s, i, class) ==> class.holds(#[trigger] s[k]),
        run_end(s, i, class) < s.len() ==> !class.holds(s[run_end(s, i, class)]),
    decreases s.len() - i,
{
    if i < s.len() && class.holds(s[i]) {
        lemma_run_end_bounds(s, i + 1, class);
    }
}

pub proof fn lemma_find_from_bounds(s: Seq<u8>, pat: Seq<u8>, i: int)
    requires
        0 <= i,
    ensures
        find_from(s, pat, i) matches Some(k) ==> i <= k && occurs_at(s, pat, k),
        find_from(s, pat, i) matches Some(k) ==> forall|j: int| i <= j < k ==> !occurs_at(s, pat, j),
        find_from(s, pat, i) is None ==> forall|j: int| i <= j ==> !occurs_at(s, pat, j),
    decreases s.len() + 1 - i,
{
    if i + pat.len() <= s.len() && !occurs_at(s, pat, i) {
        lemma_find_from_bounds(s, pat, i + 1);
    }
}

/// A run ends at `j` when every byte from `i` to `j` is of the class and
/// the byte at `j` is not.
pub proof fn lemma_run_end_exact(s: Seq<u8>, i: int, j: int, class: ByteClass)
    requires
        0 <= i <= j <= s.len(),
        forall|k: int| i <= k < j ==> class.holds(#[trigger] s[k]),
        j == s.len() || !class.holds(s[j]),
    ensures
        run_end(s, i, class) == j,
    decreases j - i,
{
    if i < j {
        lemma_run_end_exact(s, i + 1, j, class);
    }
}

/// The first occurrence at or after `i` is at `p` when `pat` stands at `p`
/// and nowhere in between.
pub proof fn lemma_find_first(s: Seq<u8>, pat: Seq<u8>, i: int, p: int)
    requires
        0 <= i <= p,
        occurs_at(s, pat, p),
        forall|j: int| i <= j < p ==> !occurs_at(s, pat, j),
    ensures
        find_from(s, pat, i) == Some(p),
    decreases p - i,
{
    if i < p {
        lemma_find_first(s, pat, i + 1, p);
    }
}

/// Inside a window of `s` that holds `w`, `pat` stands where it stands in `w`.
pub proof fn lemma_occurs_in_window(s: Seq<u8>, w: Seq<u8>, off: int, pat: Seq<u8>, j: int)
    requires
        0 <= off,
        off + w.len() <= s.len(),
        s.subrange(off, off + w.len()) == w,
        off <= j,
        j + pat.len() <= off + w.len(),
    ensures
        occurs_at(s, pat, j) == occurs_at(w, pat, j - off),
{
    assert(s.subrange(j, j + pat.len()) =~= w.subrange(j - off, j - off + pat.len()));
}

/// The end of the run of bytes of `class` that starts at `i`.
pub fn skip_run(s: &[u8], i: usize, class: ByteClass) -> (r: usize)
    requires
        i <= s@.len(),
    ensures
        r == run_end(s@, i as int, class),
        i <= r <= s@.len(),
{
    let mut j: usize = i;
    while j < s.len() && class.test(s[j])
        invariant
            i <= j <= s@.len(),
            run_end(s@, i as int, class) == run_end(s@, j as int, class),
        decreases s@.len() - j,
    {
        j = j + 1;
    }
    j
}

/// Whether `a` and `b` hold the same bytes.
pub fn bytes_eq(a: &[u8], b: &[u8]) -> (r: bool)
    ensures
        r == (a@ == b@),
{
    if a.len() != b.len() {
        return false;
    }
    let mut k: usize = 0;
    while k < a.len()
        invariant
            a@.len() == b@.len(),
            0 <= k <= a@.len(),
            forall|j: int| 0 <= j < k ==> a@[j] == b@[j],
        decreases a@.len() - k,
    {
        if a[k] != b[k] {
            return false;
        }
        k = k + 1;
    }
    assert(a@ =~= b@);
    true
}

/// Whether `pat` stands in `s` at position `i`.
pub fn matches_at(s: &[u8], i: usize, pat: &[u8]) -> (r: bool)
    ensures
        r == occurs_at(s@, pat@, i as int),
{
    if i > s.len() || pat.len() > s.len() - i {
        return false;
    }
    let mut k: usize = 0;
    while k < pat.len()
        invariant
            i + pat@.len() <= s@.len(),
            s@.len() <= usize::MAX,
            0 <= k <= pat@.len(),
            forall|j: int| 0 <= j < k ==> s@[i + j] == pat@[j],
        decreases pat@.len() - k,
    {
        if s[i + k] != pat[k] {
            assert(s@.subrange(i as int, i + pat@.len())[k as int] != pat@[k as int]);
            return false;
        }
        k = k + 1;
    }
    assert(s@.subrange(i as int, i + pat@.len()) =~= pat@);
    true
}

/// The first position at or after `from` where `pat` stands in `s`.
pub fn find(s: &[u8], from: usize, pat: &[u8]) -> (r: Option<usize>)
    ensures
        match r {
            Some(k) => find_from(s@, pat@, from as int) == Some(k as int),
            None => find_from(s@, pat@, from as int) is None,
        },
{
    if from > s.len() || pat.len() > s.len() - from {
        return None;
    }
    let last: usize = s.len() - pat.len();
    let mut i: usize = from;
    loop
        invariant
            from <= i <= last,
            last == s@.len() - pat@.len(),
            find_from(s@, pat@, from as int) == find_from(s@, pat@, i as int),
        decreases last - i,
    {
        if matches_at(s, i, pat) {
            return Some(i);
        }
        if i == last {
            assert(find_from(s@, pat@, i + 1) is None);
            return None;
        }
        i = i + 1;
    }
}

} // verus!
