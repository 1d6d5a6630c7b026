//! Character classes and maximal-run scanning over lines of downloader
//! output, together with substring search for the warning marker.

use vstd::prelude::*;
use vstd::string::*;

verus! {

/// Whitespace as the progress-line pattern understands it.
pub open spec fn is_space(c: char) -> bool {
    c == ' ' || c == '\t' || c == '\n' || c == '\r' || c == '\u{b}' || c == '\u{c}'
}

/// A decimal digit.
pub open spec fn is_digit(c: char) -> bool {
    '0' <= c && c <= '9'
}

/// A character allowed inside the speed field: neither whitespace nor
/// the field separator `|`.
pub open spec fn is_token_char(c: char) -> bool {
    !is_space(c) && c != '|'
}

/// A character allowed inside the ETA field: anything but whitespace.
pub open spec fn is_eta_char(c: char) -> bool {
    !is_space(c)
}

/// End of the maximal run of decimal digits starting at `i`.
pub open spec fn digits_end(s: Seq<char>, i: int) -> int
    decreases s.len() - i,
{
    if 0 <= i && i < s.len() && is_digit(s[i]) {
        digits_end(s, i + 1)
    } else {
        i
    }
}

/// End of the maximal run of whitespace starting at `i`.
pub open spec fn spaces_end(s: Seq<char>, i: int) -> int
    decreases s.len() - i,
{
    if 0 <= i && i < s.len() && is_space(s[i]) {
        spaces_end(s, i + 1)
    } else {
        i
    }
}

/// End of the maximal run of speed-field characters starting at `i`.
pub open spec fn token_end(s: Seq<char>, i: int) -> int
    decreases s.len() - i,
{
    if 0 <= i && i < s.len() && is_token_char(s[i]) {
        token_end(s, i + 1)
    } else {
        i
    }
}

/// End of the maximal run of ETA-field characters starting at `i`.
pub open spec fn eta_end(s: Seq<char>, i: int) -> int
    decreases s.len() - i,
{
    if 0 <= i && i < s.len() && is_eta_char(s[i]) {
        eta_end(s, i + 1)
    } else {
        i
    }
}

/// Any run of digits from `i` to `j` that a non-digit (or the line's
/// end) closes is the maximal one: it pins `digits_end`.
pub proof fn lemma_digits_end_pins(s: Seq<char>, i: int, j: int)
    requires
        0 <= i <= j <= s.len(),
        forall|k: int| i <= k < j ==> is_digit(s[k]),
        j < s.len() ==> !is_digit(s[j]),
    ensures
        digits_end(s, i) == j,
    decreases j - i,
{
    if i < j {
        lemma_digits_end_pins(s, i + 1, j);
    }
}

/// As `lemma_digits_end_pins`, for whitespace runs.
pub proof fn lemma_spaces_end_pins(s: Seq<char>, i: int, j: int)
    requires
        0 <= i <= j <= s.len(),
        forall|k: int| i <= k < j ==> is_space(s[k]),
        j < s.len() ==> !is_space(s[j]),
    ensures
        spaces_end(s, i) == j,
    decreases j - i,
{
    if i < j {
        lemma_spaces_end_pins(s, i + 1, j);
    }
}

/// As `lemma_digits_end_pins`, for speed-field runs.
pub proof fn lemma_token_end_pins(s: Seq<char>, i: int, j: int)
    requires
        0 <= i <= j <= s.len(),
        forall|k: int| i <= k < j ==> is_token_char(s[k]),
        j < s.len() ==> !is_token_char(s[j]),
    ensures
        token_end(s, i) == j,
    decreases j - i,
{
    if i < j {
        lemma_token_end_pins(s, i + 1, j);
    }
}

/// As `lemma_digits_end_pins`, for ETA-field runs.
pub proof fn lemma_eta_end_pins(s: Seq<char>, i: int, j: int)
    requires
        0 <= i <= j <= s.len(),
        forall|k: int| i <= k < j ==> is_eta_char(s[k]),
        j < s.len() ==> !is_eta_char(s[j]),
    ensures
        eta_end(s, i) == j,
    decreases j - i,
{
    if i < j {
        lemma_eta_end_pins(s, i + 1, j);
    }
}

/// Executable twin of `is_digit`.
pub fn digit(c: char) -> (b: bool)
    ensures
        b == is_digit(c),
{
    '0' <= c && c <= '9'
}

/// Executable twin of `is_space`.
pub fn space(c: char) -> (b: bool)
    ensures
        b == is_space(c),
{
    c == ' ' || c == '\t' || c == '\n' || c == '\r' || c == '\u{b}' || c == '\u{c}'
}

/// Executable twin of `is_token_char`.
pub fn token_char(c: char) -> (b: bool)
    ensures
        b == is_token_char(c),
{
    !space(c) && c != '|'
}

/// Executable twin of `is_eta_char`.
pub fn eta_char(c: char) -> (b: bool)
    ensures
        b == is_eta_char(c),
{
    !space(c)
}

/// The characters of a line, one per element.
pub fn line_chars(line: &str) -> (cs: Vec<char>)
    ensures
        cs@ == line@,
{
    let n = line.unicode_len();
    let mut cs: Vec<char> = Vec::new();
    let mut i: usize = 0;
    while i < n
        invariant
            n == line@.len(),
            i <= n,
            cs@ == line@.subrange(0, i as int),
        decreases n - i,
    {
        cs.push(line.get_char(i));
        assert(cs@ =~= line@.subrange(0, i + 1));
        i = i + 1;
    }
    assert(cs@ =~= line@);
    cs
}

/// End of the maximal digit run starting at `i`, computed.
pub fn scan_digits(cs: &Vec<char>, i: usize) -> (j: usize)
    requires
        i <= cs@.len(),
    ensures
        j == digits_end(cs@, i as int),
        i <= j <= cs@.len(),
{
    let mut j = i;
    while j < cs.len() && digit(cs[j])
        invariant
            i <= j <= cs@.len(),
            digits_end(cs@, i as int) == digits_end(cs@, j as int),
        decreases cs@.len() - j,
    {
        j = j + 1;
    }
    j
}

/// End of the maximal whitespace run starting at `i`, computed.
pub fn scan_spaces(cs: &Vec<char>, i: usize) -> (j: usize)
    requires
        i <= cs@.len(),
    ensures
        j == spaces_end(cs@, i as int),
        i <= j <= cs@.len(),
{
    let mut j = i;
    while j < cs.len() && space(cs[j])
        invariant
            i <= j <= cs@.len(),
            spaces_end(cs@, i as int) == spaces_end(cs@, j as int),
        decreases cs@.len() - j,
    {
        j = j + 1;
    }
    j
}

/// End of the maximal speed-field run starting at `i`, computed.
pub fn scan_token(cs: &Vec<char>, i: usize) -> (j: usize)
    requires
        i <= cs@.len(),
    ensures
        j == token_end(cs@, i as int),
        i <= j <= cs@.len(),
{
    let mut j = i;
    while j < cs.len() && token_char(cs[j])
        invariant
            i <= j <= cs@.len(),
            token_end(cs@, i as int) == token_end(cs@, j as int),
        decreases cs@.len() - j,
    {
        j = j + 1;
    }
    j
}

/// End of the maximal ETA-field run starting at `i`, computed.
pub fn scan_eta(cs: &Vec<char>, i: usize) -> (j: usize)
    requires
        i <= cs@.len(),
    ensures
        j == eta_end(cs@, i as int),
        i <= j <= cs@.len(),
{
    let mut j = i;
    while j < cs.len() && eta_char(cs[j])
        invariant
            i <= j <= cs@.len(),
            eta_end(cs@, i as int) == eta_end(cs@, j as int),
        decreases cs@.len() - j,
    {
        j = j + 1;
    }
    j
}

/// The marker that tells an informational diagnostic line apart from a
/// real error line.
pub open spec fn warning_marker() -> Seq<char> {
    seq!['W', 'A', 'R', 'N', 'I', 'N', 'G']
}

/// Whether the marker occurs anywhere in `s`.
pub open spec fn has_warning(s: Seq<char>) -> bool {
    exists|i: int| 0 <= i && i + 7 <= s.len() && #[trigger] s.subrange(i, i + 7) == warning_marker()
}

/// Whether a diagnostic line carries the warning marker.
pub fn contains_warning(line: &str) -> (b: bool)
    ensures
        b == has_warning(line@),
{
    let cs = line_chars(line);
    let n = cs.len();
    if n < 7 {
        return false;
    }
    let mut i: usize = 0;
    while i <= n - 7
        invariant
            cs@ == line@,
            n == cs@.len(),
            7 <= n,
            i <= n - 7 + 1,
            forall|j: int| 0 <= j < i ==> #[trigger] cs@.subrange(j, j + 7) != warning_marker(),
        decreases n - i,
    {
        let mut k: usize = 0;
        let mut all_equal = true;
        while k < 7
            invariant
                cs@ == line@,
                n == cs@.len(),
                i + 7 <= n,
                k <= 7,
                all_equal <==> (forall|m: int| 0 <= m < k ==> cs@[i + m] == #[trigger] warning_marker()[m]),
            decreases 7 - k,
        {
            let expected: char = if k == 0 {
                'W'
            } else if k == 1 {
                'A'
            } else if k == 2 {
                'R'
            } else if k == 3 {
                'N'
            } else if k == 4 {
                'I'
            } else if k == 5 {
                'N'
            } else {
                'G'
            };
            assert(expected == warning_marker()[k as int]);
            if cs[i + k] != expected {
                all_equal = false;
            }
            k = k + 1;
        }
        if all_equal {
            assert(cs@.subrange(i as int, i as int + 7) =~= warning_marker());
            return true;
        }
        proof {
            let w = choose|m: int| 0 <= m < 7 && cs@[i + m] != warning_marker()[m];
            assert(cs@.subrange(i as int, i as int + 7)[w] != warning_marker()[w]);
        }
        i = i + 1;
    }
    assert(forall|j: int| 0 <= j && j + 7 <= cs@.len() ==> #[trigger] cs@.subrange(j, j + 7) != warning_marker());
    false
}

/// Index of the first character that is not whitespace.
pub open spec fn trim_start_at(s: Seq<char>) -> int {
    spaces_end(s, 0)
}

/// One past the last character that is not whitespace, scanning the
/// trailing whitespace down from `j`.
pub open spec fn trim_end_at(s: Seq<char>, j: int) -> int
    decreases j,
{
    if j <= 0 || j > s.len() {
        0
    } else if is_space(s[j - 1]) {
        trim_end_at(s, j - 1)
    } else {
        j
    }
}

/// `s` without its leading and trailing whitespace.
pub open spec fn spec_trim(s: Seq<char>) -> Seq<char> {
    let a = trim_start_at(s);
    let b = trim_end_at(s, s.len() as int);
    if a <= b {
        s.subrange(a, b)
    } else {
        Seq::empty()
    }
}

/// A line without its leading and trailing whitespace.
pub fn trim_line(line: &str) -> (t: String)
    ensures
        t@ == spec_trim(line@),
{
    let cs = line_chars(line);
    let n = cs.len();
    let a = scan_spaces(&cs, 0);
    let mut b = n;
    while b > 0 && space(cs[b - 1])
        invariant
            cs@ == line@,
            n == cs@.len(),
            b <= n,
            trim_end_at(cs@, n as int) == trim_end_at(cs@, b as int),
        decreases b,
    {
        b = b - 1;
    }
    if a <= b {
        String::from_str(line.substring_char(a, b))
    } else {
        assert(spec_trim(cs@) =~= Seq::<char>::empty());
        String::new()
    }
}

} // verus!
