//! The progress-line grammar: a percentage, a speed token and an ETA
//! token embedded anywhere in a line of downloader output, in the form
//! `<digits>.<digits>% | <speed> | <eta>` with optional whitespace
//! around the separators. The parser finds the leftmost occurrence and
//! captures the three fields.

use crate::scan;
use vstd::prelude::*;
use vstd::string::*;

verus! {

/// The three fields captured from a progress line.
pub struct Fields {
    pub percent: Seq<char>,
    pub speed: Seq<char>,
    pub eta: Seq<char>,
}

/// The fields captured by a match of the progress pattern starting
/// exactly at `i`, or `None` if no match starts there.
///
/// A match is, in order: a nonempty digit run, `.`, a nonempty digit
/// run, `%`, optional whitespace, `|`, optional whitespace, a nonempty
/// run free of whitespace and `|` (the speed), optional whitespace,
/// `|`, optional whitespace, and a nonempty whitespace-free run (the
/// ETA). Each run is maximal, so the fields are uniquely determined.
pub open spec fn match_at(s: Seq<char>, i: int) -> Option<Fields> {
    let d1 = scan::digits_end(s, i);
    let d2 = scan::digits_end(s, d1 + 1);
    if d1 == i || !(d1 + 1 < s.len() && s[d1] == '.') {
        None
    } else if d2 == d1 + 1 || !(d2 < s.len() && s[d2] == '%') {
        None
    } else {
        let w1 = scan::spaces_end(s, d2 + 1);
        if !(w1 < s.len() && s[w1] == '|') {
            None
        } else {
            let sp_start = scan::spaces_end(s, w1 + 1);
            let sp_end = scan::token_end(s, sp_start);
            if sp_end == sp_start {
                None
            } else {
                let w2 = scan::spaces_end(s, sp_end);
                if !(w2 < s.len() && s[w2] == '|') {
                    None
                } else {
                    let e_start = scan::spaces_end(s, w2 + 1);
                    let e_end = scan::eta_end(s, e_start);
                    if e_end == e_start {
                        None
                    } else {
                        Some(Fields {
                            percent: s.subrange(i, d2),
                            speed: s.subrange(sp_start, sp_end),
                            eta: s.subrange(e_start, e_end),
                        })
                    }
                }
            }
        }
    }
}

/// The leftmost match of the progress pattern at or after `i`.
pub open spec fn first_match_from(s: Seq<char>, i: int) -> Option<Fields>
    decreases s.len() - i,
{
    if !(0 <= i && i < s.len()) {
        None
    } else if match_at(s, i) is Some {
        match_at(s, i)
    } else {
        first_match_from(s, i + 1)
    }
}

/// What a whole line of standard output means: the leftmost match of
/// the progress pattern, or nothing for a line that carries none.
pub open spec fn parse_line(s: Seq<char>) -> Option<Fields> {
    first_match_from(s, 0)
}

/// The boundaries of a match starting at `i`: percent, speed and ETA
/// as index ranges into the line.
struct Spans {
    percent_end: usize,
    speed_start: usize,
    speed_end: usize,
    eta_start: usize,
    eta_end: usize,
}

/// Attempt the progress pattern at position `i`, reporting the field
/// boundaries of the match starting there, if any.
fn try_match_at(cs: &Vec<char>, i: usize) -> (r: Option<Spans>)
    requires
        i < cs@.len(),
    ensures
        match r {
            Some(sp) => {
                &&& i < sp.percent_end <= cs@.len()
                &&& sp.percent_end <= sp.speed_start < sp.speed_end <= cs@.len()
                &&& sp.speed_end <= sp.eta_start < sp.eta_end <= cs@.len()
                &&& match_at(cs@, i as int) matches Some(f)
                &&& f.percent == cs@.subrange(i as int, sp.percent_end as int)
                &&& f.speed == cs@.subrange(sp.speed_start as int, sp.speed_end as int)
                &&& f.eta == cs@.subrange(sp.eta_start as int, sp.eta_end as int)
            },
            None => match_at(cs@, i as int) is None,
        },
{
    let d1 = scan::scan_digits(cs, i);
    if d1 == i || d1 >= cs.len() - 1 || cs[d1] != '.' {
        return None;
    }
    let d2 = scan::scan_digits(cs, d1 + 1);
    if d2 == d1 + 1 || d2 >= cs.len() || cs[d2] != '%' {
        return None;
    }
    let w1 = scan::scan_spaces(cs, d2 + 1);
    if w1 >= cs.len() || cs[w1] != '|' {
        return None;
    }
    let sp_start = scan::scan_spaces(cs, w1 + 1);
    let sp_end = scan::scan_token(cs, sp_start);
    if sp_end == sp_start {
        return None;
    }
    let w2 = scan::scan_spaces(cs, sp_end);
    if w2 >= cs.len() || cs[w2] != '|' {
        return None;
    }
    let e_start = scan::scan_spaces(cs, w2 + 1);
    let e_end = scan::scan_eta(cs, e_start);
    if e_end == e_start {
        return None;
    }
    Some(Spans { percent_end: d2, speed_start: sp_start, speed_end: sp_end, eta_start: e_start, eta_end: e_end })
}

/// Parse one line of downloader standard output. Returns the captured
/// percentage, speed and ETA fields of the leftmost progress match, or
/// `None` for a line that carries no progress report.
pub fn parse_progress_line(line: &str) -> (r: Option<(String, String, String)>)
    ensures
        match (r, parse_line(line@)) {
            (Some(t), Some(f)) => t.0@ == f.percent && t.1@ == f.speed && t.2@ == f.eta,
            (None, None) => true,
            _ => false,
        },
{
    let cs = scan::line_chars(line);
    let n = cs.len();
    let mut i: usize = 0;
    while i < n
        invariant
            cs@ == line@,
            n == cs@.len(),
            i <= n,
            forall|j: int| 0 <= j < i ==> match_at(cs@, j) is None,
            first_match_from(cs@, 0) == first_match_from(cs@, i as int),
        decreases n - i,
    {
        match try_match_at(&cs, i) {
            Some(sp) => {
                let percent = String::from_str(line.substring_char(i, sp.percent_end));
                let speed = String::from_str(line.substring_char(sp.speed_start, sp.speed_end));
                let eta = String::from_str(line.substring_char(sp.eta_start, sp.eta_end));
                return Some((percent, speed, eta));
            },
            None => {
                i = i + 1;
            },
        }
    }
    None
}

/// Whether `d` is the position of the decimal point of a percentage
/// number: at least one digit before it, at least one after, digits
/// everywhere else.
pub open spec fn percent_split_at(p: Seq<char>, d: int) -> bool {
    &&& 1 <= d
    &&& d + 2 <= p.len()
    &&& p[d] == '.'
    &&& forall|k: int| 0 <= k < d ==> scan::is_digit(#[trigger] p[k])
    &&& forall|k: int| d < k < p.len() ==> scan::is_digit(#[trigger] p[k])
}

/// Whether `p` is the numeric part of a percentage: digits, a decimal
/// point, digits.
pub open spec fn is_percent_number(p: Seq<char>) -> bool {
    exists|d: int| #[trigger] percent_split_at(p, d)
}

/// Whether `s` is a well-formed speed field: nonempty, free of
/// whitespace and of the separator.
pub open spec fn is_speed_token(s: Seq<char>) -> bool {
    s.len() > 0 && forall|k: int| 0 <= k < s.len() ==> scan::is_token_char(#[trigger] s[k])
}

/// Whether `e` is a well-formed ETA field: nonempty and free of
/// whitespace.
pub open spec fn is_eta_token(e: Seq<char>) -> bool {
    e.len() > 0 && forall|k: int| 0 <= k < e.len() ==> scan::is_eta_char(#[trigger] e[k])
}

/// The line the downloader renders from the fixed progress template for
/// one update: the three fields embedded in the output format that
/// `parse_line` reads. The template and the pattern are two halves of
/// one textual contract.
pub open spec fn rendered_line(percent: Seq<char>, speed: Seq<char>, eta: Seq<char>) -> Seq<
    char,
> {
    "[download] "@ + percent + "% | "@ + speed + " | "@ + eta
}

/// Render the progress line for one update, as the downloader's fixed
/// output template does.
pub fn render_progress_line(percent: &str, speed: &str, eta: &str) -> (line: String)
    ensures
        line@ == rendered_line(percent@, speed@, eta@),
{
    let mut line = String::from_str("[download] ");
    line.append(percent);
    line.append("% | ");
    line.append(speed);
    line.append(" | ");
    line.append(eta);
    proof {
        assert(line@ =~= rendered_line(percent@, speed@, eta@));
    }
    line
}

/// Skipping positions where no match starts does not change the
/// leftmost match.
proof fn lemma_first_match_skip(s: Seq<char>, i: int, m: int)
    requires
        0 <= i <= m <= s.len(),
        forall|j: int| i <= j < m ==> #[trigger] match_at(s, j) is None,
    ensures
        first_match_from(s, i) == first_match_from(s, m),
    decreases m - i,
{
    if i < m {
        lemma_first_match_skip(s, i + 1, m);
    }
}

/// Law: parsing is a retraction of rendering. Any well-formed
/// percentage number, speed field and ETA field embedded in the fixed
/// output template are captured back exactly by the parser.
pub proof fn lemma_template_round_trip(percent: Seq<char>, speed: Seq<char>, eta: Seq<char>)
    requires
        is_percent_number(percent),
        is_speed_token(speed),
        is_eta_token(eta),
    ensures
        parse_line(rendered_line(percent, speed, eta)) matches Some(f) && f.percent == percent
            && f.speed == speed && f.eta == eta,
{
    let s = rendered_line(percent, speed, eta);
    let p = percent.len() as int;
    let q = speed.len() as int;
    let e = eta.len() as int;
    reveal_strlit("[download] ");
    reveal_strlit("% | ");
    reveal_strlit(" | ");
    let h = "[download] "@;
    assert(h.len() == 11);
    assert(s.len() == 18 + p + q + e);
    assert(forall|k: int| 0 <= k < 11 ==> #[trigger] s[k] == h[k]);
    assert(forall|k: int| 11 <= k < 11 + p ==> #[trigger] s[k] == percent[k - 11]);
    assert(s[11 + p] == '%');
    assert(s[12 + p] == ' ');
    assert(s[13 + p] == '|');
    assert(s[14 + p] == ' ');
    assert(forall|k: int| 15 + p <= k < 15 + p + q ==> #[trigger] s[k] == speed[k - 15 - p]);
    assert(s[15 + p + q] == ' ');
    assert(s[16 + p + q] == '|');
    assert(s[17 + p + q] == ' ');
    assert(forall|k: int| 18 + p + q <= k < s.len() ==> #[trigger] s[k] == eta[k - 18 - p - q]);
    // No match starts inside the fixed prefix: its characters are not
    // digits.
    assert(forall|k: int| 0 <= k < 11 ==> !scan::is_digit(#[trigger] s[k]));
    assert forall|j: int| 0 <= j < 11 implies #[trigger] match_at(s, j) is None by {
        scan::lemma_digits_end_pins(s, j, j);
    }
    lemma_first_match_skip(s, 0, 11);
    // The match at the start of the percentage captures the three
    // fields exactly.
    let d = choose|d: int| percent_split_at(percent, d);
    assert(percent_split_at(percent, d));
    scan::lemma_digits_end_pins(s, 11, 11 + d);
    scan::lemma_digits_end_pins(s, 11 + d + 1, 11 + p);
    scan::lemma_spaces_end_pins(s, 12 + p, 13 + p);
    scan::lemma_spaces_end_pins(s, 14 + p, 15 + p);
    scan::lemma_token_end_pins(s, 15 + p, 15 + p + q);
    scan::lemma_spaces_end_pins(s, 15 + p + q, 16 + p + q);
    scan::lemma_spaces_end_pins(s, 17 + p + q, 18 + p + q);
    scan::lemma_eta_end_pins(s, 18 + p + q, 18 + p + q + e);
    assert(match_at(s, 11) matches Some(f) && f.percent =~= percent && f.speed =~= speed
        && f.eta =~= eta);
}

} // verus!

