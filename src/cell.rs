//! Which texts a table cell can be laid out from. A cell is split into lines;
//! for each line the table measures its display width and subtracts the
//! characters hidden inside terminal colour sequences (escape, `[`, up to
//! `m`), which must not exceed that width.
use vstd::prelude::*;

verus! {

/// The display width of a character, as unicode-width's
/// `UnicodeWidthChar::width` gives it (`None` for control characters).
pub uninterp spec fn char_width(c: char) -> Option<usize>;

/// The display width of a text, as unicode-width's `UnicodeWidthStr::width`
/// gives it.
pub uninterp spec fn str_width(s: Seq<char>) -> usize;

/// Relies on unicode-width's `UnicodeWidthChar::width`: a table lookup whose
/// result depends on the character alone.
#[verifier::external_body]
fn width_of_char(c: char) -> (r: Option<usize>)
    ensures
        r == char_width(c),
{
    unicode_width::UnicodeWidthChar::width(c)
}

/// Relies on unicode-width's `UnicodeWidthStr::width`: the display width of
/// a text, which depends on its characters alone.
#[verifier::external_body]
fn width_of_str(s: &str) -> (r: usize)
    ensures
        r == str_width(s@),
{
    unicode_width::UnicodeWidthStr::width(s)
}

/// Where a line stands with respect to a colour sequence.
#[derive(Debug, Clone, Copy, PartialEq, Eq, Structural)]
pub enum EscState {
    /// Outside any sequence.
    Normal,
    /// Just after an escape character.
    EscapeChar,
    /// Inside a sequence, after its `[`.
    OpenBracket,
}

/// A character with a nonzero display width.
pub open spec fn visible(c: char) -> bool {
    match char_width(c) {
        Some(w) => w > 0,
        None => false,
    }
}

/// The state after reading `c`, and whether `c` counts as hidden.
pub open spec fn step(st: EscState, c: char) -> (EscState, bool) {
    match st {
        EscState::Normal => if c == '\u{1b}' {
            (EscState::EscapeChar, false)
        } else {
            (EscState::Normal, false)
        },
        EscState::EscapeChar => if c == '[' {
            (EscState::OpenBracket, visible(c))
        } else {
            (EscState::Normal, false)
        },
        EscState::OpenBracket => if c == 'm' {
            (EscState::Normal, visible(c))
        } else {
            (EscState::OpenBracket, visible(c))
        },
    }
}

/// The state and the hidden count after the first `n` characters of `line`.
pub open spec fn scan(line: Seq<char>, n: int) -> (EscState, nat)
    decreases n,
{
    if n <= 0 {
        (EscState::Normal, 0)
    } else {
        let prev = scan(line, n - 1);
        let next = step(prev.0, line[n - 1]);
        (next.0, if next.1 {
            prev.1 + 1
        } else {
            prev.1
        })
    }
}

/// How many characters of `line` are hidden inside colour sequences.
pub open spec fn hidden_count(line: Seq<char>) -> nat {
    scan(line, line.len() as int).1
}

/// A line can be laid out: its hidden characters do not exceed its width.
pub open spec fn line_fits(line: Seq<char>) -> bool {
    hidden_count(line) <= str_width(line)
}

/// The position of the first line feed in `s` at or after `i`, or the end.
pub open spec fn next_newline(s: Seq<char>, i: int) -> int
    decreases s.len() - i,
{
    if i >= s.len() {
        s.len() as int
    } else if s[i] == '\n' {
        i
    } else {
        next_newline(s, i + 1)
    }
}

/// The line that starts at `i`: up to the next line feed, without a carriage
/// return just before that line feed.
pub open spec fn line_at(s: Seq<char>, i: int) -> Seq<char> {
    let j = next_newline(s, i);
    let seg = s.subrange(i, j);
    if j < s.len() && seg.len() > 0 && seg.last() == '\r' {
        seg.drop_last()
    } else {
        seg
    }
}

/// Every line of `s` from position `i` on can be laid out.
pub open spec fn lines_fit_from(s: Seq<char>, i: int) -> bool
    decreases s.len() - i,
{
    if i < 0 || i >= s.len() {
        true
    } else {
        let j = next_newline(s, i);
        line_fits(line_at(s, i)) && (j < i || j >= s.len() || lines_fit_from(s, j + 1))
    }
}

/// A cell can be laid out from `s`.
pub open spec fn cell_fits(s: Seq<char>) -> bool {
    lines_fit_from(s, 0)
}

/// The next line feed is not before `i`.
pub proof fn lemma_next_newline_bounds(s: Seq<char>, i: int)
    requires
        0 <= i,
    ensures
        i <= s.len() ==> i <= next_newline(s, i) <= s.len(),
        next_newline(s, i) < s.len() ==> s[next_newline(s, i)] == '\n',
        forall|k: int| i <= k < next_newline(s, i) ==> s[k] != '\n',
    decreases s.len() - i,
{
    if i < s.len() && s[i] != '\n' {
        lemma_next_newline_bounds(s, i + 1);
    }
}

/// Without an escape character, nothing is hidden.
pub proof fn lemma_scan_plain(line: Seq<char>, n: int)
    requires
        0 <= n <= line.len(),
        forall|k: int| 0 <= k < n ==> line[k] != '\u{1b}',
    ensures
        scan(line, n) == (EscState::Normal, 0nat),
    decreases n,
{
    if n > 0 {
        lemma_scan_plain(line, n - 1);
    }
}

/// A text without an escape character can be laid out.
pub proof fn lemma_plain_fits(s: Seq<char>, i: int)
    requires
        0 <= i,
        forall|k: int| 0 <= k < s.len() ==> s[k] != '\u{1b}',
    ensures
        lines_fit_from(s, i),
    decreases s.len() - i,
{
    if i < s.len() {
        lemma_next_newline_bounds(s, i);
        let line = line_at(s, i);
        assert forall|k: int| 0 <= k < line.len() implies line[k] != '\u{1b}' by {
            assert(line[k] == s[i + k]);
        }
        lemma_scan_plain(line, line.len() as int);
        if next_newline(s, i) < s.len() {
            lemma_plain_fits(s, next_newline(s, i) + 1);
        }
    }
}

/// The hidden count of a line.
fn hidden_of(line: &str) -> (r: usize)
    ensures
        r == hidden_count(line@),
{
    let n = line.unicode_len();
    let mut st = EscState::Normal;
    let mut hidden: usize = 0;
    let mut k: usize = 0;
    while k < n
        invariant
            n == line@.len(),
            k <= n,
            hidden <= k,
            scan(line@, k as int) == (st, hidden as nat),
        decreases n - k,
    {
        let c = line.get_char(k);
        let shown = match width_of_char(c) {
            Some(w) => w > 0,
            None => false,
        };
        let (next, counted) = match st {
            EscState::Normal => if c == '\u{1b}' {
                (EscState::EscapeChar, false)
            } else {
                (EscState::Normal, false)
            },
            EscState::EscapeChar => if c == '[' {
                (EscState::OpenBracket, shown)
            } else {
                (EscState::Normal, false)
            },
            EscState::OpenBracket => if c == 'm' {
                (EscState::Normal, shown)
            } else {
                (EscState::OpenBracket, shown)
            },
        };
        st = next;
        if counted {
            hidden = hidden + 1;
        }
        k = k + 1;
    }
    hidden
}

/// Whether a cell can be laid out from `s`.
pub fn cell_fits_text(s: &str) -> (r: bool)
    ensures
        r == cell_fits(s@),
{
    let n = s.unicode_len();
    let mut i: usize = 0;
    while i < n
        invariant
            n == s@.len(),
            cell_fits(s@) == lines_fit_from(s@, i as int),
        decreases n - i,
    {
        proof {
            lemma_next_newline_bounds(s@, i as int);
        }
        let mut j: usize = i;
        while j < n && s.get_char(j) != '\n'
            invariant
                n == s@.len(),
                i <= j <= n,
                next_newline(s@, i as int) == next_newline(s@, j as int),
            decreases n - j,
        {
            j = j + 1;
        }
        let mut end: usize = j;
        if j < n && j > i && s.get_char(j - 1) == '\r' {
            end = j - 1;
        }
        let line = s.substring_char(i, end);
        assert(line@ =~= line_at(s@, i as int));
        if hidden_of(line) > width_of_str(line) {
            return false;
        }
        if j >= n {
            return true;
        }
        i = j + 1;
    }
    true
}

} // verus!
