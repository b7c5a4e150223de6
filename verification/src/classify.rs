use vstd::prelude::*;

use crate::text::{chars_of, normalize_spaces, strip_spaces};

verus! {

/// What a single log line means to the scanner: nothing of interest, the
/// first fragment of a statement for a process, or a duration report for a
/// process.
pub enum MatchResult {
    Ignore,
    QueryStart(i32, String),
    Duration(i32, String),
}

/// Mathematical counterpart of `MatchResult`, with text as character
/// sequences.
pub enum MatchResultView {
    Ignore,
    QueryStart(i32, Seq<char>),
    Duration(i32, Seq<char>),
}

impl View for MatchResult {
    type V = MatchResultView;

    open spec fn view(&self) -> MatchResultView {
        match self {
            MatchResult::Ignore => MatchResultView::Ignore,
            MatchResult::QueryStart(pid, frag) => MatchResultView::QueryStart(*pid, frag@),
            MatchResult::Duration(pid, dur) => MatchResultView::Duration(*pid, dur@),
        }
    }
}

pub open spec fn is_digit(c: char) -> bool {
    c as u32 >= 0x30 && c as u32 <= 0x39
}

pub open spec fn digit_val(c: char) -> nat {
    (c as u32 - 0x30) as nat
}

/// The characters a duration numeral may consist of: digits and the decimal
/// point.
pub open spec fn is_num_char(c: char) -> bool {
    is_digit(c) || c == '.'
}

/// A line starts a new log entry when it begins with a date stamp:
/// four digits, a dash, two digits, a dash, two digits, a space.
pub open spec fn is_entry_start(l: Seq<char>) -> bool {
    &&& l.len() >= 11
    &&& is_digit(l[0])
    &&& is_digit(l[1])
    &&& is_digit(l[2])
    &&& is_digit(l[3])
    &&& l[4] == '-'
    &&& is_digit(l[5])
    &&& is_digit(l[6])
    &&& l[7] == '-'
    &&& is_digit(l[8])
    &&& is_digit(l[9])
    &&& l[10] == ' '
}

/// Length of the maximal run of digits starting at position `j`.
pub open spec fn digit_run_len(l: Seq<char>, j: int) -> int
    decreases l.len() - j,
{
    if j < 0 || j >= l.len() || !is_digit(l[j]) {
        0
    } else {
        1 + digit_run_len(l, j + 1)
    }
}

/// Length of the maximal run of numeral characters starting at position `j`.
pub open spec fn num_run_len(l: Seq<char>, j: int) -> int
    decreases l.len() - j,
{
    if j < 0 || j >= l.len() || !is_num_char(l[j]) {
        0
    } else {
        1 + num_run_len(l, j + 1)
    }
}

/// The marker `duration: ` occurs in `l` starting at position `i`.
pub open spec fn duration_marker_at(l: Seq<char>, i: int) -> bool {
    &&& 0 <= i
    &&& i + 10 <= l.len()
    &&& l[i] == 'd'
    &&& l[i + 1] == 'u'
    &&& l[i + 2] == 'r'
    &&& l[i + 3] == 'a'
    &&& l[i + 4] == 't'
    &&& l[i + 5] == 'i'
    &&& l[i + 6] == 'o'
    &&& l[i + 7] == 'n'
    &&& l[i + 8] == ':'
    &&& l[i + 9] == ' '
}

/// The suffix ` ms` occurs in `l` starting at position `i`.
pub open spec fn ms_suffix_at(l: Seq<char>, i: int) -> bool {
    &&& 0 <= i
    &&& i + 3 <= l.len()
    &&& l[i] == ' '
    &&& l[i + 1] == 'm'
    &&& l[i + 2] == 's'
}

/// The marker `execute` occurs in `l` starting at position `i`.
pub open spec fn execute_marker_at(l: Seq<char>, i: int) -> bool {
    &&& 0 <= i
    &&& i + 7 <= l.len()
    &&& l[i] == 'e'
    &&& l[i + 1] == 'x'
    &&& l[i + 2] == 'e'
    &&& l[i + 3] == 'c'
    &&& l[i + 4] == 'u'
    &&& l[i + 5] == 't'
    &&& l[i + 6] == 'e'
}

/// The marker `statement` occurs in `l` starting at position `i`.
pub open spec fn statement_marker_at(l: Seq<char>, i: int) -> bool {
    &&& 0 <= i
    &&& i + 9 <= l.len()
    &&& l[i] == 's'
    &&& l[i + 1] == 't'
    &&& l[i + 2] == 'a'
    &&& l[i + 3] == 't'
    &&& l[i + 4] == 'e'
    &&& l[i + 5] == 'm'
    &&& l[i + 6] == 'e'
    &&& l[i + 7] == 'n'
    &&& l[i + 8] == 't'
}

/// The separator `: ` occurs in `l` starting at position `i`.
pub open spec fn colon_space_at(l: Seq<char>, i: int) -> bool {
    &&& 0 <= i
    &&& i + 2 <= l.len()
    &&& l[i] == ':'
    &&& l[i + 1] == ' '
}

/// The duration pattern matches at `i`: the marker, a nonempty run of
/// numeral characters, and the ` ms` suffix directly after the run.
pub open spec fn duration_match_at(l: Seq<char>, i: int) -> bool {
    &&& duration_marker_at(l, i)
    &&& num_run_len(l, i + 10) >= 1
    &&& ms_suffix_at(l, i + 10 + num_run_len(l, i + 10))
}

/// The position of the leftmost duration match at or after `i`.
pub open spec fn first_duration_from(l: Seq<char>, i: int) -> Option<int>
    decreases l.len() - i,
{
    if i < 0 || i >= l.len() {
        None
    } else if duration_match_at(l, i) {
        Some(i)
    } else {
        first_duration_from(l, i + 1)
    }
}

/// The duration numeral of the line, when the line reports one: the run of
/// numeral characters of the leftmost duration match.
pub open spec fn spec_duration(l: Seq<char>) -> Option<Seq<char>> {
    match first_duration_from(l, 0) {
        Some(i) => Some(l.subrange(i + 10, i + 10 + num_run_len(l, i + 10))),
        None => None,
    }
}

/// The position of the rightmost `: ` separator no earlier than `lo` and no
/// later than `j`.
pub open spec fn last_colon_from(l: Seq<char>, lo: int, j: int) -> Option<int>
    decreases j - lo + 1,
{
    if j < lo || lo < 0 {
        None
    } else if colon_space_at(l, j) {
        Some(j)
    } else {
        last_colon_from(l, lo, j - 1)
    }
}

/// The `execute …: ` form of the statement pattern matches at `i`: the
/// marker, then a `: ` separator anywhere to its right (the rightmost one
/// ends the prefix, as the greedy reading of the pattern demands).
pub open spec fn execute_match_at(l: Seq<char>, i: int) -> bool {
    &&& execute_marker_at(l, i)
    &&& last_colon_from(l, i + 7, l.len() - 2) is Some
}

/// The `statement: ` form of the statement pattern matches at `i`.
pub open spec fn statement_lit_match_at(l: Seq<char>, i: int) -> bool {
    &&& statement_marker_at(l, i)
    &&& colon_space_at(l, i + 9)
}

/// Either form of the statement pattern matches at `i`.
pub open spec fn statement_match_at(l: Seq<char>, i: int) -> bool {
    execute_match_at(l, i) || statement_lit_match_at(l, i)
}

/// The captured statement fragment of a statement match at `i`: everything
/// after the separator.
pub open spec fn statement_capture_at(l: Seq<char>, i: int) -> Seq<char> {
    if execute_match_at(l, i) {
        l.subrange(last_colon_from(l, i + 7, l.len() - 2)->0 + 2, l.len() as int)
    } else {
        l.subrange(i + 11, l.len() as int)
    }
}

/// The position of the leftmost statement match at or after `i`.
pub open spec fn first_statement_from(l: Seq<char>, i: int) -> Option<int>
    decreases l.len() - i,
{
    if i < 0 || i >= l.len() {
        None
    } else if statement_match_at(l, i) {
        Some(i)
    } else {
        first_statement_from(l, i + 1)
    }
}

/// The raw statement fragment of the line, when the line starts one.
pub open spec fn spec_statement(l: Seq<char>) -> Option<Seq<char>> {
    match first_statement_from(l, 0) {
        Some(i) => Some(statement_capture_at(l, i)),
        None => None,
    }
}

/// The numeric value of a sequence of decimal digits.
pub open spec fn digits_val(d: Seq<char>) -> nat
    decreases d.len(),
{
    if d.len() == 0 {
        0
    } else {
        digits_val(d.drop_last()) * 10 + digit_val(d.last())
    }
}

/// The process-id pattern matches at position `i` with a head of `k` digits:
/// `k` digits, an opening parenthesis, a nonempty digit run, a closing
/// parenthesis and a colon.
pub open spec fn pid_match_with(l: Seq<char>, i: int, k: int) -> bool {
    &&& 0 <= i
    &&& i + k < l.len()
    &&& (forall|t: int| i <= t < i + k ==> is_digit(l[t]))
    &&& l[i + k] == '('
    &&& {
        let j = i + k + 1;
        let d = digit_run_len(l, j);
        &&& d >= 1
        &&& j + d + 1 < l.len()
        &&& l[j + d] == ')'
        &&& l[j + d + 1] == ':'
    }
}

/// The process-id pattern matches at position `i`, with a three-digit head
/// preferred over a two-digit one.
pub open spec fn pid_match_at(l: Seq<char>, i: int) -> bool {
    pid_match_with(l, i, 3) || pid_match_with(l, i, 2)
}

pub open spec fn pid_head_width(l: Seq<char>, i: int) -> int {
    if pid_match_with(l, i, 3) {
        3
    } else {
        2
    }
}

/// The digits between the parentheses of the process-id pattern at `i`.
pub open spec fn pid_digits_at(l: Seq<char>, i: int) -> Seq<char> {
    let j = i + pid_head_width(l, i) + 1;
    l.subrange(j, j + digit_run_len(l, j))
}

/// The position of the leftmost process-id match at or after `i`.
pub open spec fn first_pid_from(l: Seq<char>, i: int) -> Option<int>
    decreases l.len() - i,
{
    if i < 0 || i >= l.len() {
        None
    } else if pid_match_at(l, i) {
        Some(i)
    } else {
        first_pid_from(l, i + 1)
    }
}

fn is_digit_char(c: char) -> (r: bool)
    ensures
        r == is_digit(c),
{
    let u = c as u32;
    u >= 0x30 && u <= 0x39
}

fn is_num_char_exec(c: char) -> (r: bool)
    ensures
        r == is_num_char(c),
{
    is_digit_char(c) || c == '.'
}

/// Decides whether the line opens a new log entry.
pub fn entry_start(cs: &Vec<char>) -> (r: bool)
    ensures
        r == is_entry_start(cs@),
{
    cs.len() >= 11 && is_digit_char(cs[0]) && is_digit_char(cs[1]) && is_digit_char(cs[2])
        && is_digit_char(cs[3]) && cs[4] == '-' && is_digit_char(cs[5]) && is_digit_char(cs[6])
        && cs[7] == '-' && is_digit_char(cs[8]) && is_digit_char(cs[9]) && cs[10] == ' '
}

/// Computes the maximal digit run starting at `j`.
fn digit_run(cs: &Vec<char>, j: usize) -> (r: usize)
    requires
        j <= cs.len(),
    ensures
        r == digit_run_len(cs@, j as int),
        j + r <= cs.len(),
{
    let mut t: usize = j;
    while t < cs.len() && is_digit_char(cs[t])
        invariant
            j <= t <= cs.len(),
            digit_run_len(cs@, j as int) == (t - j) + digit_run_len(cs@, t as int),
        decreases cs.len() - t,
    {
        t = t + 1;
    }
    t - j
}

/// Computes the maximal numeral-character run starting at `j`.
fn num_run(cs: &Vec<char>, j: usize) -> (r: usize)
    requires
        j <= cs.len(),
    ensures
        r == num_run_len(cs@, j as int),
        j + r <= cs.len(),
{
    let mut t: usize = j;
    while t < cs.len() && is_num_char_exec(cs[t])
        invariant
            j <= t <= cs.len(),
            num_run_len(cs@, j as int) == (t - j) + num_run_len(cs@, t as int),
        decreases cs.len() - t,
    {
        t = t + 1;
    }
    t - j
}

/// Every position inside a maximal digit run holds a digit.
proof fn lemma_digit_run_digits(l: Seq<char>, j: int, t: int)
    requires
        0 <= j,
        j <= t < j + digit_run_len(l, j),
    ensures
        is_digit(l[t]),
    decreases t - j,
{
    if t > j {
        lemma_digit_run_digits(l, j + 1, t);
    }
}

/// Caps a number at `0x1_0000_0000`, the saturation bound used while reading
/// a process id.
spec fn capped(n: nat) -> nat {
    if n > 0x1_0000_0000 {
        0x1_0000_0000
    } else {
        n
    }
}

/// Decides whether the process-id pattern matches at `i` with head width `k`.
fn pid_match_with_exec(cs: &Vec<char>, i: usize, k: usize) -> (r: bool)
    requires
        k == 2 || k == 3,
    ensures
        r == pid_match_with(cs@, i as int, k as int),
{
    if i >= cs.len() || cs.len() - i <= k {
        return false;
    }
    if !(is_digit_char(cs[i]) && is_digit_char(cs[i + 1])) {
        return false;
    }
    if k == 3 && !is_digit_char(cs[i + 2]) {
        return false;
    }
    proof {
        assert(forall|t: int| i <= t < i + k ==> is_digit(cs@[t]));
    }
    if cs[i + k] != '(' {
        return false;
    }
    let j = i + k + 1;
    let d = digit_run(cs, j);
    if d == 0 {
        return false;
    }
    if cs.len() - (j + d) < 2 {
        return false;
    }
    cs[j + d] == ')' && cs[j + d + 1] == ':'
}

/// Finds the leftmost process-id match in the line.
fn find_pid(cs: &Vec<char>) -> (r: Option<usize>)
    ensures
        match r {
            Some(i) => first_pid_from(cs@, 0) == Some(i as int) && pid_match_at(cs@, i as int),
            None => first_pid_from(cs@, 0) is None,
        },
{
    let mut i: usize = 0;
    while i < cs.len()
        invariant
            i <= cs.len(),
            first_pid_from(cs@, 0) == first_pid_from(cs@, i as int),
        decreases cs.len() - i,
    {
        if pid_match_with_exec(cs, i, 3) || pid_match_with_exec(cs, i, 2) {
            return Some(i);
        }
        i = i + 1;
    }
    None
}

/// Reads the process id of the match at `i`; `None` when the number is too
/// large for an `i32`.
fn pid_value(cs: &Vec<char>, i: usize) -> (r: Option<i32>)
    requires
        pid_match_at(cs@, i as int),
    ensures
        match r {
            Some(v) => v >= 0 && v as nat == digits_val(pid_digits_at(cs@, i as int)),
            None => digits_val(pid_digits_at(cs@, i as int)) > i32::MAX as nat,
        },
{
    let k: usize = if pid_match_with_exec(cs, i, 3) {
        3
    } else {
        2
    };
    proof {
        assert(pid_match_with(cs@, i as int, k as int));
        assert(k == pid_head_width(cs@, i as int));
    }
    let n = cs.len();
    proof {
        assert(n > i + k);
    }
    let j = i + k + 1;
    let d = digit_run(cs, j);
    let ghost full = pid_digits_at(cs@, i as int);
    proof {
        assert(full =~= cs@.subrange(j as int, j + d));
    }
    let mut acc: u64 = 0;
    let mut t: usize = j;
    proof {
        assert(cs@.subrange(j as int, j as int) =~= Seq::<char>::empty());
    }
    while t < j + d
        invariant
            j <= t <= j + d,
            j + d + 1 < cs.len(),
            d == digit_run_len(cs@, j as int),
            acc == capped(digits_val(cs@.subrange(j as int, t as int))),
        decreases j + d - t,
    {
        proof {
            lemma_digit_run_digits(cs@, j as int, t as int);
            assert(cs@.subrange(j as int, t as int + 1).drop_last() =~= cs@.subrange(
                j as int,
                t as int,
            ));
            assert(cs@.subrange(j as int, t as int + 1).last() == cs@[t as int]);
        }
        let c = cs[t];
        let dv = (c as u32 - 0x30) as u64;
        let ghost old_val = digits_val(cs@.subrange(j as int, t as int));
        acc = acc * 10 + dv;
        if acc > 0x1_0000_0000 {
            acc = 0x1_0000_0000;
        }
        proof {
            let new_val = digits_val(cs@.subrange(j as int, t as int + 1));
            assert(new_val == old_val * 10 + digit_val(cs@[t as int]));
            if old_val > 0x1_0000_0000 {
                assert(old_val * 10 >= old_val) by {
                    assert(old_val * 10 - old_val == old_val * 9 >= 0) by (nonlinear_arith)
                        requires
                        old_val >= 0,
                    ;
                }
            }
        }
        t = t + 1;
    }
    proof {
        assert(cs@.subrange(j as int, j + d) =~= full);
    }
    if acc <= 0x7fff_ffff {
        Some(acc as i32)
    } else {
        None
    }
}

/// Builds a string out of the characters `cs[from..to]`.
fn string_of_range(cs: &Vec<char>, from: usize, to: usize) -> (r: String)
    requires
        from <= to <= cs.len(),
    ensures
        r@ == cs@.subrange(from as int, to as int),
{
    let mut out = String::new();
    let mut t: usize = from;
    proof {
        assert(out@ =~= cs@.subrange(from as int, from as int));
    }
    while t < to
        invariant
            from <= t <= to <= cs.len(),
            out@ == cs@.subrange(from as int, t as int),
        decreases to - t,
    {
        crate::text::push_char(&mut out, cs[t]);
        proof {
            assert(out@ =~= cs@.subrange(from as int, t as int + 1));
        }
        t = t + 1;
    }
    out
}

fn duration_marker_here(cs: &Vec<char>, i: usize) -> (r: bool)
    ensures
        r == duration_marker_at(cs@, i as int),
{
    i < cs.len() && cs.len() - i >= 10 && cs[i] == 'd' && cs[i + 1] == 'u' && cs[i + 2] == 'r'
        && cs[i + 3] == 'a' && cs[i + 4] == 't' && cs[i + 5] == 'i' && cs[i + 6] == 'o' && cs[i
        + 7] == 'n' && cs[i + 8] == ':' && cs[i + 9] == ' '
}

fn ms_suffix_here(cs: &Vec<char>, i: usize) -> (r: bool)
    requires
        i <= cs.len(),
    ensures
        r == ms_suffix_at(cs@, i as int),
{
    cs.len() - i >= 3 && cs[i] == ' ' && cs[i + 1] == 'm' && cs[i + 2] == 's'
}

fn execute_marker_here(cs: &Vec<char>, i: usize) -> (r: bool)
    ensures
        r == execute_marker_at(cs@, i as int),
{
    i < cs.len() && cs.len() - i >= 7 && cs[i] == 'e' && cs[i + 1] == 'x' && cs[i + 2] == 'e'
        && cs[i + 3] == 'c' && cs[i + 4] == 'u' && cs[i + 5] == 't' && cs[i + 6] == 'e'
}

fn statement_marker_here(cs: &Vec<char>, i: usize) -> (r: bool)
    ensures
        r == statement_marker_at(cs@, i as int),
{
    i < cs.len() && cs.len() - i >= 9 && cs[i] == 's' && cs[i + 1] == 't' && cs[i + 2] == 'a'
        && cs[i + 3] == 't' && cs[i + 4] == 'e' && cs[i + 5] == 'm' && cs[i + 6] == 'e' && cs[i
        + 7] == 'n' && cs[i + 8] == 't'
}

fn colon_space_here(cs: &Vec<char>, i: usize) -> (r: bool)
    requires
        i <= cs.len(),
    ensures
        r == colon_space_at(cs@, i as int),
{
    cs.len() - i >= 2 && cs[i] == ':' && cs[i + 1] == ' '
}

/// Extracts the duration numeral reported by the line, if any.
fn find_duration(cs: &Vec<char>) -> (r: Option<String>)
    ensures
        match r {
            Some(s) => spec_duration(cs@) == Some(s@),
            None => spec_duration(cs@) is None,
        },
{
    let n = cs.len();
    let mut i: usize = 0;
    while i < n
        invariant
            i <= n,
            n == cs.len(),
            first_duration_from(cs@, 0) == first_duration_from(cs@, i as int),
        decreases n - i,
    {
        if duration_marker_here(cs, i) {
            let j = i + 10;
            let d = num_run(cs, j);
            if d >= 1 && ms_suffix_here(cs, j + d) {
                proof {
                    assert(duration_match_at(cs@, i as int));
                }
                return Some(string_of_range(cs, j, j + d));
            }
        }
        proof {
            assert(!duration_match_at(cs@, i as int));
        }
        i = i + 1;
    }
    None
}

/// Finds the rightmost `: ` separator at or after `lo`.
fn find_last_colon(cs: &Vec<char>, lo: usize) -> (r: Option<usize>)
    ensures
        match r {
            Some(j) => last_colon_from(cs@, lo as int, cs@.len() - 2) == Some(j as int) && j as int
                + 2 <= cs@.len(),
            None => last_colon_from(cs@, lo as int, cs@.len() - 2) is None,
        },
{
    let n = cs.len();
    if n < 2 || lo > n - 2 {
        return None;
    }
    let mut j: usize = n - 2;
    loop
        invariant
            lo <= j <= n - 2,
            n == cs.len(),
            n >= 2,
            last_colon_from(cs@, lo as int, cs@.len() - 2) == last_colon_from(
                cs@,
                lo as int,
                j as int,
            ),
        decreases j,
    {
        if colon_space_here(cs, j) {
            return Some(j);
        }
        if j == lo {
            return None;
        }
        j = j - 1;
    }
}

/// Extracts the raw statement fragment started by the line, if any.
fn find_statement(cs: &Vec<char>) -> (r: Option<String>)
    ensures
        match r {
            Some(s) => spec_statement(cs@) == Some(s@),
            None => spec_statement(cs@) is None,
        },
{
    let n = cs.len();
    let mut i: usize = 0;
    while i < n
        invariant
            i <= n,
            n == cs.len(),
            first_statement_from(cs@, 0) == first_statement_from(cs@, i as int),
        decreases n - i,
    {
        if execute_marker_here(cs, i) {
            match find_last_colon(cs, i + 7) {
                Some(j) => {
                    proof {
                        assert(execute_match_at(cs@, i as int));
                        assert(statement_match_at(cs@, i as int));
                    }
                    return Some(string_of_range(cs, j + 2, n));
                },
                None => {
                    proof {
                        assert(!statement_match_at(cs@, i as int));
                    }
                },
            }
        } else if statement_marker_here(cs, i) && colon_space_here(cs, i + 9) {
            proof {
                assert(statement_lit_match_at(cs@, i as int));
                assert(!execute_match_at(cs@, i as int));
            }
            return Some(string_of_range(cs, i + 11, n));
        } else {
            proof {
                assert(!statement_match_at(cs@, i as int));
            }
        }
        i = i + 1;
    }
    None
}

/// What `analyze_line` returns, stated over the character sequence of the
/// line.  A line is of interest only when it opens a new log entry and names
/// a process id; a duration report takes priority over a statement start; a
/// process id beyond the machine range makes the line irrelevant.
pub open spec fn spec_analyze(l: Seq<char>) -> MatchResultView {
    if !is_entry_start(l) {
        MatchResultView::Ignore
    } else {
        match first_pid_from(l, 0) {
            None => MatchResultView::Ignore,
            Some(i) => {
                let v = digits_val(pid_digits_at(l, i));
                if v > i32::MAX as nat {
                    MatchResultView::Ignore
                } else {
                    match spec_duration(l) {
                        Some(d) => MatchResultView::Duration(v as i32, d),
                        None => match spec_statement(l) {
                            Some(s) => MatchResultView::QueryStart(v as i32, normalize_spaces(s)),
                            None => MatchResultView::Ignore,
                        },
                    }
                }
            },
        }
    }
}

/// Classifies one log line: a duration report, the start of a statement
/// (with its first fragment whitespace-normalized), or nothing of interest.
pub fn analyze_line(line: &str) -> (r: MatchResult)
    ensures
        r@ == spec_analyze(line@),
{
    let cs = chars_of(line);
    if !entry_start(&cs) {
        return MatchResult::Ignore;
    }
    match find_pid(&cs) {
        None => MatchResult::Ignore,
        Some(i) => match pid_value(&cs, i) {
            None => MatchResult::Ignore,
            Some(pid) => match find_duration(&cs) {
                Some(d) => MatchResult::Duration(pid, d),
                None => match find_statement(&cs) {
                    Some(s) => MatchResult::QueryStart(pid, strip_spaces(s.as_str())),
                    None => MatchResult::Ignore,
                },
            },
        },
    }
}

} // verus!
