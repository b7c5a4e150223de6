use vstd::prelude::*;

use crate::scanner::OutputRecord;
use crate::text::push_char;

verus! {

/// The characters that force a CSV field into quotes: the separator, the
/// quote itself, and the two line-break characters.
pub open spec fn csv_special(c: char) -> bool {
    c == ',' || c == '"' || c == '\n' || c == '\r'
}

pub open spec fn csv_needs_quotes(f: Seq<char>) -> bool {
    exists|i: int| 0 <= i < f.len() && csv_special(f[i])
}

/// A field's text with every quote doubled.
pub open spec fn csv_escaped(f: Seq<char>) -> Seq<char>
    decreases f.len(),
{
    if f.len() == 0 {
        Seq::empty()
    } else if f[0] == '"' {
        seq!['"', '"'] + csv_escaped(f.drop_first())
    } else {
        seq![f[0]] + csv_escaped(f.drop_first())
    }
}

/// A field as it appears on a CSV line: quoted, with quotes doubled, exactly
/// when it holds a separator, a quote or a line break.
pub open spec fn csv_field(f: Seq<char>) -> Seq<char> {
    if csv_needs_quotes(f) {
        seq!['"'] + csv_escaped(f) + seq!['"']
    } else {
        f
    }
}

/// A four-field CSV record: the fields separated by commas, ended by a line
/// feed.
pub open spec fn csv_row(a: Seq<char>, b: Seq<char>, c: Seq<char>, d: Seq<char>) -> Seq<char> {
    csv_field(a) + seq![','] + csv_field(b) + seq![','] + csv_field(c) + seq![','] + csv_field(d)
        + seq!['\n']
}

/// Relies on `csv::Writer::write_record` with the default settings: fields
/// are separated by commas, a field is quoted exactly when it contains a
/// comma, a quote, a line feed or a carriage return (each quote doubled),
/// and the record ends with a line feed.  Writing into a byte vector cannot
/// fail, and the output of writing these character sequences is valid UTF-8.
#[verifier::external_body]
fn csv_encode_row(f0: &str, f1: &str, f2: &str, f3: &str) -> (r: String)
    ensures
        r@ == csv_row(f0@, f1@, f2@, f3@),
{
    let mut w = csv::Writer::from_writer(Vec::new());
    let _ = w.write_record(&[f0, f1, f2, f3]);
    match w.into_inner() {
        Ok(buf) => String::from_utf8(buf).unwrap_or_default(),
        Err(_) => String::new(),
    }
}

pub open spec fn dec_digit(d: nat) -> char {
    if d == 0 {
        '0'
    } else if d == 1 {
        '1'
    } else if d == 2 {
        '2'
    } else if d == 3 {
        '3'
    } else if d == 4 {
        '4'
    } else if d == 5 {
        '5'
    } else if d == 6 {
        '6'
    } else if d == 7 {
        '7'
    } else if d == 8 {
        '8'
    } else {
        '9'
    }
}

/// The decimal notation of a number, without a sign and without leading
/// zeros (a lone zero for the number zero).
pub open spec fn dec_str(n: nat) -> Seq<char>
    decreases n,
{
    if n < 10 {
        seq![dec_digit(n)]
    } else {
        dec_str(n / 10).push(dec_digit(n % 10))
    }
}

fn digit_char(d: u64) -> (c: char)
    requires
        d < 10,
    ensures
        c == dec_digit(d as nat),
{
    if d == 0 {
        '0'
    } else if d == 1 {
        '1'
    } else if d == 2 {
        '2'
    } else if d == 3 {
        '3'
    } else if d == 4 {
        '4'
    } else if d == 5 {
        '5'
    } else if d == 6 {
        '6'
    } else if d == 7 {
        '7'
    } else if d == 8 {
        '8'
    } else {
        '9'
    }
}

/// Renders a number in decimal.
pub fn u64_to_string(n: u64) -> (r: String)
    ensures
        r@ == dec_str(n as nat),
    decreases n,
{
    if n < 10 {
        let mut s = String::new();
        push_char(&mut s, digit_char(n));
        proof {
            assert(s@ =~= seq![dec_digit(n as nat)]);
        }
        s
    } else {
        let mut s = u64_to_string(n / 10);
        push_char(&mut s, digit_char(n % 10));
        s
    }
}

impl OutputRecord {
    /// Renders the record as one CSV line: process id, duration text,
    /// fingerprint, statement text.
    pub fn to_csv_line(&self) -> (r: String)
        requires
            self.pid >= 0,
        ensures
            r@ == csv_row(
                dec_str(self.pid as nat),
                self.duration@,
                dec_str(self.fingerprint as nat),
                self.query@,
            ),
    {
        let pid_s = u64_to_string(self.pid as u64);
        let fp_s = u64_to_string(self.fingerprint);
        csv_encode_row(pid_s.as_str(), self.duration.as_str(), fp_s.as_str(), self.query.as_str())
    }
}

} // verus!
