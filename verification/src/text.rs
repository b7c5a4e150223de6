use vstd::prelude::*;

verus! {

use vstd::std_specs::iter::IteratorSpec;

/// The characters treated as whitespace by the normalization rule: the
/// Unicode `White_Space` code points.
pub open spec fn spec_is_space(c: char) -> bool {
    ||| c == ' '
    ||| c == '\t'
    ||| c == '\n'
    ||| c == '\r'
    ||| c == '\u{0b}'
    ||| c == '\u{0c}'
    ||| c == '\u{85}'
    ||| c == '\u{a0}'
    ||| c == '\u{1680}'
    ||| (c as u32 >= 0x2000 && c as u32 <= 0x200a)
    ||| c == '\u{2028}'
    ||| c == '\u{2029}'
    ||| c == '\u{202f}'
    ||| c == '\u{205f}'
    ||| c == '\u{3000}'
}

/// Decides whether a character counts as whitespace for normalization.
pub fn is_space(c: char) -> (r: bool)
    ensures
        r == spec_is_space(c),
{
    let u = c as u32;
    u == 0x20 || (u >= 0x09 && u <= 0x0d) || u == 0x85 || u == 0xa0 || u == 0x1680 || (u >= 0x2000
        && u <= 0x200a) || u == 0x2028 || u == 0x2029 || u == 0x202f || u == 0x205f || u == 0x3000
}

/// Whitespace normalization of the suffix of a text, where `prev_space` says
/// whether the character just before the suffix was whitespace (so that a run
/// of whitespace spanning the boundary still collapses to one space).
pub open spec fn spec_norm_from(s: Seq<char>, prev_space: bool) -> Seq<char>
    decreases s.len(),
{
    if s.len() == 0 {
        Seq::empty()
    } else if spec_is_space(s[0]) {
        if prev_space {
            spec_norm_from(s.drop_first(), true)
        } else {
            seq![' '] + spec_norm_from(s.drop_first(), true)
        }
    } else {
        seq![s[0]] + spec_norm_from(s.drop_first(), false)
    }
}

/// Whitespace normalization: every maximal run of whitespace characters is
/// replaced by a single space; all other characters are kept as they are.
pub open spec fn normalize_spaces(s: Seq<char>) -> Seq<char> {
    spec_norm_from(s, false)
}

/// Relies on `String::push`: appends the given character to the end of the string.
#[verifier::external_body]
pub(crate) fn push_char(s: &mut String, c: char)
    ensures
        final(s)@ == old(s)@.push(c),
{
    s.push(c);
}

/// Collects the characters of a string slice into a vector.
pub fn chars_of(s: &str) -> (r: Vec<char>)
    ensures
        r@ == s@,
{
    broadcast use vstd::string::group_string_axioms;

    let mut it = s.chars();
    let mut r: Vec<char> = Vec::new();
    loop
        invariant
            r@ + it.remaining() == s@,
            it.decrease() is Some,
        ensures
            r@ == s@,
        decreases it.decrease()->0,
    {
        match it.next() {
            Some(c) => {
                r.push(c);
                proof {
                    assert(r@ + it.remaining() =~= s@);
                }
            },
            None => {
                proof {
                    assert(it.remaining().len() == 0);
                    assert(r@ =~= s@);
                }
                break ;
            },
        }
    }
    r
}

/// Collapses every run of whitespace in the line to a single space.
pub fn strip_spaces(line: &str) -> (r: String)
    ensures
        r@ == normalize_spaces(line@),
{
    let cs = chars_of(line);
    let mut out = String::new();
    let mut prev_space = false;
    let mut i: usize = 0;
    proof {
        assert(cs@.skip(0) =~= cs@);
        assert(out@ + spec_norm_from(cs@, false) =~= spec_norm_from(cs@, false));
    }
    while i < cs.len()
        invariant
            i <= cs.len(),
            cs@ == line@,
            out@ + spec_norm_from(cs@.skip(i as int), prev_space) == normalize_spaces(line@),
        decreases cs.len() - i,
    {
        let c = cs[i];
        proof {
            assert(cs@.skip(i as int)[0] == c);
            assert(cs@.skip(i as int).drop_first() =~= cs@.skip(i as int + 1));
        }
        if is_space(c) {
            if !prev_space {
                push_char(&mut out, ' ');
                proof {
                    assert(out@ + spec_norm_from(cs@.skip(i as int + 1), true) =~= normalize_spaces(
                        line@,
                    ));
                }
            }
            prev_space = true;
        } else {
            push_char(&mut out, c);
            prev_space = false;
            proof {
                assert(out@ + spec_norm_from(cs@.skip(i as int + 1), false) =~= normalize_spaces(
                    line@,
                ));
            }
        }
        i = i + 1;
    }
    proof {
        assert(cs@.skip(cs@.len() as int) =~= Seq::<char>::empty());
        assert(out@ =~= normalize_spaces(line@));
    }
    out
}

} // verus!
