use vstd::prelude::*;

use crate::text::chars_of;

verus! {

/// One round of the fingerprint: mix a character into the running hash and
/// multiply by the FNV prime, modulo 2^64.
pub open spec fn fp_step(h: u64, c: char) -> u64 {
    (((h ^ (c as u64)) as nat * 0x100000001b3) % 0x1_0000_0000_0000_0000) as u64
}

pub open spec fn fp_rec(s: Seq<char>, h: u64) -> u64
    decreases s.len(),
{
    if s.len() == 0 {
        h
    } else {
        fp_rec(s.drop_first(), fp_step(h, s[0]))
    }
}

/// The 64-bit content fingerprint of a statement text: FNV-1a over the
/// character sequence.  A pure function of the text, so identical statements
/// always fingerprint identically.
pub open spec fn spec_fingerprint(s: Seq<char>) -> u64 {
    fp_rec(s, 0xcbf29ce484222325)
}

/// Computes the 64-bit content fingerprint of a statement text.
pub fn hash_query(query_string: &str) -> (r: u64)
    ensures
        r == spec_fingerprint(query_string@),
{
    let cs = chars_of(query_string);
    let mut h: u64 = 0xcbf29ce484222325;
    let mut i: usize = 0;
    proof {
        assert(cs@.skip(0) =~= cs@);
    }
    while i < cs.len()
        invariant
            i <= cs.len(),
            cs@ == query_string@,
            fp_rec(cs@.skip(i as int), h) == spec_fingerprint(cs@),
        decreases cs.len() - i,
    {
        proof {
            assert(cs@.skip(i as int)[0] == cs@[i as int]);
            assert(cs@.skip(i as int).drop_first() =~= cs@.skip(i as int + 1));
        }
        let c = cs[i];
        h = (h ^ (c as u64)).wrapping_mul(0x100000001b3);
        i = i + 1;
    }
    proof {
        assert(cs@.skip(cs@.len() as int) =~= Seq::<char>::empty());
    }
    h
}

/// Fingerprinting is deterministic: the fingerprint depends on the statement
/// text alone, so equal texts always fingerprint equal.
pub proof fn lemma_fingerprint_deterministic(a: Seq<char>, b: Seq<char>)
    requires
        a == b,
    ensures
        spec_fingerprint(a) == spec_fingerprint(b),
{
}

} // verus!
