//! The search unit: generate a key pair, encode the public key, test the
//! pattern, and repeat until a match is found.

use vstd::prelude::*;
use crate::encoding::{base64_encode, base64_spec, lemma_base64_ascii};
use crate::keys::{generate, Candidate};
use crate::matcher::{pattern_matches, Matcher};

verus! {

/// One generate-encode-test attempt: the candidate it drew, and whether its
/// encoded public key matched.
pub fn attempt(m: &Matcher) -> (r: (Candidate, bool))
    ensures
        r.0.wf(),
        r.1 == pattern_matches(m.pattern(), base64_spec(r.0.public@)),
{
    let c = generate();
    let encoded = base64_encode(&c.public);
    proof {
        lemma_base64_ascii(c.public@);
    }
    let matched = m.is_match(&encoded);
    (c, matched)
}

/// The search's iteration ceiling: large enough to have no practical
/// effect, it only bounds the loop formally.
pub const ATTEMPT_CEILING: u64 = 0x7fff_ffff_ffff_ffff;

/// Repeat attempts until one matches; the returned candidate is well formed
/// and its encoded public key matches the pattern.  `None` can arise only
/// once the ceiling is exhausted, which no feasible run reaches, and only
/// for a pattern that some text fails to match: a pattern that matches
/// every text always yields a candidate.
pub fn search(m: &Matcher) -> (r: Option<Candidate>)
    ensures
        match r {
            Some(c) => c.wf() && pattern_matches(m.pattern(), base64_spec(c.public@)),
            None => exists|t: Seq<u8>| !pattern_matches(m.pattern(), t),
        },
{
    let mut i: u64 = 0;
    while i < ATTEMPT_CEILING
        invariant
            i <= ATTEMPT_CEILING,
            i > 0 ==> exists|t: Seq<u8>| !pattern_matches(m.pattern(), t),
        decreases ATTEMPT_CEILING - i,
    {
        let (c, matched) = attempt(m);
        if matched {
            return Some(c);
        }
        proof {
            assert(!pattern_matches(m.pattern(), base64_spec(c.public@)));
        }
        i = i + 1;
    }
    None
}

} // verus!
