//! Textual repair of the base64 wire form of capability tokens.
//!
//! Tokens travel as URL-safe base64. When a token is carried in a URL
//! query parameter its trailing `=` padding may have been stripped, so
//! the decoder first brings the text back to a multiple of four
//! characters; conversely a freshly encoded token has its padding
//! removed before being placed in a link.

use vstd::prelude::*;

verus! {

/// How many `=` characters bring a string of length `n` up to a
/// multiple of four.
pub open spec fn pad_count(n: nat) -> nat {
    (((4 - n % 4) % 4) as nat)
}

/// The padded form of `s`: extended with `=` up to a multiple of four,
/// unconditionally (a string whose length is already a multiple of four
/// gains nothing).
pub open spec fn padded(s: Seq<char>) -> Seq<char> {
    s + Seq::new(pad_count(s.len()), |i: int| '=')
}

/// Padding repair is idempotent, and always yields a length divisible
/// by four, for every string.
pub proof fn lemma_padded_idempotent(s: Seq<char>)
    ensures
        padded(padded(s)) == padded(s),
        padded(s).len() % 4 == 0,
{
    let k = pad_count(s.len());
    assert((s.len() + k) % 4 == 0) by {
        assert(k == (4 - s.len() % 4) % 4);
    }
    let p = padded(s);
    assert(p.len() == s.len() + k);
    assert(pad_count(p.len()) == 0);
    assert(padded(p) =~= p);
}

/// Reapplies the `=` padding that intermediaries may have stripped from
/// a base64 string carried in a URL query parameter.
pub fn add_padding(base64_string: &str) -> (r: String)
    ensures
        r@ == padded(base64_string@),
{
    let n = base64_string.unicode_len();
    let k = (4 - n % 4) % 4;
    assert(k as nat == pad_count(base64_string@.len()));
    let mut r = base64_string.to_owned();
    let mut i: usize = 0;
    while i < k
        invariant
            i <= k,
            k as nat == pad_count(base64_string@.len()),
            r@ == base64_string@ + Seq::new(i as nat, |j: int| '='),
        decreases k - i,
    {
        proof {
            reveal_strlit("=");
        }
        r.append("=");
        i = i + 1;
        proof {
            assert(r@ =~= base64_string@ + Seq::new(i as nat, |j: int| '='));
        }
    }
    proof {
        assert(r@ =~= padded(base64_string@));
    }
    r
}

/// Removes everything from the first `=` onwards, undoing `add_padding`
/// before a token is placed in a URL.
pub fn remove_padding(base64_string: &str) -> (r: String)
    ensures
        r@ == base64_string@.take(r@.len() as int),
        forall|j: int| 0 <= j < r@.len() ==> base64_string@[j] != '=',
        r@.len() < base64_string@.len() ==> base64_string@[r@.len() as int] == '=',
        r@.len() <= base64_string@.len(),
{
    let n = base64_string.unicode_len();
    let mut i: usize = 0;
    while i < n
        invariant
            i <= n,
            n as nat == base64_string@.len(),
            forall|j: int| 0 <= j < i ==> base64_string@[j] != '=',
        decreases n - i,
    {
        if base64_string.get_char(i) == '=' {
            let r = base64_string.substring_char(0, i);
            proof {
                assert(r@ =~= base64_string@.take(r@.len() as int));
            }
            return r.to_owned();
        }
        i = i + 1;
    }
    let r = base64_string.to_owned();
    proof {
        assert(r@ =~= base64_string@.take(r@.len() as int));
    }
    r
}

} // verus!
