//! Session tokens: random strings over a fixed alphabet.
use rand::Rng;
use vstd::prelude::*;
use vstd::string::{StrSliceExecFns, StringExecFns};

verus! {

/// The number of characters of a token.
pub const TOKEN_LEN: usize = 32;

/// The characters that a token is drawn from.
pub open spec fn token_alphabet() -> Seq<char> {
    "abcdefghijklmnopqrstuvwxyzABCDEFGHIJKLMNOPQRSTUVWXYZ0123456789"@
}

/// `TOKEN_LEN` characters of the alphabet.
pub open spec fn token_shape(t: Seq<char>) -> bool {
    &&& t.len() == TOKEN_LEN
    &&& forall|i: int| 0 <= i < t.len() ==> token_alphabet().contains(#[trigger] t[i])
}

/// Relies on rand's `Rng::gen_range` on `thread_rng`: a number drawn from
/// `0..bound`, which panics only on an empty range.
#[verifier::external_body]
fn random_below(bound: usize) -> (r: usize)
    requires
        bound > 0,
    ensures
        r < bound,
{
    rand::thread_rng().gen_range(0..bound)
}

/// The token whose characters are the alphabet's characters at `idx`, in order.
pub fn token_from_indices(idx: &Vec<usize>) -> (t: String)
    requires
        idx@.len() == TOKEN_LEN,
        forall|i: int| 0 <= i < idx@.len() ==> idx@[i] < token_alphabet().len(),
    ensures
        t@.len() == TOKEN_LEN,
        forall|i: int| 0 <= i < TOKEN_LEN ==> t@[i] == token_alphabet()[idx@[i] as int],
{
    let alphabet = "abcdefghijklmnopqrstuvwxyzABCDEFGHIJKLMNOPQRSTUVWXYZ0123456789";
    proof {
        reveal_strlit("abcdefghijklmnopqrstuvwxyzABCDEFGHIJKLMNOPQRSTUVWXYZ0123456789");
    }
    let mut t = String::new();
    let mut j: usize = 0;
    while j < idx.len()
        invariant
            idx@.len() == TOKEN_LEN,
            forall|i: int| 0 <= i < idx@.len() ==> idx@[i] < token_alphabet().len(),
            alphabet@ == token_alphabet(),
            token_alphabet().len() == 62,
            j <= idx@.len(),
            t@.len() == j,
            forall|i: int| 0 <= i < j ==> t@[i] == token_alphabet()[idx@[i] as int],
        decreases idx@.len() - j,
    {
        let k = idx[j];
        let piece = alphabet.substring_char(k, k + 1);
        let ghost before = t@;
        t.append(piece);
        proof {
            assert(piece@.len() == 1);
            assert(t@ == before + piece@);
            assert(t@[j as int] == piece@[0]);
            assert forall|i: int| 0 <= i < j + 1 implies t@[i] == token_alphabet()[idx@[i] as int] by {
                if i < j {
                    assert(t@[i] == before[i]);
                }
            }
        }
        j = j + 1;
    }
    t
}

/// Draws a fresh token, each character uniformly from the alphabet.
pub fn generate_token() -> (t: String)
    ensures
        token_shape(t@),
{
    proof {
        reveal_strlit("abcdefghijklmnopqrstuvwxyzABCDEFGHIJKLMNOPQRSTUVWXYZ0123456789");
    }
    let n: usize = 62;
    assert(n == token_alphabet().len());
    let mut idx: Vec<usize> = Vec::new();
    while idx.len() < TOKEN_LEN
        invariant
            idx@.len() <= TOKEN_LEN,
            n == token_alphabet().len(),
            n == 62,
            forall|i: int| 0 <= i < idx@.len() ==> idx@[i] < n,
        decreases TOKEN_LEN - idx@.len(),
    {
        idx.push(random_below(n));
    }
    let t = token_from_indices(&idx);
    proof {
        assert forall|i: int| 0 <= i < t@.len() implies token_alphabet().contains(#[trigger] t@[i]) by {
            assert(t@[i] == token_alphabet()[idx@[i] as int]);
        }
    }
    t
}

} // verus!
