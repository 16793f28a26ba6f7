//! Random token bodies drawn from the operating system's secure source.

use rand::distributions::Uniform;
use rand::rngs::OsRng;
use rand::Rng;
use vstd::prelude::*;
use vstd::string::StrSliceExecFns;
use vstd::string::StringExecFns;

verus! {

/// How many symbols the alphabet of token bodies has.
pub const ALPHABET_SIZE: usize = 62;

/// Whether `symbol` is one of `a-z`, `A-Z` or `0-9`.
pub open spec fn is_alphanumeric(symbol: char) -> bool {
    ||| 'a' <= symbol <= 'z'
    ||| 'A' <= symbol <= 'Z'
    ||| '0' <= symbol <= '9'
}

/// Whether every character of `text` is alphanumeric.
pub open spec fn all_alphanumeric(text: Seq<char>) -> bool {
    forall|i: int| 0 <= i < text.len() ==> is_alphanumeric(#[trigger] text[i])
}

/// The symbol that the draw `index` stands for: the lower-case letters come
/// first, then the upper-case letters, then the digits.
pub open spec fn symbol_of(index: int) -> char {
    if index < 26 {
        ('a' as int + index) as char
    } else if index < 52 {
        ('A' as int + (index - 26)) as char
    } else {
        ('0' as int + (index - 52)) as char
    }
}

/// The one-character text of the symbol that the draw `index` stands for.
pub fn symbol(index: usize) -> (text: &'static str)
    requires
        index < ALPHABET_SIZE,
    ensures
        text@ == seq![symbol_of(index as int)],
{
    let alphabet = "abcdefghijklmnopqrstuvwxyzABCDEFGHIJKLMNOPQRSTUVWXYZ0123456789";
    proof {
        reveal_strlit("abcdefghijklmnopqrstuvwxyzABCDEFGHIJKLMNOPQRSTUVWXYZ0123456789");
    }
    assert(alphabet@.len() == 62);
    assert(forall|i: int| 0 <= i < 62 ==> #[trigger] alphabet@[i] == symbol_of(i));
    let text = alphabet.substring_ascii(index, index + 1);
    assert(text@ =~= seq![symbol_of(index as int)]);
    text
}

/// One draw from `0..bound`.
///
/// Trusted: `rand::Rng::sample` on `rand::rngs::OsRng` with
/// `rand::distributions::Uniform::from(0..bound)`. The sampler adds to the
/// lower end of the range the high half of a product with the range's width,
/// so what comes back lies below `bound`. It refuses an empty range, which
/// `requires` leaves out. Nothing is claimed of which value is drawn, and
/// nothing of a call that does not come back: `OsRng` ends the program where
/// the operating system's source cannot be read.
#[verifier::external_body]
fn draw_below(bound: usize) -> (index: usize)
    requires
        bound > 0,
    ensures
        index < bound,
{
    OsRng.sample(Uniform::from(0..bound))
}

/// A text of `len` alphanumeric symbols, each drawn on its own from the
/// operating system's secure random source.
pub fn generate_secure_alphanumeric_string(len: usize) -> (text: String)
    ensures
        text@.len() == len,
        all_alphanumeric(text@),
{
    let mut text = String::new();
    let mut drawn: usize = 0;
    while drawn < len
        invariant
            drawn <= len,
            text@.len() == drawn,
            all_alphanumeric(text@),
        decreases len - drawn,
    {
        let index = draw_below(ALPHABET_SIZE);
        proof {
            lemma_symbol_is_alphanumeric(index as int);
        }
        text.append(symbol(index));
        drawn = drawn + 1;
    }
    text
}

/// Every draw stands for an alphanumeric symbol.
pub proof fn lemma_symbol_is_alphanumeric(index: int)
    requires
        0 <= index < ALPHABET_SIZE,
    ensures
        is_alphanumeric(symbol_of(index)),
{
}

/// The draws and the alphanumeric symbols correspond one to one: no two draws
/// stand for the same symbol, and every alphanumeric symbol stands for a draw.
pub proof fn lemma_symbols_are_the_alphabet()
    ensures
        forall|i: int, j: int|
            0 <= i < ALPHABET_SIZE && 0 <= j < ALPHABET_SIZE && i != j ==> symbol_of(i)
                != symbol_of(j),
        forall|c: char|
            is_alphanumeric(c) ==> exists|i: int|
                0 <= i < ALPHABET_SIZE && #[trigger] symbol_of(i) == c,
{
    assert forall|c: char| is_alphanumeric(c) implies exists|i: int|
        0 <= i < ALPHABET_SIZE && #[trigger] symbol_of(i) == c by {
        let i = if 'a' <= c <= 'z' {
            c as int - 'a' as int
        } else if 'A' <= c <= 'Z' {
            c as int - 'A' as int + 26
        } else {
            c as int - '0' as int + 52
        };
        assert(0 <= i < ALPHABET_SIZE && symbol_of(i) == c);
    }
}

} // verus!
