//! Identifier generation: short random ids drawn from a 52-letter
//! alphabet, collision-resistant but never checked for uniqueness before
//! use — the store's unique-key refusal is the safety net.

use vstd::prelude::*;

verus! {

/// Number of characters in a public image id.
pub const ID_LENGTH: usize = 10;

/// The id alphabet: the lower- and upper-case ASCII letters.
pub open spec fn id_alphabet() -> Seq<char> {
    seq![
        'a', 'b', 'c', 'd', 'e', 'f', 'g', 'h', 'i', 'j', 'k', 'l', 'm', 'n', 'o', 'p', 'q', 'r',
        's', 't', 'u', 'v', 'w', 'x', 'y', 'z', 'A', 'B', 'C', 'D', 'E', 'F', 'G', 'H', 'I', 'J',
        'K', 'L', 'M', 'N', 'O', 'P', 'Q', 'R', 'S', 'T', 'U', 'V', 'W', 'X', 'Y', 'Z',
    ]
}

/// A well-formed id: exactly `ID_LENGTH` characters, all from the alphabet.
pub open spec fn valid_id(s: Seq<char>) -> bool {
    s.len() == ID_LENGTH && forall|i: int| 0 <= i < s.len() ==> id_alphabet().contains(#[trigger] s[i])
}

/// The id alphabet as a runtime vector.
#[verifier::rlimit(60)]
fn make_id_alphabet() -> (r: Vec<char>)
    ensures
        r@ == id_alphabet(),
{
    let mut v: Vec<char> = Vec::new();
    v.push('a'); v.push('b'); v.push('c'); v.push('d'); v.push('e'); v.push('f');
    v.push('g'); v.push('h'); v.push('i'); v.push('j'); v.push('k'); v.push('l');
    v.push('m'); v.push('n'); v.push('o'); v.push('p'); v.push('q'); v.push('r');
    v.push('s'); v.push('t'); v.push('u'); v.push('v'); v.push('w'); v.push('x');
    v.push('y'); v.push('z'); v.push('A'); v.push('B'); v.push('C'); v.push('D');
    v.push('E'); v.push('F'); v.push('G'); v.push('H'); v.push('I'); v.push('J');
    v.push('K'); v.push('L'); v.push('M'); v.push('N'); v.push('O'); v.push('P');
    v.push('Q'); v.push('R'); v.push('S'); v.push('T'); v.push('U'); v.push('V');
    v.push('W'); v.push('X'); v.push('Y'); v.push('Z');
    proof {
        assert(v@ =~= id_alphabet());
    }
    v
}

/// Relies on nanoid::format with nanoid's default random source: it pushes
/// exactly `count` characters, each taken from the given alphabet.  The id
/// alphabet is non-empty, ASCII-only and far below nanoid's 255-symbol
/// bound, so the call does not panic and the byte length it checks equals
/// the character count; `count` must be positive, since for zero the
/// generator's only exit test sits inside its push branch and is never
/// reached.
#[verifier::external_body]
fn random_chars(alphabet: &Vec<char>, count: usize) -> (r: String)
    requires
        alphabet@ == id_alphabet(),
        count >= 1,
    ensures
        r@.len() == count,
        forall|i: int| 0 <= i < r@.len() ==> id_alphabet().contains(#[trigger] r@[i]),
{
    nanoid::format(nanoid::rngs::default, alphabet.as_slice(), count)
}

/// A fresh, probably-unique id: `ID_LENGTH` letters drawn at random from
/// the alphabet.
pub fn generate_id() -> (r: String)
    ensures
        valid_id(r@),
{
    let alphabet: Vec<char> = make_id_alphabet();
    random_chars(&alphabet, ID_LENGTH)
}

/// Letters never collide with the separator characters the pipelines
/// split on.
pub proof fn lemma_valid_id_has_no_dot(s: Seq<char>)
    requires
        valid_id(s),
    ensures
        forall|i: int| 0 <= i < s.len() ==> s[i] != '.',
        forall|i: int| 0 <= i < s.len() ==> s[i] != '/',
{
    assert forall|i: int| 0 <= i < s.len() implies s[i] != '.' && s[i] != '/' by {
        assert(id_alphabet().contains(s[i]));
        let k = choose|k: int| 0 <= k < id_alphabet().len() && id_alphabet()[k] == s[i];
    }
}

} // verus!
