//! Identifiers of payment links: eight symbols, each a lower-case letter or a
//! digit.

use vstd::prelude::*;

verus! {

/// Number of symbols in a link id.
pub const LINK_ID_LEN: usize = 8;

/// The symbols a link id is drawn from, in the order a draw indexes them.
pub const LINK_ID_ALPHABET: &'static str = "abcdefghijklmnopqrstuvwxyz0123456789";

/// Number of symbols in the alphabet.
pub const LINK_ID_SYMBOLS: usize = 36;

/// `c` is a lower-case ASCII letter or a digit.
pub open spec fn is_link_id_char(c: char) -> bool {
    ('a' <= c && c <= 'z') || ('0' <= c && c <= '9')
}

/// `text` is a link id: exactly eight symbols of the alphabet.
pub open spec fn is_link_id(text: Seq<char>) -> bool {
    &&& text.len() == LINK_ID_LEN
    &&& forall|i: int| 0 <= i < text.len() ==> is_link_id_char(#[trigger] text[i])
}

/// The symbol that a draw selects: the draw, reduced modulo 36, indexes the
/// alphabet.
pub open spec fn symbol_of_draw(draw: usize) -> char {
    LINK_ID_ALPHABET@[(draw % LINK_ID_SYMBOLS) as int]
}

/// The id that eight draws spell.
pub open spec fn link_id_of_draws(draws: Seq<usize>) -> Seq<char> {
    Seq::new(LINK_ID_LEN as nat, |i: int| symbol_of_draw(draws[i]))
}

/// Every symbol of the alphabet is a letter or a digit.
pub proof fn lemma_alphabet_symbols()
    ensures
        LINK_ID_ALPHABET@.len() == LINK_ID_SYMBOLS,
        forall|i: int| 0 <= i < LINK_ID_SYMBOLS ==> is_link_id_char(#[trigger] LINK_ID_ALPHABET@[i]),
{
    reveal_strlit("abcdefghijklmnopqrstuvwxyz0123456789");
}

/// Calls `rand::random` for one `usize` from the thread's generator. Nothing
/// is claimed of the number: every call may give any value.
#[verifier::external_body]
fn random_draw() -> (draw: usize) {
    rand::random::<usize>()
}

/// Spells the id that eight draws select.
pub fn link_id_from_draws(draws: &[usize; 8]) -> (id: String)
    ensures
        id@ == link_id_of_draws(draws@),
        is_link_id(id@),
{
    proof {
        lemma_alphabet_symbols();
    }
    let mut id = String::new();
    let mut i: usize = 0;
    while i < 8
        invariant
            i <= 8,
            id@.len() == i,
            LINK_ID_ALPHABET@.len() == 36,
            LINK_ID_ALPHABET.is_ascii(),
            forall|j: int| 0 <= j < i ==> id@[j] == symbol_of_draw(draws@[j]),
        decreases 8 - i,
    {
        let index: usize = draws[i] % LINK_ID_SYMBOLS;
        let symbol = LINK_ID_ALPHABET.substring_ascii(index, index + 1);
        id.append(symbol);
        i += 1;
    }
    id
}

/// Draws a fresh link id at random.
pub fn generate_link_id() -> (id: String)
    ensures
        is_link_id(id@),
{
    let mut draws: [usize; 8] = [0usize; 8];
    let mut i: usize = 0;
    while i < 8
        invariant
            i <= 8,
        decreases 8 - i,
    {
        draws[i] = random_draw();
        i += 1;
    }
    link_id_from_draws(&draws)
}

/// Whether `text` is a link id.
pub fn is_valid_link_id(text: &str) -> (valid: bool)
    ensures
        valid == is_link_id(text@),
{
    if text.unicode_len() != LINK_ID_LEN {
        return false;
    }
    let mut i: usize = 0;
    while i < 8
        invariant
            i <= 8,
            text@.len() == 8,
            forall|j: int| 0 <= j < i ==> is_link_id_char(#[trigger] text@[j]),
        decreases 8 - i,
    {
        let c = text.get_char(i);
        if !(('a' <= c && c <= 'z') || ('0' <= c && c <= '9')) {
            return false;
        }
        i += 1;
    }
    true
}

} // verus!
