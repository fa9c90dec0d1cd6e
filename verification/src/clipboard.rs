//! Copying to the clipboard through the terminal: the OSC 52 sequence, which
//! carries the text in base64.

use vstd::prelude::*;
use vstd::utf8::encode_utf8;

use crate::text::{
    byte_len, chars_of, is_ascii_alnum, lemma_byte_len_encode, lemma_byte_len_prefix, string_of,
    width_of,
};

verus! {

/// Most bytes of text that one sequence carries.
pub const MAX_OSC52_BYTES: usize = 8192;

/// The standard base64 form of some bytes, padded with `=`.
pub uninterp spec fn base64_text(bytes: Seq<u8>) -> Seq<char>;

/// A character of the standard base64 alphabet, or the padding.
pub open spec fn is_base64(c: char) -> bool {
    is_ascii_alnum(c) || c == '+' || c == '/' || c == '='
}

/// `Engine::encode` of the base64 crate with its `STANDARD` engine, named.
/// Said of the result beside its name: every character is one of the
/// standard alphabet or the padding.
#[verifier::external_body]
fn encode_base64(bytes: &[u8]) -> (r: String)
    requires
        bytes@.len() <= usize::MAX / 4,
    ensures
        r@ == base64_text(bytes@),
        forall|i: int| 0 <= i < r@.len() ==> is_base64(#[trigger] r@[i]),
{
    base64::Engine::encode(&base64::prelude::BASE64_STANDARD, bytes)
}

/// The longest prefix of `s` of at most `max` bytes that ends between two
/// characters.
pub open spec fn fitting(s: Seq<char>, max: int) -> Seq<char>
    decreases s.len(),
{
    if byte_len(s) <= max || s.len() == 0 {
        s
    } else {
        fitting(s.drop_last(), max)
    }
}

/// The sequence that copies `text`, or as much of it as one sequence
/// carries: `ESC ] 52 ; c ;`, the text in base64, `BEL`.
pub open spec fn osc52(text: Seq<char>) -> Seq<char> {
    "\x1b]52;c;"@ + base64_text(encode_utf8(fitting(text, MAX_OSC52_BYTES as int))) + "\x07"@
}

proof fn lemma_fitting_is_prefix(s: Seq<char>, max: int, k: int)
    requires
        0 <= k <= s.len(),
        byte_len(s.take(k)) <= max,
        k < s.len() ==> byte_len(s.take(k + 1)) > max,
    ensures
        fitting(s, max) == s.take(k),
    decreases s.len(),
{
    if k == s.len() {
        assert(s.take(k) =~= s);
    } else {
        lemma_byte_len_prefix(s, k + 1, s.len() as int);
        let t = s.drop_last();
        assert(t.take(k) =~= s.take(k));
        if k < t.len() {
            assert(t.take(k + 1) =~= s.take(k + 1));
        }
        lemma_fitting_is_prefix(t, max, k);
    }
}

pub fn osc52_payload(text: &str) -> (r: String)
    ensures
        r@ == osc52(text@),
{
    let cs = chars_of(text);
    let mut k: usize = 0;
    let mut used: usize = 0;
    while k < cs.len() && used + width_of(cs[k]) <= MAX_OSC52_BYTES
        invariant
            k <= cs@.len(),
            used == byte_len(cs@.take(k as int)),
            used <= MAX_OSC52_BYTES,
        decreases cs@.len() - k,
    {
        assert(cs@.take(k + 1).drop_last() =~= cs@.take(k as int));
        used = used + width_of(cs[k]);
        k = k + 1;
    }
    proof {
        if k < cs@.len() {
            assert(cs@.take(k + 1).drop_last() =~= cs@.take(k as int));
        }
        lemma_fitting_is_prefix(cs@, MAX_OSC52_BYTES as int, k as int);
        assert(cs@.subrange(0, k as int) =~= cs@.take(k as int));
        lemma_byte_len_encode(cs@.take(k as int));
    }
    let part = string_of(&cs, 0, k);
    let encoded = encode_base64(part.as_str().as_bytes());
    let mut out = String::from_str("\x1b]52;c;");
    out.append(encoded.as_str());
    out.append("\x07");
    out
}

/// What has to be written to the terminal to copy `text`: nothing for an
/// empty text.
pub fn clipboard_sequence(text: &str) -> (r: Option<String>)
    ensures
        match r {
            Some(s) => text@.len() > 0 && s@ == osc52(text@),
            None => text@.len() == 0,
        },
{
    if text.is_empty() {
        None
    } else {
        Some(osc52_payload(text))
    }
}

// ---------------------------------------------------------------------------
// Laws
// ---------------------------------------------------------------------------

/// What is copied is a prefix of the text that takes at most
/// [`MAX_OSC52_BYTES`] bytes, and all of it where it takes no more.
pub proof fn law_copies_as_much_as_fits(text: Seq<char>)
    ensures
        fitting(text, MAX_OSC52_BYTES as int).len() <= text.len(),
        fitting(text, MAX_OSC52_BYTES as int) == text.take(
            fitting(text, MAX_OSC52_BYTES as int).len() as int,
        ),
        byte_len(fitting(text, MAX_OSC52_BYTES as int)) <= MAX_OSC52_BYTES,
        byte_len(text) <= MAX_OSC52_BYTES ==> fitting(text, MAX_OSC52_BYTES as int) == text,
    decreases text.len(),
{
    let f = fitting(text, MAX_OSC52_BYTES as int);
    assert(text.take(text.len() as int) =~= text);
    if byte_len(text) > MAX_OSC52_BYTES && text.len() > 0 {
        law_copies_as_much_as_fits(text.drop_last());
        assert(text.drop_last().take(f.len() as int) =~= text.take(f.len() as int));
    }
}

/// As much of the text is copied as eight kilobytes hold: one character more
/// would not fit.
pub proof fn law_one_more_character_would_not_fit(text: Seq<char>)
    ensures
        ({
            let copied = fitting(text, 8192);
            &&& copied.len() <= text.len()
            &&& copied == text.take(copied.len() as int)
            &&& copied.len() > 0 ==> byte_len(copied) <= 8192
            &&& copied.len() < text.len() ==> byte_len(text.take(copied.len() as int + 1)) > 8192
            &&& osc52(text) == seq!['\x1b', ']', '5', '2', ';', 'c', ';'] + base64_text(
                encode_utf8(copied),
            ) + seq!['\x07']
        }),
    decreases text.len(),
{
    reveal_strlit("\x1b]52;c;");
    reveal_strlit("\x07");
    assert("\x1b]52;c;"@ =~= seq!['\x1b', ']', '5', '2', ';', 'c', ';']);
    assert("\x07"@ =~= seq!['\x07']);
    lemma_fitting_maximal(text, 8192);
}

proof fn lemma_fitting_maximal(s: Seq<char>, max: int)
    ensures
        fitting(s, max).len() <= s.len(),
        fitting(s, max) == s.take(fitting(s, max).len() as int),
        fitting(s, max).len() > 0 ==> byte_len(fitting(s, max)) <= max,
        fitting(s, max).len() < s.len() ==> byte_len(s.take(fitting(s, max).len() as int + 1)) > max,
    decreases s.len(),
{
    if byte_len(s) <= max || s.len() == 0 {
        assert(s.take(s.len() as int) =~= s);
    } else {
        let front = s.drop_last();
        lemma_fitting_maximal(front, max);
        let k = fitting(front, max).len() as int;
        assert(front.take(k) =~= s.take(k));
        if k < front.len() {
            assert(front.take(k + 1) =~= s.take(k + 1));
        } else {
            assert(s.take(k + 1) =~= s);
        }
    }
}

} // verus!
