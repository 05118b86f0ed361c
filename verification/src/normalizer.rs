//! The emission-time transform of a token's surface: canonical
//! decomposition, removal of combining diacritical marks, casefolding.

use unicode_normalization::UnicodeNormalization;
use vstd::prelude::*;

verus! {

/// The canonical decomposition (Normalization Form D) of a text, as
/// `unicode_normalization` computes it.
pub uninterp spec fn canonical_decomposition(text: Seq<char>) -> Seq<char>;

/// The lowercase mapping of one character, as `char::to_lowercase` gives it.
pub uninterp spec fn unicode_lowercase(c: char) -> Seq<char>;

/// Whether `c` lies in the block of combining diacritical marks,
/// U+0300 to U+036F.
pub open spec fn is_combining_mark(c: char) -> bool {
    0x0300 <= c as u32 <= 0x036F
}

/// `text` without its combining diacritical marks.
pub open spec fn strip_marks(text: Seq<char>) -> Seq<char> {
    text.filter(|c: char| !is_combining_mark(c))
}

/// The lowercase form of an ASCII character: `A` to `Z` become `a` to `z`,
/// every other character stays.
pub open spec fn ascii_lowercase(c: char) -> char {
    if 'A' <= c <= 'Z' {
        ((c as u32) + 32) as char
    } else {
        c
    }
}

/// The casefolded form of one character: ASCII is lowercased directly,
/// any other character by its Unicode lowercase mapping.
pub open spec fn casefold_char(c: char) -> Seq<char> {
    if (c as u32) < 0x80 {
        seq![ascii_lowercase(c)]
    } else {
        unicode_lowercase(c)
    }
}

/// The casefolded form of a text: that of its characters, in order.
pub open spec fn casefold(text: Seq<char>) -> Seq<char> {
    text.map_values(|c: char| casefold_char(c)).flatten()
}

/// The normal form of a surface: decomposed, stripped of combining
/// diacritical marks, casefolded.
pub open spec fn normalized(surface: Seq<char>) -> Seq<char> {
    casefold(strip_marks(canonical_decomposition(surface)))
}

/// `String::push` appends one character.
pub assume_specification[ String::push ](text: &mut String, c: char)
    ensures
        final(text)@ == old(text)@.push(c),
;

/// `UnicodeNormalization::nfd` on a string slice yields its canonical
/// decomposition, collected here character by character.
#[verifier::external_body]
fn decompose(text: &str) -> (r: Vec<char>)
    ensures
        r@ == canonical_decomposition(text@),
{
    text.nfd().collect()
}

/// `char::to_lowercase` yields the lowercase mapping of `c`, one or more
/// characters, collected here in order.
#[verifier::external_body]
fn lowercase(c: char) -> (r: Vec<char>)
    ensures
        r@ == unicode_lowercase(c),
{
    c.to_lowercase().collect()
}

/// Stripping and folding a text extended by one character.
proof fn lemma_fold_push(text: Seq<char>, c: char)
    ensures
        casefold(strip_marks(text.push(c))) == if is_combining_mark(c) {
            casefold(strip_marks(text))
        } else {
            casefold(strip_marks(text)) + casefold_char(c)
        },
{
    let keep = |c: char| !is_combining_mark(c);
    let fold = |c: char| casefold_char(c);
    text.lemma_filter_push(c, keep);
    if !is_combining_mark(c) {
        let kept = text.filter(keep);
        assert(kept.push(c).map_values(fold) =~= kept.map_values(fold).push(casefold_char(c)));
        kept.map_values(fold).lemma_flatten_push(casefold_char(c));
    }
}

/// Appends `chars` to `out`, in order.
pub fn append_chars(out: &mut String, chars: &[char])
    ensures
        final(out)@ == old(out)@ + chars@,
{
    let mut k: usize = 0;
    assert(chars@.take(0) =~= Seq::<char>::empty());
    assert(out@ =~= old(out)@ + chars@.take(0));
    while k < chars.len()
        invariant
            k <= chars.len(),
            out@ == old(out)@ + chars@.take(k as int),
        decreases chars.len() - k,
    {
        out.push(chars[k]);
        assert(chars@.take(k as int + 1) =~= chars@.take(k as int).push(chars@[k as int]));
        assert(out@ =~= old(out)@ + chars@.take(k as int + 1));
        k += 1;
    }
    assert(chars@.take(k as int) =~= chars@);
}

/// Appends the casefolded form of `c` to `out`: an ASCII character is
/// lowercased directly, any other by its Unicode lowercase mapping.
pub fn push_folded(out: &mut String, c: char)
    ensures
        final(out)@ == old(out)@ + casefold_char(c),
{
    let code: u32 = c as u32;
    if code < 0x80 {
        let lower: char = if 'A' <= c && c <= 'Z' {
            ((code + 32) as u8) as char
        } else {
            c
        };
        out.push(lower);
        assert(out@ =~= old(out)@ + casefold_char(c));
    } else {
        let mapping = lowercase(c);
        append_chars(out, mapping.as_slice());
    }
}

/// Drops the combining diacritical marks of a text and casefolds what is
/// left.
pub fn strip_and_fold(text: &[char]) -> (r: String)
    ensures
        r@ == casefold(strip_marks(text@)),
{
    let mut out = String::new();
    let mut i: usize = 0;
    assert(text@.take(0) =~= Seq::<char>::empty());
    assert(casefold(strip_marks(Seq::<char>::empty())) =~= Seq::<char>::empty()) by {
        reveal(Seq::filter);
    }
    while i < text.len()
        invariant
            i <= text.len(),
            out@ == casefold(strip_marks(text@.take(i as int))),
        decreases text.len() - i,
    {
        let c: char = text[i];
        proof {
            assert(text@.take(i as int + 1) =~= text@.take(i as int).push(c));
            lemma_fold_push(text@.take(i as int), c);
        }
        let code: u32 = c as u32;
        if !(0x0300 <= code && code <= 0x036F) {
            push_folded(&mut out, c);
        }
        i += 1;
    }
    assert(text@.take(i as int) =~= text@);
    out
}

/// The normal form of a token's surface.
///
/// The surface is decomposed canonically, its combining diacritical marks
/// are dropped, and what is left is casefolded.
pub fn normalize(surface: &str) -> (r: String)
    ensures
        r@ == normalized(surface@),
{
    let decomposed = decompose(surface);
    strip_and_fold(decomposed.as_slice())
}

} // verus!
