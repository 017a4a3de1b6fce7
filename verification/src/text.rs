//! Texts: what messages are made of.

use vstd::prelude::*;
use vstd::string::*;

verus! {

/// Whether a character is white space: it has the Unicode property
/// `White_Space`.
pub open spec fn is_white_space(c: char) -> bool {
    ||| '\u{9}' <= c <= '\u{d}'
    ||| c == ' '
    ||| c == '\u{85}'
    ||| c == '\u{a0}'
    ||| c == '\u{1680}'
    ||| '\u{2000}' <= c <= '\u{200a}'
    ||| c == '\u{2028}'
    ||| c == '\u{2029}'
    ||| c == '\u{202f}'
    ||| c == '\u{205f}'
    ||| c == '\u{3000}'
}

/// A text without its trailing white space.
pub open spec fn trimmed_end(s: Seq<char>) -> Seq<char>
    decreases s.len(),
{
    if s.len() > 0 && is_white_space(s.last()) {
        trimmed_end(s.drop_last())
    } else {
        s
    }
}

/// Whether a character is white space.
pub fn white_space(c: char) -> (r: bool)
    ensures
        r == is_white_space(c),
{
    ('\u{9}' <= c && c <= '\u{d}') || c == ' ' || c == '\u{85}' || c == '\u{a0}' || c == '\u{1680}'
        || ('\u{2000}' <= c && c <= '\u{200a}') || c == '\u{2028}' || c == '\u{2029}' || c
        == '\u{202f}' || c == '\u{205f}' || c == '\u{3000}'
}

proof fn lemma_trimmed_end(s: Seq<char>, n: int)
    requires
        0 <= n <= s.len(),
        n > 0 ==> !is_white_space(s[n - 1]),
        forall|i: int| n <= i < s.len() ==> is_white_space(s[i]),
    ensures
        trimmed_end(s) == s.take(n),
    decreases s.len(),
{
    if n == s.len() {
        assert(s.take(n) =~= s);
    } else {
        lemma_trimmed_end(s.drop_last(), n);
        assert(s.drop_last().take(n) =~= s.take(n));
    }
}

/// A text without its trailing white space.
pub fn trim_end(s: &str) -> (r: &str)
    ensures
        r@ == trimmed_end(s@),
{
    let mut length: usize = 0;
    let count: usize = s.unicode_len();
    let mut i: usize = 0;
    for c in it: s.chars()
        invariant
            i == it.index(),
            length <= i,
            count == s@.len(),
            it.seq() == s@,
            length > 0 ==> !is_white_space(s@[length - 1]),
            forall|j: int| length <= j < i ==> is_white_space(s@[j]),
    {
        i += 1;
        if !white_space(c) {
            length = i;
        }
    }
    proof {
        lemma_trimmed_end(s@, length as int);
    }
    s.substring_char(0, length)
}

/// The text that `String::from_utf8_lossy` makes of a byte string.
pub uninterp spec fn lossy_text(bytes: Seq<u8>) -> Seq<char>;

/// The text that is displayed for a byte string: its characters where it is
/// valid UTF-8, and else what `String::from_utf8_lossy` makes of it.
pub open spec fn displayed(bytes: Seq<u8>) -> Seq<char> {
    if vstd::utf8::valid_utf8(bytes) {
        vstd::utf8::decode_utf8(bytes)
    } else {
        lossy_text(bytes)
    }
}

/// Decode a byte string with `String::from_utf8_lossy`.
///
/// Assumed of it: the text depends on the bytes alone, and bytes that are valid
/// UTF-8 are decoded as such. Which replacement characters stand for invalid
/// bytes is not stated.
#[verifier::external_body]
fn from_utf8_lossy(bytes: &[u8]) -> (r: String)
    ensures
        r@ == lossy_text(bytes@),
        vstd::utf8::valid_utf8(bytes@) ==> r@ == vstd::utf8::decode_utf8(bytes@),
{
    String::from_utf8_lossy(bytes).into_owned()
}

/// Whether `core::str::from_utf8` accepts a byte string.
///
/// Assumed of it: it accepts the byte strings that are valid UTF-8, and no
/// others.
#[verifier::external_body]
pub(crate) fn is_utf8(bytes: &[u8]) -> (r: bool)
    ensures
        r == vstd::utf8::valid_utf8(bytes@),
{
    core::str::from_utf8(bytes).is_ok()
}

/// The text that is displayed for a byte string.
pub fn display(bytes: &[u8]) -> (r: String)
    ensures
        r@ == displayed(bytes@),
{
    from_utf8_lossy(bytes)
}

/// The text that is displayed for the UTF-8 encoding of a text is that text.
pub proof fn displayed_text(text: Seq<char>)
    ensures
        displayed(vstd::utf8::encode_utf8(text)) == text,
{
    vstd::utf8::encode_utf8_valid_utf8(text);
    vstd::utf8::encode_utf8_decode_utf8(text);
}

/// Trimming a text cuts off nothing but white space, from behind, and all of it.
pub proof fn trimming_cuts_white_space(s: Seq<char>)
    ensures
        ({
            let t = trimmed_end(s);
            &&& t.is_prefix_of(s)
            &&& forall|i: int| t.len() <= i < s.len() ==> is_white_space(#[trigger] s[i])
            &&& t.len() > 0 ==> !is_white_space(t.last())
        }),
    decreases s.len(),
{
    if s.len() > 0 && is_white_space(s.last()) {
        trimming_cuts_white_space(s.drop_last());
        let t = trimmed_end(s);
        assert(s.drop_last().take(t.len() as int) =~= s.take(t.len() as int));
        assert forall|i: int| t.len() <= i < s.len() implies is_white_space(#[trigger] s[i]) by {
            if i < s.len() - 1 {
                assert(s[i] == s.drop_last()[i]);
            }
        }
    }
}

/// A byte string that is not valid UTF-8 is displayed just as
/// `String::from_utf8_lossy` decodes it.
pub proof fn invalid_text_is_decoded(bytes: Seq<u8>)
    requires
        !vstd::utf8::valid_utf8(bytes),
    ensures
        displayed(bytes) == lossy_text(bytes),
{
}

/// White space is made of these characters, and no others.
pub proof fn white_space_is_known(c: char)
    ensures
        is_white_space(c) <==> {
            ||| c == '\t'
            ||| c == '\n'
            ||| c == '\u{b}'
            ||| c == '\u{c}'
            ||| c == '\r'
            ||| c == ' '
            ||| c == '\u{85}'
            ||| c == '\u{a0}'
            ||| c == '\u{1680}'
            ||| c == '\u{2000}'
            ||| c == '\u{2001}'
            ||| c == '\u{2002}'
            ||| c == '\u{2003}'
            ||| c == '\u{2004}'
            ||| c == '\u{2005}'
            ||| c == '\u{2006}'
            ||| c == '\u{2007}'
            ||| c == '\u{2008}'
            ||| c == '\u{2009}'
            ||| c == '\u{200a}'
            ||| c == '\u{2028}'
            ||| c == '\u{2029}'
            ||| c == '\u{202f}'
            ||| c == '\u{205f}'
            ||| c == '\u{3000}'
        },
{
}

} // verus!
