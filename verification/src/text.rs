//! Text as sequences of characters: whitespace, trimming, prefixes, and the
//! split of a buffer into newline-terminated lines.

use vstd::prelude::*;
use vstd::slice::slice_subrange;
use vstd::utf8::{decode_utf8, valid_utf8};

verus! {

/// Whether `c` carries the Unicode `White_Space` property.
pub open spec fn is_whitespace(c: char) -> bool {
    let code = c as u32;
    ||| 0x09 <= code <= 0x0D
    ||| code == 0x20
    ||| code == 0x85
    ||| code == 0xA0
    ||| code == 0x1680
    ||| 0x2000 <= code <= 0x200A
    ||| code == 0x2028
    ||| code == 0x2029
    ||| code == 0x202F
    ||| code == 0x205F
    ||| code == 0x3000
}

/// `s` without its trailing whitespace.
pub open spec fn trim_end(s: Seq<char>) -> Seq<char>
    decreases s.len(),
{
    if s.len() > 0 && is_whitespace(s.last()) {
        trim_end(s.drop_last())
    } else {
        s
    }
}

/// `s` without its leading whitespace.
pub open spec fn trim_start(s: Seq<char>) -> Seq<char>
    decreases s.len(),
{
    if s.len() > 0 && is_whitespace(s.first()) {
        trim_start(s.drop_first())
    } else {
        s
    }
}

/// `s` without its leading and trailing whitespace.
pub open spec fn trim(s: Seq<char>) -> Seq<char> {
    trim_end(trim_start(s))
}

/// The length of the longest prefix of `text` that holds no newline: the
/// index of the first newline, or the length of `text` where it has none.
pub open spec fn first_newline(text: Seq<char>) -> nat
    decreases text.len(),
{
    if text.len() == 0 || text[0] == '\n' {
        0
    } else {
        1 + first_newline(text.drop_first())
    }
}

/// Whether `text` holds a newline.
pub open spec fn has_newline(text: Seq<char>) -> bool {
    first_newline(text) < text.len()
}

/// The logical lines of `text`: each run of characters that a newline ends,
/// in order, without the newline. What follows the last newline is no line.
pub open spec fn complete_lines(text: Seq<char>) -> Seq<Seq<char>>
    decreases text.len(),
{
    let at = first_newline(text) as int;
    if at < text.len() {
        seq![text.take(at)] + complete_lines(text.skip(at + 1))
    } else {
        Seq::empty()
    }
}

/// What follows the last newline of `text`: the part that is not yet a line.
pub open spec fn remainder(text: Seq<char>) -> Seq<char>
    decreases text.len(),
{
    let at = first_newline(text) as int;
    if at < text.len() {
        remainder(text.skip(at + 1))
    } else {
        text
    }
}

/// `first_newline` stays within the text, no newline comes before it, and
/// where it lies inside the text a newline stands there.
pub proof fn lemma_first_newline(text: Seq<char>)
    ensures
        first_newline(text) <= text.len(),
        forall|k: int| 0 <= k < first_newline(text) ==> text[k] != '\n',
        first_newline(text) < text.len() ==> text[first_newline(text) as int] == '\n',
    decreases text.len(),
{
    if text.len() > 0 && text[0] != '\n' {
        let rest = text.drop_first();
        lemma_first_newline(rest);
        assert forall|k: int| 0 <= k < first_newline(text) implies text[k] != '\n' by {
            if k > 0 {
                assert(text[k] == rest[k - 1]);
            }
        }
    }
}

/// An index with no newline before it, which is the end of the text or holds
/// a newline, is `first_newline`.
pub proof fn lemma_first_newline_at(text: Seq<char>, at: int)
    requires
        0 <= at <= text.len(),
        forall|k: int| 0 <= k < at ==> text[k] != '\n',
        at < text.len() ==> text[at] == '\n',
    ensures
        first_newline(text) == at,
    decreases text.len(),
{
    if text.len() > 0 && text[0] != '\n' {
        let rest = text.drop_first();
        assert forall|k: int| 0 <= k < at - 1 implies rest[k] != '\n' by {
            assert(rest[k] == text[k + 1]);
        }
        lemma_first_newline_at(rest, at - 1);
    }
}

/// The remainder of a text holds no newline.
pub proof fn lemma_remainder_has_no_newline(text: Seq<char>)
    ensures
        !has_newline(remainder(text)),
    decreases text.len(),
{
    lemma_first_newline(text);
    let at = first_newline(text) as int;
    if at < text.len() {
        lemma_remainder_has_no_newline(text.skip(at + 1));
    }
}

/// Appending to a text leaves its lines in place: the lines of `head + tail`
/// are those of `head`, then those of what `head` left over followed by
/// `tail`; and the remainders agree likewise.
pub proof fn lemma_lines_of_concat(head: Seq<char>, tail: Seq<char>)
    ensures
        complete_lines(head + tail) == complete_lines(head) + complete_lines(
            remainder(head) + tail,
        ),
        remainder(head + tail) == remainder(remainder(head) + tail),
    decreases head.len(),
{
    lemma_first_newline(head);
    let at = first_newline(head) as int;
    if at < head.len() {
        let whole = head + tail;
        assert forall|k: int| 0 <= k < at implies whole[k] != '\n' by {
            assert(whole[k] == head[k]);
        }
        lemma_first_newline_at(whole, at);
        assert(whole.take(at) == head.take(at));
        assert(whole.skip(at + 1) == head.skip(at + 1) + tail);
        lemma_lines_of_concat(head.skip(at + 1), tail);
    }
}

/// Decides [`is_whitespace`].
pub fn char_is_whitespace(c: char) -> (r: bool)
    ensures
        r == is_whitespace(c),
{
    let code: u32 = c as u32;
    (0x09 <= code && code <= 0x0D) || code == 0x20 || code == 0x85 || code == 0xA0 || code
        == 0x1680 || (0x2000 <= code && code <= 0x200A) || code == 0x2028 || code == 0x2029
        || code == 0x202F || code == 0x205F || code == 0x3000
}

/// The characters of `text`, one element each.
pub fn chars_of(text: &str) -> (chars: Vec<char>)
    ensures
        chars@ == text@,
{
    let mut chars: Vec<char> = Vec::new();
    for c in it: text.chars()
        invariant
            it.seq() == text@,
            chars@ == it.seq().take(it.index()),
    {
        chars.push(c);
    }
    chars
}

/// `String::push`: the string grows by the one character, at its end.
pub assume_specification[ String::push ](text: &mut String, c: char)
    ensures
        final(text)@ == old(text)@.push(c),
;

/// What `String::from_utf8_lossy` makes of `bytes`: their text, with each
/// ill-formed run of bytes replaced by U+FFFD.
pub uninterp spec fn utf8_lossy(bytes: Seq<u8>) -> Seq<char>;

/// The text of a chunk of bytes under lenient decoding: well-formed UTF-8 is
/// decoded as it stands, anything else as `String::from_utf8_lossy` does.
pub open spec fn lenient_text(bytes: Seq<u8>) -> Seq<char> {
    if valid_utf8(bytes) {
        decode_utf8(bytes)
    } else {
        utf8_lossy(bytes)
    }
}

/// Decodes `bytes` with `String::from_utf8_lossy`, which never fails. The
/// contract names the outcome [`utf8_lossy`] and claims of it what the
/// documentation of that function says of well-formed input: it is decoded
/// as it stands.
#[verifier::external_body]
pub(crate) fn lossy_text(bytes: &[u8]) -> (text: String)
    ensures
        text@ == utf8_lossy(bytes@),
        valid_utf8(bytes@) ==> text@ == decode_utf8(bytes@),
{
    String::from_utf8_lossy(bytes).into_owned()
}

/// Decodes `bytes` with `String::from_utf8`, which accepts well-formed UTF-8
/// and nothing else.
#[verifier::external_body]
pub(crate) fn strict_text(bytes: Vec<u8>) -> (text: Option<String>)
    ensures
        text is Some == valid_utf8(bytes@),
        text matches Some(decoded) ==> decoded@ == decode_utf8(bytes@),
{
    String::from_utf8(bytes).ok()
}

/// Decodes `bytes` leniently as UTF-8.
pub fn decode_lenient(bytes: &[u8]) -> (text: String)
    ensures
        text@ == lenient_text(bytes@),
{
    lossy_text(bytes)
}

/// The string that holds exactly `chars`.
pub fn text_of(chars: &[char]) -> (text: String)
    ensures
        text@ == chars@,
{
    let mut text = String::new();
    let mut i: usize = 0;
    while i < chars.len()
        invariant
            i <= chars.len(),
            text@ == chars@.take(i as int),
        decreases chars.len() - i,
    {
        text.push(chars[i]);
        i += 1;
    }
    text
}

/// Whether the two slices hold the same characters.
pub fn same_text(left: &[char], right: &[char]) -> (same: bool)
    ensures
        same == (left@ == right@),
{
    if left.len() != right.len() {
        return false;
    }
    let mut i: usize = 0;
    while i < left.len()
        invariant
            left.len() == right.len(),
            i <= left.len(),
            left@.take(i as int) == right@.take(i as int),
        decreases left.len() - i,
    {
        if left[i] != right[i] {
            return false;
        }
        i += 1;
    }
    assert(left@.take(i as int) == left@);
    assert(right@.take(i as int) == right@);
    true
}

/// Whether `chars` begins with `prefix`.
pub fn has_prefix(chars: &[char], prefix: &[char]) -> (found: bool)
    ensures
        found == prefix@.is_prefix_of(chars@),
{
    if prefix.len() > chars.len() {
        return false;
    }
    same_text(slice_subrange(chars, 0, prefix.len()), prefix)
}

/// [`trim_end`] on a slice.
pub fn trimmed_end<'a>(chars: &'a [char]) -> (kept: &'a [char])
    ensures
        kept@ == trim_end(chars@),
{
    let mut end: usize = chars.len();
    assert(chars@.take(end as int) == chars@);
    while end > 0 && char_is_whitespace(chars[end - 1])
        invariant
            end <= chars.len(),
            trim_end(chars@) == trim_end(chars@.take(end as int)),
        decreases end,
    {
        assert(chars@.take(end as int).drop_last() == chars@.take(end - 1));
        end -= 1;
    }
    slice_subrange(chars, 0, end)
}

/// [`trim_start`] on a slice.
pub fn trimmed_start<'a>(chars: &'a [char]) -> (kept: &'a [char])
    ensures
        kept@ == trim_start(chars@),
{
    let mut start: usize = 0;
    assert(chars@.skip(0) == chars@);
    while start < chars.len() && char_is_whitespace(chars[start])
        invariant
            start <= chars.len(),
            trim_start(chars@) == trim_start(chars@.skip(start as int)),
        decreases chars.len() - start,
    {
        assert(chars@.skip(start as int).drop_first() == chars@.skip(start + 1));
        start += 1;
    }
    slice_subrange(chars, start, chars.len())
}

/// [`trim`] on a slice.
pub fn trimmed<'a>(chars: &'a [char]) -> (kept: &'a [char])
    ensures
        kept@ == trim(chars@),
{
    trimmed_end(trimmed_start(chars))
}

/// The index of the first newline of `chars` at or after `from`, or the
/// length of `chars` where none follows.
pub fn find_newline(chars: &[char], from: usize) -> (at: usize)
    requires
        from <= chars.len(),
    ensures
        at == from + first_newline(chars@.skip(from as int)),
        from <= at <= chars.len(),
{
    let mut at: usize = from;
    while at < chars.len() && chars[at] != '\n'
        invariant
            from <= at <= chars.len(),
            forall|k: int| from <= k < at ==> chars@[k] != '\n',
        decreases chars.len() - at,
    {
        at += 1;
    }
    proof {
        lemma_first_newline_at(chars@.skip(from as int), at - from);
    }
    at
}

} // verus!
