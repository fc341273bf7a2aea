//! Text replies: decoding, whitespace and trimming.

use vstd::prelude::*;
use vstd::string::*;
use vstd::utf8::*;

verus! {

/// Whether `c` is white space: a character with the Unicode property
/// `White_Space`.
pub open spec fn is_whitespace(c: char) -> bool {
    let u = c as u32;
    ||| 0x09 <= u <= 0x0D
    ||| u == 0x20
    ||| u == 0x85
    ||| u == 0xA0
    ||| u == 0x1680
    ||| 0x2000 <= u <= 0x200A
    ||| u == 0x2028
    ||| u == 0x2029
    ||| u == 0x202F
    ||| u == 0x205F
    ||| u == 0x3000
}

/// `s` without the white space at its start.
pub open spec fn trimmed_start(s: Seq<char>) -> Seq<char>
    decreases s.len(),
{
    if s.len() > 0 && is_whitespace(s[0]) {
        trimmed_start(s.skip(1))
    } else {
        s
    }
}

/// `s` without the white space at its end.
pub open spec fn trimmed_end(s: Seq<char>) -> Seq<char>
    decreases s.len(),
{
    if s.len() > 0 && is_whitespace(s.last()) {
        trimmed_end(s.drop_last())
    } else {
        s
    }
}

/// `s` without the white space at its start and at its end.
pub open spec fn trimmed(s: Seq<char>) -> Seq<char> {
    trimmed_end(trimmed_start(s))
}

/// The text that a reply holds: its bytes read as UTF-8, and no text at all
/// where they are not UTF-8.
pub open spec fn text_of(response: Seq<u8>) -> Seq<char> {
    if valid_utf8(response) {
        decode_utf8(response)
    } else {
        Seq::empty()
    }
}

/// Tells whether `c` is white space.
pub fn is_space(c: char) -> (b: bool)
    ensures
        b == is_whitespace(c),
{
    let u: u32 = c as u32;
    (0x09 <= u && u <= 0x0D) || u == 0x20 || u == 0x85 || u == 0xA0 || u == 0x1680 || (0x2000 <= u
        && u <= 0x200A) || u == 0x2028 || u == 0x2029 || u == 0x202F || u == 0x205F || u == 0x3000
}

/// The characters of `text`, in order.
pub fn chars_of(text: &str) -> (chars: Vec<char>)
    ensures
        chars@ == text@,
{
    let mut chars: Vec<char> = Vec::new();
    for c in it: text.chars()
        invariant
            it.seq() == text@,
            chars@ == text@.take(it.index() as int),
    {
        chars.push(c);
    }
    chars
}

/// Where the trimmed part of `chars` starts and ends: the part from the
/// first index to the second, the second left out, is `chars` without the
/// white space at both ends.
pub fn trim_bounds(chars: &[char]) -> (bounds: (usize, usize))
    ensures
        bounds.0 <= bounds.1 <= chars@.len(),
        chars@.subrange(bounds.0 as int, bounds.1 as int) == trimmed(chars@),
{
    let n: usize = chars.len();
    let mut start: usize = 0;
    assert(chars@.skip(0) =~= chars@);
    while start < n && is_space(chars[start])
        invariant
            n == chars@.len(),
            start <= n,
            trimmed_start(chars@) == trimmed_start(chars@.skip(start as int)),
        decreases n - start,
    {
        assert(chars@.skip(start as int).skip(1) =~= chars@.skip(start as int + 1));
        start = start + 1;
    }
    assert(chars@.skip(start as int) =~= chars@.subrange(start as int, n as int));
    let mut end: usize = n;
    while end > start && is_space(chars[end - 1])
        invariant
            n == chars@.len(),
            start <= end <= n,
            trimmed(chars@) == trimmed_end(chars@.subrange(start as int, end as int)),
        decreases end,
    {
        assert(chars@.subrange(start as int, end as int).drop_last() =~= chars@.subrange(
            start as int,
            end as int - 1,
        ));
        end = end - 1;
    }
    (start, end)
}

/// `text` without the white space at its start and at its end.
pub fn trim(text: &str) -> (r: &str)
    ensures
        r@ == trimmed(text@),
{
    let chars: Vec<char> = chars_of(text);
    let (start, end) = trim_bounds(chars.as_slice());
    text.substring_char(start, end)
}

/// Reads bytes as UTF-8 with `core::str::from_utf8`, which is not verified
/// here. It is taken to give a string exactly for the byte sequences that
/// are well-formed UTF-8, and that string to be made of the very same bytes.
#[verifier::external_body]
fn utf8_str(bytes: &[u8]) -> (r: Option<&str>)
    ensures
        r is Some <==> valid_utf8(bytes@),
        r matches Some(s) ==> s.spec_bytes() == bytes@,
{
    core::str::from_utf8(bytes).ok()
}

/// The text of a text reply, without the white space around it.
///
/// A reply that is not UTF-8 reads as the empty text.
pub fn reply_text(response: &[u8]) -> (r: &str)
    ensures
        r@ == trimmed(text_of(response@)),
{
    broadcast use vstd::utf8::encode_utf8_decode_utf8;

    match utf8_str(response) {
        Some(text) => {
            assert(text@ == decode_utf8(text.spec_bytes()));
            trim(text)
        },
        None => {
            proof {
                reveal_strlit("");
            }
            assert(""@ =~= trimmed(Seq::<char>::empty()));
            ""
        },
    }
}

/// Trimming leaves no white space at either end, and a text that has none
/// there is left as it is; so trimming twice is trimming once.
pub proof fn lemma_trimmed_ends(s: Seq<char>)
    ensures
        trimmed(s).len() > 0 ==> !is_whitespace(trimmed(s)[0]) && !is_whitespace(
            trimmed(s).last(),
        ),
        s.len() > 0 && !is_whitespace(s[0]) && !is_whitespace(s.last()) ==> trimmed(s) == s,
        trimmed(trimmed(s)) == trimmed(s),
{
    lemma_trimmed_start(s);
    lemma_trimmed_end(trimmed_start(s));
    let t = trimmed(s);
    if t.len() > 0 {
        assert(trimmed_start(t) == t);
        assert(trimmed_end(t) == t);
    } else {
        assert(trimmed_start(t) == t);
    }
}

/// What trimming the start leaves is the end of the text, and does not
/// start with white space.
pub proof fn lemma_trimmed_start(s: Seq<char>)
    ensures
        trimmed_start(s).len() <= s.len(),
        trimmed_start(s) == s.skip(s.len() - trimmed_start(s).len()),
        trimmed_start(s).len() > 0 ==> !is_whitespace(trimmed_start(s)[0]),
        forall|i: int| 0 <= i < s.len() - trimmed_start(s).len() ==> is_whitespace(#[trigger] s[i]),
    decreases s.len(),
{
    if s.len() > 0 && is_whitespace(s[0]) {
        let rest = s.skip(1);
        lemma_trimmed_start(rest);
        let k = rest.len() - trimmed_start(rest).len();
        assert(rest.skip(k) =~= s.skip(k + 1));
        assert forall|i: int| 0 <= i < s.len() - trimmed_start(s).len() implies is_whitespace(
            #[trigger] s[i],
        ) by {
            if i > 0 {
                assert(s[i] == rest[i - 1]);
            }
        }
    } else {
        assert(s.skip(0) =~= s);
    }
}

/// What trimming the end leaves is the start of the text, and does not end
/// with white space.
pub proof fn lemma_trimmed_end(s: Seq<char>)
    ensures
        trimmed_end(s).len() <= s.len(),
        trimmed_end(s) == s.take(trimmed_end(s).len() as int),
        trimmed_end(s).len() > 0 ==> !is_whitespace(trimmed_end(s).last()),
        trimmed_end(s).len() > 0 ==> trimmed_end(s)[0] == s[0],
        forall|i: int| trimmed_end(s).len() <= i < s.len() ==> is_whitespace(#[trigger] s[i]),
    decreases s.len(),
{
    if s.len() > 0 && is_whitespace(s.last()) {
        let rest = s.drop_last();
        lemma_trimmed_end(rest);
        let k = trimmed_end(rest).len() as int;
        assert(rest.take(k) =~= s.take(k));
        assert forall|i: int| trimmed_end(s).len() <= i < s.len() implies is_whitespace(
            #[trigger] s[i],
        ) by {
            if i < s.len() - 1 {
                assert(s[i] == rest[i]);
            }
        }
    } else {
        assert(s.take(s.len() as int) =~= s);
    }
}

} // verus!
