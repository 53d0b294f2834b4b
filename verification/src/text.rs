//! Text helpers shared by the frame reader and the decoders: UTF-8, Unicode
//! whitespace and trimming.

use vstd::prelude::*;
use vstd::utf8::{decode_utf8, valid_utf8};

verus! {

/// Whether `c` has the Unicode property `White_Space`.
pub open spec fn is_whitespace(c: char) -> bool {
    let u = c as u32;
    ||| 0x0009 <= u <= 0x000D
    ||| u == 0x0020
    ||| u == 0x0085
    ||| u == 0x00A0
    ||| u == 0x1680
    ||| 0x2000 <= u <= 0x200A
    ||| u == 0x2028
    ||| u == 0x2029
    ||| u == 0x202F
    ||| u == 0x205F
    ||| u == 0x3000
}

/// The number of whitespace characters at the start of `s`.
pub open spec fn leading_whitespace(s: Seq<char>) -> nat
    decreases s.len(),
{
    if s.len() > 0 && is_whitespace(s[0]) {
        1 + leading_whitespace(s.skip(1))
    } else {
        0
    }
}

/// The number of whitespace characters at the end of `s`.
pub open spec fn trailing_whitespace(s: Seq<char>) -> nat
    decreases s.len(),
{
    if s.len() > 0 && is_whitespace(s.last()) {
        1 + trailing_whitespace(s.drop_last())
    } else {
        0
    }
}

/// `s` without the whitespace at its start and at its end.
pub open spec fn trimmed(s: Seq<char>) -> Seq<char> {
    let start = leading_whitespace(s);
    let stop = s.len() - trailing_whitespace(s);
    if start >= stop {
        Seq::empty()
    } else {
        s.subrange(start as int, stop)
    }
}

/// Whitespace counted from the start stops at the first other character.
pub proof fn lemma_leading_whitespace(s: Seq<char>, n: int)
    requires
        0 <= n <= s.len(),
        forall|i: int| 0 <= i < n ==> is_whitespace(#[trigger] s[i]),
        n < s.len() ==> !is_whitespace(s[n]),
    ensures
        leading_whitespace(s) == n,
    decreases n,
{
    if n > 0 {
        let rest = s.skip(1);
        assert forall|i: int| 0 <= i < n - 1 implies is_whitespace(#[trigger] rest[i]) by {
            assert(rest[i] == s[i + 1]);
        }
        lemma_leading_whitespace(rest, n - 1);
    }
}

/// Whitespace counted from the end stops at the last other character.
pub proof fn lemma_trailing_whitespace(s: Seq<char>, n: int)
    requires
        0 <= n <= s.len(),
        forall|i: int| s.len() - n <= i < s.len() ==> is_whitespace(#[trigger] s[i]),
        n < s.len() ==> !is_whitespace(s[s.len() - n - 1]),
    ensures
        trailing_whitespace(s) == n,
    decreases n,
{
    if n > 0 {
        let rest = s.drop_last();
        assert forall|i: int| rest.len() - (n - 1) <= i < rest.len() implies is_whitespace(
            #[trigger] rest[i],
        ) by {
            assert(rest[i] == s[i]);
        }
        lemma_trailing_whitespace(rest, n - 1);
    }
}

/// Whether `c` is Unicode whitespace.
pub fn char_is_whitespace(c: char) -> (r: bool)
    ensures
        r == is_whitespace(c),
{
    let u: u32 = c as u32;
    (0x0009 <= u && u <= 0x000D) || u == 0x0020 || u == 0x0085 || u == 0x00A0 || u == 0x1680 || (
    0x2000 <= u && u <= 0x200A) || u == 0x2028 || u == 0x2029 || u == 0x202F || u == 0x205F || u
        == 0x3000
}

/// Whether `line`, without the whitespace around it, reads exactly `tag`.
pub fn trimmed_equals(line: &Vec<char>, tag: &Vec<char>) -> (r: bool)
    ensures
        r == (trimmed(line@) == tag@),
{
    let len = line.len();
    let mut start: usize = 0;
    while start < len && char_is_whitespace(line[start])
        invariant
            start <= len == line@.len(),
            forall|i: int| 0 <= i < start ==> is_whitespace(#[trigger] line@[i]),
        decreases len - start,
    {
        start += 1;
    }
    let mut stop: usize = len;
    while stop > start && char_is_whitespace(line[stop - 1])
        invariant
            start <= stop <= len == line@.len(),
            forall|i: int| stop <= i < len ==> is_whitespace(#[trigger] line@[i]),
        decreases stop,
    {
        stop -= 1;
    }
    proof {
        lemma_leading_whitespace(line@, start as int);
        if start == len {
            // the whole line is whitespace
            assert(trailing_whitespace(line@) <= line@.len()) by {
                lemma_trailing_bound(line@);
            }
        } else {
            lemma_trailing_whitespace(line@, len - stop);
        }
    }
    if stop - start != tag.len() {
        return false;
    }
    let mut i: usize = 0;
    while i < tag.len()
        invariant
            i <= tag@.len() == stop - start,
            start <= stop <= line@.len(),
            forall|k: int| 0 <= k < i ==> line@[start + k] == tag@[k],
            start < stop ==> trimmed(line@) == line@.subrange(start as int, stop as int),
        decreases tag@.len() - i,
    {
        if line[start + i] != tag[i] {
            proof {
                let mid = line@.subrange(start as int, stop as int);
                assert(mid[i as int] != tag@[i as int]);
            }
            return false;
        }
        i += 1;
    }
    proof {
        if start < stop {
            assert(line@.subrange(start as int, stop as int) =~= tag@);
        } else {
            assert(tag@ =~= Seq::<char>::empty());
        }
    }
    true
}

/// No more characters are whitespace than there are characters.
pub proof fn lemma_trailing_bound(s: Seq<char>)
    ensures
        trailing_whitespace(s) <= s.len(),
    decreases s.len(),
{
    if s.len() > 0 && is_whitespace(s.last()) {
        lemma_trailing_bound(s.drop_last());
    }
}

/// The characters of `text`, one by one.
pub fn chars_of(text: &str) -> (r: Vec<char>)
    ensures
        r@ == text@,
{
    let mut out: Vec<char> = Vec::new();
    for c in it: text.chars()
        invariant
            out@ == it.seq().take(it.index()),
            it.seq() == text@,
    {
        out.push(c);
    }
    out
}

/// The text that `bytes` hold, where they are well-formed UTF-8.
///
/// Calls `std::str::from_utf8`, which accepts exactly the well-formed byte
/// sequences and then returns the text that they encode.
#[verifier::external_body]
pub(crate) fn utf8_text(bytes: &[u8]) -> (r: Option<&str>)
    ensures
        r is Some == valid_utf8(bytes@),
        r matches Some(text) ==> text@ == decode_utf8(bytes@),
{
    std::str::from_utf8(bytes).ok()
}

} // verus!
