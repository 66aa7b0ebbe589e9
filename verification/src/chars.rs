//! Moving between strings and sequences of characters, and the UTF-8 width
//! of a prefix.

use vstd::prelude::*;
use vstd::utf8::*;

verus! {

/// Appends one character to a string. This is `String::push` of the standard
/// library, which is documented to append the given `char` to the end of the
/// string; nothing here proves it.
#[verifier::external_body]
pub(crate) fn push_char(s: &mut String, c: char)
    ensures
        final(s)@ == old(s)@.push(c),
{
    s.push(c);
}

/// The characters of a string, in order.
pub fn chars_of(s: &str) -> (v: Vec<char>)
    ensures
        v@ == s@,
{
    let mut v: Vec<char> = Vec::new();
    for c in it: s.chars()
        invariant
            it.seq() == s@,
            v@ == it.seq().take(it.index() as int),
    {
        v.push(c);
    }
    v
}

/// The number of bytes that the UTF-8 encoding of `s` takes.
pub open spec fn byte_len(s: Seq<char>) -> nat {
    encode_utf8(s).len()
}

/// The number of bytes that the UTF-8 encoding of `c` takes: 1 to 4.
pub open spec fn char_width(c: char) -> nat {
    encode_scalar(c as u32).len()
}

/// Encoding a sequence with one more character appends that character's
/// encoding.
pub proof fn lemma_encode_push(s: Seq<char>, c: char)
    ensures
        encode_utf8(s.push(c)) == encode_utf8(s) + encode_scalar(c as u32),
    decreases s.len(),
{
    if s.len() == 0 {
        assert(s.push(c).drop_first() =~= s);
        assert(encode_utf8(s) =~= Seq::<u8>::empty());
        assert(encode_utf8(s.push(c)) =~= encode_scalar(c as u32) + encode_utf8(s));
    } else {
        assert(s.push(c).drop_first() =~= s.drop_first().push(c));
        lemma_encode_push(s.drop_first(), c);
        assert(encode_utf8(s.push(c)) =~= encode_utf8(s) + encode_scalar(c as u32));
    }
}

/// A longer prefix never encodes to fewer bytes.
pub proof fn lemma_byte_len_prefix(s: Seq<char>, i: int, j: int)
    requires
        0 <= i <= j <= s.len(),
    ensures
        byte_len(s.take(i)) <= byte_len(s.take(j)),
        j < s.len() ==> byte_len(s.take(j + 1)) == byte_len(s.take(j)) + char_width(s[j]),
    decreases j - i,
{
    if j < s.len() {
        assert(s.take(j + 1) =~= s.take(j).push(s[j]));
        lemma_encode_push(s.take(j), s[j]);
    }
    if i < j {
        lemma_byte_len_prefix(s, i, j - 1);
    }
}

/// Every character takes a byte at least.
pub proof fn lemma_byte_len_at_least(s: Seq<char>)
    ensures
        s.len() <= byte_len(s),
    decreases s.len(),
{
    if s.len() > 0 {
        lemma_byte_len_at_least(s.drop_last());
        assert(s =~= s.drop_last().push(s.last()));
        lemma_encode_push(s.drop_last(), s.last());
        char_is_scalar(s.last());
    }
}

/// The UTF-8 width of one character.
pub fn len_utf8(c: char) -> (n: usize)
    ensures
        n == char_width(c),
        1 <= n <= 4,
{
    let code: u32 = c as u32;
    proof {
        char_is_scalar(c);
    }
    if code < 0x80 {
        1
    } else if code < 0x800 {
        2
    } else if code < 0x10000 {
        3
    } else {
        4
    }
}

/// The byte offset at which the character with index `i` starts (the length
/// of the whole encoding for `i == chars.len()`).
pub(crate) fn byte_offset(chars: &Vec<char>, i: usize) -> (n: usize)
    requires
        i <= chars.len(),
        byte_len(chars@) <= usize::MAX,
    ensures
        n == byte_len(chars@.take(i as int)),
{
    let mut n: usize = 0;
    let mut k: usize = 0;
    proof {
        assert(chars@.take(0) =~= Seq::<char>::empty());
    }
    while k < i
        invariant
            k <= i <= chars.len(),
            byte_len(chars@) <= usize::MAX,
            n == byte_len(chars@.take(k as int)),
        decreases i - k,
    {
        let width: usize = len_utf8(chars[k]);
        proof {
            lemma_byte_len_prefix(chars@, k as int, k as int);
            lemma_byte_len_prefix(chars@, k as int + 1, chars@.len() as int);
            assert(chars@.take(chars@.len() as int) =~= chars@);
        }
        n += width;
        k += 1;
    }
    n
}

} // verus!
