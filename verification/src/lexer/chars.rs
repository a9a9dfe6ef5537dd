//! The characters of a source and the byte offsets at which they start.

use vstd::prelude::*;
use vstd::utf8::{encode_utf8, encode_scalar};
use super::spec::{utf8_width, byte_offset};

verus! {

proof fn lemma_scalar_width(x: char)
    ensures
        encode_scalar(x as u32).len() == utf8_width(x),
{
    broadcast use vstd::utf8::char_is_scalar;
    assert(vstd::utf8::is_scalar(x as u32));
}

proof fn lemma_encode_push(a: Seq<char>, x: char)
    ensures
        encode_utf8(a.push(x)).len() == encode_utf8(a).len() + utf8_width(x),
    decreases a.len(),
{
    lemma_scalar_width(x);
    if a.len() == 0 {
        assert(a.push(x).drop_first() =~= Seq::<char>::empty());
        assert(encode_utf8(Seq::<char>::empty()) =~= Seq::<u8>::empty());
    } else {
        assert(a.push(x).drop_first() =~= a.drop_first().push(x));
        lemma_encode_push(a.drop_first(), x);
    }
}

/// The byte offset of index `i` is the length of the UTF-8 encoding of the first `i` characters.
pub proof fn lemma_byte_offset_encode(c: Seq<char>, i: int)
    requires
        0 <= i <= c.len(),
    ensures
        byte_offset(c, i) == encode_utf8(c.take(i)).len(),
    decreases i,
{
    if i == 0 {
        assert(c.take(0) =~= Seq::<char>::empty());
        assert(encode_utf8(Seq::<char>::empty()) =~= Seq::<u8>::empty());
    } else {
        lemma_byte_offset_encode(c, i - 1);
        assert(c.take(i) =~= c.take(i - 1).push(c[i - 1]));
        lemma_encode_push(c.take(i - 1), c[i - 1]);
    }
}

/// Byte offsets never decrease with the index.
pub proof fn lemma_byte_offset_mono(c: Seq<char>, i: int, j: int)
    requires
        0 <= i <= j <= c.len(),
    ensures
        byte_offset(c, i) <= byte_offset(c, j),
        i < j ==> byte_offset(c, i) < byte_offset(c, j),
    decreases j - i,
{
    if i < j {
        lemma_byte_offset_mono(c, i, j - 1);
    }
}

/// The UTF-8 width of `ch` (std `char::len_utf8`).
pub fn utf8_width_of(ch: char) -> (w: usize)
    ensures
        w == utf8_width(ch),
{
    let u = ch as u32;
    if u <= 0x7F {
        1
    } else if u <= 0x7FF {
        2
    } else if u <= 0xFFFF {
        3
    } else {
        4
    }
}

/// The characters of `source`, and for every index `0..=len` the byte offset at which it starts.
pub fn chars_and_offsets(source: &str) -> (r: (Vec<char>, Vec<usize>))
    requires
        encode_utf8(source@).len() <= usize::MAX,
    ensures
        r.0@ == source@,
        r.1@.len() == source@.len() + 1,
        forall|k: int| 0 <= k <= source@.len() ==> r.1@[k] == byte_offset(source@, k),
        byte_offset(source@, source@.len() as int) <= usize::MAX,
{
    let mut chars: Vec<char> = Vec::new();
    for ch in it: source.chars()
        invariant
            it.seq() == source@,
            chars@ == it.seq().take(it.index() as int),
    {
        proof { assert(chars@.push(ch) =~= it.seq().take(it.index() + 1)); }
        chars.push(ch);
    }
    proof {
        assert(chars@ =~= source@);
        lemma_byte_offset_encode(source@, source@.len() as int);
        assert(source@.take(source@.len() as int) =~= source@);
    }
    let n = chars.len();
    let mut offsets: Vec<usize> = Vec::new();
    offsets.push(0);
    let mut i: usize = 0;
    let mut b: usize = 0;
    while i < n
        invariant
            n == chars@.len(),
            chars@ == source@,
            i <= n,
            b == byte_offset(source@, i as int),
            byte_offset(source@, n as int) <= usize::MAX,
            offsets@.len() == i + 1,
            forall|k: int| 0 <= k <= i ==> offsets@[k] == byte_offset(source@, k),
        decreases n - i,
    {
        proof { lemma_byte_offset_mono(source@, i as int + 1, n as int); }
        b = b + utf8_width_of(chars[i]);
        i = i + 1;
        offsets.push(b);
    }
    (chars, offsets)
}

} // verus!
