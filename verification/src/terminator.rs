//! The foreign string convention: text ends at the first zero byte.

use vstd::prelude::*;
use vstd::utf8::*;

verus! {

/// True when no byte of `bytes` is the terminator.
pub open spec fn terminator_free(bytes: Seq<u8>) -> bool {
    forall|i: int| 0 <= i < bytes.len() ==> bytes[i] != 0u8
}

/// The number of bytes that a foreign reader takes from `bytes`: those in
/// front of the first zero byte, or all of them when there is none.
pub open spec fn c_str_len(bytes: Seq<u8>) -> nat
    decreases bytes.len(),
{
    if bytes.len() == 0 || bytes[0] == 0u8 {
        0
    } else {
        1 + c_str_len(bytes.drop_first())
    }
}

/// What a foreign reader takes from `bytes`.
pub open spec fn c_str(bytes: Seq<u8>) -> Seq<u8> {
    bytes.take(c_str_len(bytes) as int)
}

/// `c_str_len` stops inside the sequence, at a terminator if there is one,
/// and passes over none.
pub proof fn lemma_c_str_len(bytes: Seq<u8>)
    ensures
        c_str_len(bytes) <= bytes.len(),
        terminator_free(c_str(bytes)),
        c_str_len(bytes) < bytes.len() ==> bytes[c_str_len(bytes) as int] == 0u8,
    decreases bytes.len(),
{
    if bytes.len() == 0 || bytes[0] == 0u8 {
    } else {
        let rest = bytes.drop_first();
        lemma_c_str_len(rest);
        let taken = c_str(bytes);
        assert forall|i: int| 0 <= i < taken.len() implies taken[i] != 0u8 by {
            if i > 0 {
                assert(taken[i] == c_str(rest)[i - 1]);
            }
        }
    }
}

/// The only position that is at a terminator or at the end, with no
/// terminator in front of it, is `c_str_len`.
pub proof fn lemma_c_str_len_is(bytes: Seq<u8>, n: int)
    requires
        0 <= n <= bytes.len(),
        terminator_free(bytes.take(n)),
        n < bytes.len() ==> bytes[n] == 0u8,
    ensures
        c_str_len(bytes) == n,
    decreases bytes.len(),
{
    if bytes.len() == 0 {
    } else if bytes[0] == 0u8 {
        if n > 0 {
            assert(bytes.take(n)[0] == 0u8);
        }
    } else {
        let rest = bytes.drop_first();
        let front = rest.take(n - 1);
        assert forall|i: int| 0 <= i < front.len() implies front[i] != 0u8 by {
            assert(front[i] == bytes.take(n)[i + 1]);
        }
        lemma_c_str_len_is(rest, n - 1);
    }
}

/// Text without a terminator is read by the foreign side in full, and a
/// terminator appended to it is where the reading stops.
pub proof fn lemma_c_str_of_terminated(data: Seq<u8>)
    requires
        terminator_free(data),
    ensures
        c_str(data) == data,
        c_str(data.push(0u8)) == data,
{
    assert(data.take(data.len() as int) =~= data);
    lemma_c_str_len_is(data, data.len() as int);
    assert(data.push(0u8).take(data.len() as int) =~= data);
    lemma_c_str_len_is(data.push(0u8), data.len() as int);
}

/// True when no character of `text` is NUL.
pub open spec fn nul_free(text: Seq<char>) -> bool {
    forall|i: int| 0 <= i < text.len() ==> text[i] != '\0'
}

/// In UTF-8 a zero byte stands for the character NUL and for nothing else:
/// the encoding of a text is free of terminators exactly when the text is
/// free of NUL characters.
pub proof fn lemma_terminator_free_text(text: Seq<char>)
    ensures
        terminator_free(encode_utf8(text)) <==> nul_free(text),
    decreases text.len(),
{
    if text.len() == 0 {
    } else {
        let head = encode_scalar(text[0] as u32);
        let rest = text.drop_first();
        let tail = encode_utf8(rest);
        lemma_terminator_free_text(rest);
        lemma_scalar_terminator(text[0] as u32);
        assert(text[0] as u32 == 0 <==> text[0] == '\0') by {
            char_u32_cast(text[0], text[0] as u32);
            char_u32_cast('\0', 0u32);
        }
        assert(encode_utf8(text) == head + tail);
        if nul_free(text) {
            assert(text[0] != '\0');
            assert forall|i: int| 0 <= i < rest.len() implies rest[i] != '\0' by {
                assert(rest[i] == text[i + 1]);
            }
            assert forall|i: int| 0 <= i < (head + tail).len() implies (head + tail)[i]
                != 0u8 by {
                if i < head.len() {
                    assert((head + tail)[i] == head[i]);
                } else {
                    assert((head + tail)[i] == tail[i - head.len()]);
                }
            }
        }
        if terminator_free(head + tail) {
            assert forall|i: int| 0 <= i < head.len() implies head[i] != 0u8 by {
                assert(head[i] == (head + tail)[i]);
            }
            assert forall|i: int| 0 <= i < tail.len() implies tail[i] != 0u8 by {
                assert(tail[i] == (head + tail)[i + head.len()]);
            }
            assert forall|i: int| 0 <= i < text.len() implies text[i] != '\0' by {
                if i > 0 {
                    assert(text[i] == rest[i - 1]);
                }
            }
        }
    }
}

/// The encoding of a single scalar holds a zero byte exactly when the
/// scalar is zero.
proof fn lemma_scalar_terminator(scalar: u32)
    ensures
        terminator_free(encode_scalar(scalar)) <==> scalar != 0,
{
    assert(scalar <= 0x7F ==> (((scalar & 0x7F) as u8) == 0u8 <==> scalar == 0)) by (bit_vector);
    assert((0xC0u8 | ((scalar >> 6) & 0x1F) as u8) != 0u8) by (bit_vector);
    assert((0xE0u8 | ((scalar >> 12) & 0x0F) as u8) != 0u8) by (bit_vector);
    assert((0xF0u8 | ((scalar >> 18) & 0x7) as u8) != 0u8) by (bit_vector);
    assert((0x80u8 | (scalar & 0x3F) as u8) != 0u8) by (bit_vector);
    assert((0x80u8 | ((scalar >> 6) & 0x3F) as u8) != 0u8) by (bit_vector);
    assert((0x80u8 | ((scalar >> 12) & 0x3F) as u8) != 0u8) by (bit_vector);
    let bytes = encode_scalar(scalar);
    if scalar == 0 {
        assert(bytes[0] == 0u8);
    }
}

/// Finds where a foreign reader would stop in `bytes`.
pub fn find_terminator(bytes: &[u8]) -> (n: usize)
    ensures
        n == c_str_len(bytes@),
        n <= bytes@.len(),
        n == bytes@.len() <==> terminator_free(bytes@),
{
    let mut i: usize = 0;
    while i < bytes.len() && bytes[i] != 0u8
        invariant
            i <= bytes@.len(),
            terminator_free(bytes@.take(i as int)),
        decreases bytes@.len() - i,
    {
        proof {
            let longer = bytes@.take(i + 1);
            assert forall|j: int| 0 <= j < longer.len() implies longer[j] != 0u8 by {
                if j < i {
                    assert(longer[j] == bytes@.take(i as int)[j]);
                }
            }
        }
        i += 1;
    }
    proof {
        lemma_c_str_len_is(bytes@, i as int);
        assert(bytes@.take(bytes@.len() as int) =~= bytes@);
    }
    i
}

} // verus!
