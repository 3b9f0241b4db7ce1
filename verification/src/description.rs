//! Rendering an error into a terminated byte buffer that is handed over to
//! the foreign caller.

use crate::taxonomy::ErrorTaxonomy;
use crate::trusted::try_reserve_exact;
use vstd::prelude::*;
use vstd::string::*;
use vstd::utf8::*;

verus! {

/// The terminated form of `text` that the foreign side reads: its UTF-8
/// encoding followed by one zero byte.
pub open spec fn terminated(text: Seq<char>) -> Seq<u8> {
    encode_utf8(text).push(0u8)
}

impl ErrorTaxonomy {
    /// The human-readable description of the error.
    pub open spec fn description(self) -> Seq<char> {
        match self {
            ErrorTaxonomy::ReadOnlyViolation => "cannot write to read-only database"@,
            ErrorTaxonomy::IOFailure(message) => "I/O Error: "@ + message@,
            ErrorTaxonomy::CorruptionDetected(diagnostic) => "File corrupted, run repair: "@
                + diagnostic@,
        }
    }

    /// Formats the description of the error as native text.
    pub fn render(&self) -> (text: String)
        ensures
            text@ == self.description(),
    {
        match self {
            ErrorTaxonomy::ReadOnlyViolation => "cannot write to read-only database".to_owned(),
            ErrorTaxonomy::IOFailure(message) => {
                let mut text = "I/O Error: ".to_owned();
                text.append(message.as_str());
                text
            },
            ErrorTaxonomy::CorruptionDetected(diagnostic) => {
                let mut text = "File corrupted, run repair: ".to_owned();
                text.append(diagnostic.as_str());
                text
            },
        }
    }
}

/// A description that has left the renderer: UTF-8 text followed by exactly
/// one terminating zero byte.
///
/// Whoever receives the buffer owns it exclusively. The renderer keeps no
/// reference to it and never reads it again. Releasing the buffer is the
/// receiver's duty: once its bytes have been handed to a foreign caller,
/// that caller must release them exactly once, with the primitive that
/// matches the allocation, and must not touch them afterwards.
pub struct OwnedDescriptionBuffer {
    bytes: Vec<u8>,
}

impl View for OwnedDescriptionBuffer {
    type V = Seq<u8>;

    closed spec fn view(&self) -> Seq<u8> {
        self.bytes@
    }
}

impl OwnedDescriptionBuffer {
    #[verifier::type_invariant]
    spec fn well_formed(self) -> bool {
        exists|text: Seq<char>| self.bytes@ == terminated(text)
    }

    /// The text that the buffer carries, without its terminator.
    pub open spec fn text(self) -> Seq<char> {
        decode_utf8(self@.drop_last())
    }

    /// The number of bytes in the buffer, terminator included.
    pub fn len(&self) -> (n: usize)
        ensures
            n == self@.len(),
            self@ == terminated(self.text()),
    {
        proof {
            use_type_invariant(self);
            lemma_terminated_text(self@);
        }
        self.bytes.len()
    }

    /// The bytes of the buffer, terminator included.
    pub fn as_bytes(&self) -> (bytes: &[u8])
        ensures
            bytes@ == self@,
            self@ == terminated(self.text()),
    {
        proof {
            use_type_invariant(self);
            lemma_terminated_text(self@);
        }
        self.bytes.as_slice()
    }

    /// Gives up the buffer and hands its bytes to the caller.
    pub fn into_bytes(self) -> (bytes: Vec<u8>)
        ensures
            bytes@ == self@,
            self@ == terminated(self.text()),
    {
        proof {
            use_type_invariant(&self);
            lemma_terminated_text(self@);
        }
        self.bytes
    }
}

/// A terminated buffer determines its text: dropping the terminator and
/// decoding gives back what was encoded.
pub proof fn lemma_terminated_text(bytes: Seq<u8>)
    requires
        exists|text: Seq<char>| bytes == terminated(text),
    ensures
        bytes == terminated(decode_utf8(bytes.drop_last())),
        bytes.len() == encode_utf8(decode_utf8(bytes.drop_last())).len() + 1,
        bytes.last() == 0,
{
    let text = choose|text: Seq<char>| bytes == terminated(text);
    assert(bytes.drop_last() =~= encode_utf8(text));
    encode_utf8_decode_utf8(text);
}

/// True when `needle` stands somewhere in `haystack`, element for element.
pub open spec fn occurs_in<T>(needle: Seq<T>, haystack: Seq<T>) -> bool {
    exists|at: int|
        0 <= at && at + needle.len() <= haystack.len() && #[trigger] haystack.subrange(
            at,
            at + needle.len(),
        ) == needle
}

/// Encoding goes piece by piece: the encoding of two texts put together is
/// their encodings put together.
pub proof fn lemma_encode_utf8_concat(front: Seq<char>, back: Seq<char>)
    ensures
        encode_utf8(front + back) == encode_utf8(front) + encode_utf8(back),
    decreases front.len(),
{
    if front.len() == 0 {
        assert(front + back =~= back);
        assert(encode_utf8(front) + encode_utf8(back) =~= encode_utf8(back));
    } else {
        assert((front + back).drop_first() =~= front.drop_first() + back);
        lemma_encode_utf8_concat(front.drop_first(), back);
        assert(encode_utf8(front + back) =~= encode_utf8(front) + encode_utf8(back));
    }
}

/// The payload of an error survives rendering: the wrapped message of an
/// I/O failure and the diagnostic of a corruption stand verbatim in the
/// description, and their bytes stand verbatim in the terminated buffer.
pub proof fn lemma_description_carries_payload(error: ErrorTaxonomy)
    ensures
        error matches ErrorTaxonomy::IOFailure(message) ==> occurs_in(
            message@,
            error.description(),
        ) && occurs_in(encode_utf8(message@), terminated(error.description())),
        error matches ErrorTaxonomy::CorruptionDetected(diagnostic) ==> occurs_in(
            diagnostic@,
            error.description(),
        ) && occurs_in(encode_utf8(diagnostic@), terminated(error.description())),
{
    match error {
        ErrorTaxonomy::ReadOnlyViolation => {},
        ErrorTaxonomy::IOFailure(message) => {
            lemma_suffix_occurs("I/O Error: "@, message@);
        },
        ErrorTaxonomy::CorruptionDetected(diagnostic) => {
            lemma_suffix_occurs("File corrupted, run repair: "@, diagnostic@);
        },
    }
}

/// Text that is put behind a headline occurs in the whole, and so do its
/// bytes in the terminated encoding of the whole.
proof fn lemma_suffix_occurs(headline: Seq<char>, payload: Seq<char>)
    ensures
        occurs_in(payload, headline + payload),
        occurs_in(encode_utf8(payload), terminated(headline + payload)),
{
    let whole = headline + payload;
    let start = headline.len() as int;
    assert(whole.subrange(start, start + payload.len()) =~= payload);
    lemma_encode_utf8_concat(headline, payload);
    let at = encode_utf8(headline).len() as int;
    let bytes = encode_utf8(payload);
    assert(terminated(whole).subrange(at, at + bytes.len()) =~= bytes);
}

/// Copies `text` into `storage` and terminates it.
///
/// `storage` is what the allocator answered when it was asked for room for
/// the buffer: `None` when it had none to give. Anything that `storage`
/// still holds is discarded.
pub fn terminate_in(text: &str, storage: Option<Vec<u8>>) -> (buffer: Option<
    OwnedDescriptionBuffer,
>)
    ensures
        buffer is Some <==> storage is Some,
        buffer matches Some(b) ==> b@ == terminated(text@),
{
    match storage {
        None => None,
        Some(mut bytes) => {
            let source = text.as_bytes();
            bytes.clear();
            let mut i: usize = 0;
            while i < source.len()
                invariant
                    i <= source@.len(),
                    bytes@ == source@.take(i as int),
                decreases source@.len() - i,
            {
                bytes.push(source[i]);
                i += 1;
            }
            bytes.push(0u8);
            assert(bytes@ == terminated(text@)) by {
                assert(source@.take(source@.len() as int) =~= source@);
            }
            Some(OwnedDescriptionBuffer { bytes })
        },
    }
}

/// Renders `error` into a freshly allocated buffer of exactly as many
/// bytes as its description has, plus one for the terminator.
///
/// Returns `None` only when the allocator could not provide the storage.
/// There is no other failure, and the error itself is left untouched.
pub fn describe(error: &ErrorTaxonomy) -> (buffer: Option<OwnedDescriptionBuffer>)
    ensures
        buffer matches Some(b) ==> b@ == terminated(error.description()),
{
    let text = error.render();
    let storage = allocate(text.as_str().len());
    terminate_in(text.as_str(), storage)
}

/// Asks the allocator for room for `text_len` bytes and a terminator.
fn allocate(text_len: usize) -> (storage: Option<Vec<u8>>)
    ensures
        storage matches Some(bytes) ==> bytes@.len() == 0,
{
    match text_len.checked_add(1) {
        None => None,
        Some(size) => {
            let mut bytes: Vec<u8> = Vec::new();
            if try_reserve_exact(&mut bytes, size) {
                Some(bytes)
            } else {
                None
            }
        },
    }
}

} // verus!
