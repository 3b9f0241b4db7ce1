//! The last-error channel: one side deposits a message, the other collects
//! it later through a buffer of bounded size.
//!
//! The channel is a value that the caller owns and passes in, so that every
//! execution context can have one of its own.

use crate::description::terminated;
use crate::terminator::{
    c_str, find_terminator, lemma_c_str_len, lemma_c_str_of_terminated, terminator_free,
};
use crate::trusted::string_from_utf8;
use vstd::prelude::*;
use vstd::utf8::*;

verus! {

/// The outgoing text holds a zero byte, which the foreign string convention
/// reserves for the terminator.
#[derive(Clone, Copy, Debug, PartialEq, Eq, Structural)]
pub struct EncodingFailure;

/// Why a message could not be collected.
#[derive(Clone, Copy, Debug, PartialEq, Eq, Structural)]
pub enum FetchFailure {
    /// The bytes that came back are not terminated UTF-8 text.
    DecodingFailure,
    /// The message filled the writable part of the buffer, so its end may
    /// have been cut off.
    Truncated,
}

/// Converts `message` to the terminated form that is handed to the foreign
/// side. Fails, without producing anything, when the text itself holds a
/// terminator.
pub fn encode_message(message: &str) -> (encoded: Result<Vec<u8>, EncodingFailure>)
    ensures
        encoded is Ok <==> terminator_free(encode_utf8(message@)),
        encoded matches Ok(buffer) ==> buffer@ == terminated(message@),
{
    let source = message.as_bytes();
    if find_terminator(source) != source.len() {
        return Err(EncodingFailure);
    }
    let mut buffer: Vec<u8> = Vec::new();
    let mut i: usize = 0;
    while i < source.len()
        invariant
            i <= source@.len(),
            buffer@ == source@.take(i as int),
        decreases source@.len() - i,
    {
        buffer.push(source[i]);
        i += 1;
    }
    buffer.push(0u8);
    proof {
        assert(source@.take(source@.len() as int) =~= source@);
    }
    Ok(buffer)
}

/// What a collected buffer means, given the length that the foreign side
/// reported for it.
///
/// The reported length counts the bytes of the message and leaves the
/// terminator out. A length that reaches the last writable position says
/// that the message may have been cut. Otherwise the buffer must hold, from
/// its start, that many bytes of UTF-8 text without a zero among them, and
/// right behind them the terminator.
pub open spec fn fetched_outcome(buffer: Seq<u8>, written: int) -> Result<
    Seq<char>,
    FetchFailure,
> {
    if written + 1 >= buffer.len() {
        Err(FetchFailure::Truncated)
    } else if buffer[written] == 0u8 && terminator_free(buffer.take(written)) && valid_utf8(
        buffer.take(written),
    ) {
        Ok(decode_utf8(buffer.take(written)))
    } else {
        Err(FetchFailure::DecodingFailure)
    }
}

/// Interprets a buffer that the foreign side has filled.
///
/// `buffer` is the whole scratch buffer, of which all but the last byte was
/// offered for writing, and `written` is the length that the foreign side
/// reported. The buffer is cut down to the message and its terminator and
/// then read as text.
pub fn decode_fetched(buffer: Vec<u8>, written: usize) -> (decoded: Result<String, FetchFailure>)
    ensures
        match decoded {
            Ok(text) => fetched_outcome(buffer@, written as int) == Ok::<Seq<char>, FetchFailure>(
                text@,
            ),
            Err(failure) => fetched_outcome(buffer@, written as int) == Err::<
                Seq<char>,
                FetchFailure,
            >(failure),
        },
{
    let mut kept = buffer;
    if kept.len() == 0 || written >= kept.len() - 1 {
        return Err(FetchFailure::Truncated);
    }
    kept.truncate(written + 1);
    let last = kept.pop();
    assert(kept@ =~= buffer@.take(written as int));
    if last != Some(0u8) {
        return Err(FetchFailure::DecodingFailure);
    }
    if find_terminator(kept.as_slice()) != kept.len() {
        return Err(FetchFailure::DecodingFailure);
    }
    match string_from_utf8(kept) {
        Some(text) => {
            proof {
                encode_utf8_decode_utf8(text@);
            }
            Ok(text)
        },
        None => Err(FetchFailure::DecodingFailure),
    }
}

/// The last error message of one execution context, if there is one.
///
/// A message is stored as the foreign side holds it: the bytes in front of
/// the terminator. It is replaced as a whole by the next one; nothing is
/// ever appended to it.
pub struct ChannelState {
    message: Option<Vec<u8>>,
}

impl View for ChannelState {
    type V = Option<Seq<u8>>;

    closed spec fn view(&self) -> Option<Seq<u8>> {
        match self.message {
            Some(bytes) => Some(bytes@),
            None => None,
        }
    }
}

/// The bytes that a reader finds in a channel: those of the message, or
/// none where no message was deposited.
pub open spec fn stored_bytes(state: Option<Seq<u8>>) -> Seq<u8> {
    match state {
        Some(bytes) => bytes,
        None => Seq::empty(),
    }
}

/// The state of a channel after text was offered to it: the text's
/// encoding replaces what was there, unless it holds a terminator, in which
/// case the channel stays as it was.
pub open spec fn state_after_set(state: Option<Seq<u8>>, text: Seq<char>) -> Option<Seq<u8>> {
    if terminator_free(encode_utf8(text)) {
        Some(encode_utf8(text))
    } else {
        state
    }
}

/// What collecting through a buffer of `capacity` bytes yields from a
/// channel in the given state.
///
/// One byte of the buffer is kept for the terminator, so `capacity - 1`
/// bytes are writable. A message that fills or exceeds the writable part is
/// reported as truncated; a shorter one is decoded.
pub open spec fn read_outcome(state: Option<Seq<u8>>, capacity: int) -> Result<
    Seq<char>,
    FetchFailure,
> {
    let stored = stored_bytes(state);
    if stored.len() >= capacity - 1 {
        Err(FetchFailure::Truncated)
    } else if valid_utf8(stored) {
        Ok(decode_utf8(stored))
    } else {
        Err(FetchFailure::DecodingFailure)
    }
}

/// The length that the foreign side reports after writing a message of
/// `stored` bytes under a limit of `limit`: the number of message bytes it
/// wrote, its terminator not counted.
pub open spec fn written_len(stored: Seq<u8>, limit: int) -> int {
    if stored.len() <= limit {
        stored.len() as int
    } else {
        limit
    }
}

/// The buffer as the foreign side leaves it: the start of the message, as
/// much of it as the limit lets through, then the terminator, then what
/// the buffer held there before.
pub open spec fn buffer_after_fetch(stored: Seq<u8>, before: Seq<u8>, limit: int) -> Seq<u8> {
    let written = written_len(stored, limit);
    stored.take(written).push(0u8) + before.skip(written + 1)
}

impl ChannelState {
    #[verifier::type_invariant]
    spec fn well_formed(self) -> bool {
        self.message matches Some(bytes) ==> terminator_free(bytes@)
    }

    /// A channel in which nothing has been deposited yet.
    pub fn new() -> (state: ChannelState)
        ensures
            state@ is None,
    {
        ChannelState { message: None }
    }

    /// The foreign side's way in: takes the text that `message` starts
    /// with, up to its first zero byte, as the new last error.
    pub fn publish(&mut self, message: &[u8])
        ensures
            final(self)@ == Some(c_str(message@)),
    {
        let n = find_terminator(message);
        let mut bytes: Vec<u8> = Vec::new();
        let mut i: usize = 0;
        while i < n
            invariant
                i <= n <= message@.len(),
                bytes@ == message@.take(i as int),
            decreases n - i,
        {
            bytes.push(message[i]);
            i += 1;
        }
        proof {
            lemma_c_str_len(message@);
        }
        self.message = Some(bytes);
    }

    /// The foreign side's way out: writes the start of the last error into
    /// `buffer`, at most `limit` bytes of it, and a terminator behind them.
    /// Returns the number of message bytes written, the terminator not
    /// counted. The rest of the buffer is left as it was.
    pub fn fetch(&self, buffer: &mut Vec<u8>, limit: usize) -> (written: usize)
        requires
            limit < old(buffer)@.len(),
        ensures
            written == written_len(stored_bytes(self@), limit as int),
            final(buffer)@ == buffer_after_fetch(
                stored_bytes(self@),
                old(buffer)@,
                limit as int,
            ),
            terminator_free(stored_bytes(self@)),
    {
        proof {
            use_type_invariant(self);
        }
        let mut written: usize = 0;
        match &self.message {
            Some(bytes) => {
                while written < bytes.len() && written < limit
                    invariant
                        written <= bytes@.len(),
                        written <= limit < buffer@.len(),
                        buffer@.len() == old(buffer)@.len(),
                        buffer@ == bytes@.take(written as int) + old(buffer)@.skip(
                            written as int,
                        ),
                    decreases bytes@.len() - written,
                {
                    buffer.set(written, bytes[written]);
                    assert(buffer@ =~= bytes@.take(written + 1) + old(buffer)@.skip(written + 1));
                    written += 1;
                }
            },
            None => {
                assert(buffer@ =~= Seq::<u8>::empty() + old(buffer)@.skip(0));
            },
        }
        buffer.set(written, 0u8);
        assert(buffer@ =~= stored_bytes(self@).take(written as int).push(0u8) + old(buffer)@.skip(
            written + 1,
        ));
        written
    }

    /// Deposits `message` as the last error.
    ///
    /// Text that holds a terminator is refused, and the channel then keeps
    /// what it had. Otherwise the terminated form of the text is published,
    /// and it stays alive until the foreign side has taken its copy.
    pub fn set_error(&mut self, message: &str) -> (outcome: Result<(), EncodingFailure>)
        ensures
            outcome is Ok <==> terminator_free(encode_utf8(message@)),
            final(self)@ == state_after_set(old(self)@, message@),
    {
        match encode_message(message) {
            Ok(buffer) => {
                self.publish(buffer.as_slice());
                proof {
                    lemma_c_str_of_terminated(encode_utf8(message@));
                }
                Ok(())
            },
            Err(failure) => Err(failure),
        }
    }

    /// Collects the last error through a scratch buffer of `capacity`
    /// bytes, of which all but one are offered for writing.
    ///
    /// The channel keeps its message. A channel without a message reads as
    /// the empty text.
    pub fn get_error(&self, capacity: usize) -> (outcome: Result<String, FetchFailure>)
        ensures
            match outcome {
                Ok(text) => read_outcome(self@, capacity as int) == Ok::<Seq<char>, FetchFailure>(
                    text@,
                ),
                Err(failure) => read_outcome(self@, capacity as int) == Err::<
                    Seq<char>,
                    FetchFailure,
                >(failure),
            },
    {
        if capacity == 0 {
            return Err(FetchFailure::Truncated);
        }
        let mut buffer: Vec<u8> = Vec::new();
        let mut i: usize = 0;
        while i < capacity
            invariant
                i <= capacity,
                buffer@.len() == i,
            decreases capacity - i,
        {
            buffer.push(0u8);
            i += 1;
        }
        let ghost scratch = buffer@;
        let written = self.fetch(&mut buffer, capacity - 1);
        proof {
            lemma_fetch_then_decode(stored_bytes(self@), scratch);
        }
        decode_fetched(buffer, written)
    }
}

/// The two halves of collecting agree: when the foreign side writes its
/// message into a scratch buffer, all but the last byte of which it may
/// use, then interpreting the buffer with the length it reports gives what
/// the channel is said to yield for a buffer of that capacity. What the
/// scratch buffer held before has no part in it.
pub proof fn lemma_fetch_then_decode(stored: Seq<u8>, scratch: Seq<u8>)
    requires
        terminator_free(stored),
        scratch.len() >= 1,
    ensures
        fetched_outcome(
            buffer_after_fetch(stored, scratch, scratch.len() - 1),
            written_len(stored, scratch.len() - 1),
        ) == read_outcome(Some(stored), scratch.len() as int),
{
    let limit = scratch.len() - 1;
    let written = written_len(stored, limit);
    let buffer = buffer_after_fetch(stored, scratch, limit);
    assert(buffer.len() == scratch.len());
    if written + 1 < scratch.len() {
        assert(stored.take(written) =~= stored);
        assert(buffer.take(written) =~= stored);
        assert(buffer[written] == 0u8);
    }
}

/// Of two messages deposited one after the other, the second is the one
/// that is there: a message replaces its predecessor and is never added
/// to it.
pub proof fn lemma_last_message_wins(state: Option<Seq<u8>>, first: Seq<char>, second: Seq<char>)
    requires
        terminator_free(encode_utf8(second)),
    ensures
        state_after_set(state_after_set(state, first), second) == Some(encode_utf8(second)),
{
}

/// Text without a terminator comes back as it went in: after it was
/// deposited, whatever the channel held before, collecting through a
/// buffer with room for all of its bytes and a byte to spare yields
/// the same text.
pub proof fn lemma_round_trip(state: Option<Seq<u8>>, text: Seq<char>, capacity: int)
    requires
        terminator_free(encode_utf8(text)),
        encode_utf8(text).len() < capacity - 1,
    ensures
        read_outcome(state_after_set(state, text), capacity) == Ok::<Seq<char>, FetchFailure>(
            text,
        ),
{
    encode_utf8_valid_utf8(text);
    encode_utf8_decode_utf8(text);
}

/// Text that is refused leaves no trace: what is collected afterwards is
/// what would have been collected before.
pub proof fn lemma_refused_text_changes_nothing(
    state: Option<Seq<u8>>,
    text: Seq<char>,
    capacity: int,
)
    requires
        !terminator_free(encode_utf8(text)),
    ensures
        read_outcome(state_after_set(state, text), capacity) == read_outcome(state, capacity),
{
}

/// A message that fills the writable part of the buffer, or is longer, is
/// never handed out clipped: the outcome is `Truncated`.
pub proof fn lemma_long_message_is_truncated(state: Option<Seq<u8>>, capacity: int)
    requires
        stored_bytes(state).len() >= capacity - 1,
    ensures
        read_outcome(state, capacity) == Err::<Seq<char>, FetchFailure>(FetchFailure::Truncated),
{
}

} // verus!
