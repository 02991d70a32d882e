//! The bounded primary-pipe message.
//!
//! One connection carries one raw message. The listener reads it into a
//! fixed, zero-initialized buffer of `MESSAGE_BUFFER_SIZE` bytes and
//! interprets the result as a null-terminated byte string, so a payload may
//! use at most `MAX_PAYLOAD_LEN` bytes; anything longer is rejected
//! deterministically and never corrupts a later message.

use vstd::prelude::*;
use vstd::string::*;

verus! {

/// Size of the listener's read buffer, in bytes.
pub const MESSAGE_BUFFER_SIZE: usize = 128;

/// Longest payload that still leaves room for the string terminator.
pub const MAX_PAYLOAD_LEN: usize = 127;

/// Why a single connection's message was not accepted. The failure is
/// isolated to that connection: the listener logs it and re-arms.
#[derive(Clone, Copy, Debug, PartialEq, Eq, Structural)]
pub enum MessageError {
    /// The payload did not fit the fixed buffer together with its terminator.
    TooLong,
    /// The buffer held no terminator, so no message boundary was found.
    MissingTerminator,
}

/// The prefix of a byte sequence up to (excluding) its first null byte; the
/// whole sequence if it holds none.
pub open spec fn prefix_until_nul(s: Seq<u8>) -> Seq<u8>
    decreases s.len(),
{
    if s.len() == 0 {
        s
    } else if s[0] == 0 {
        Seq::empty()
    } else {
        seq![s[0]] + prefix_until_nul(s.drop_first())
    }
}

/// Whether a byte sequence holds a null byte.
pub open spec fn has_nul(s: Seq<u8>) -> bool {
    exists|i: int| 0 <= i < s.len() && s[i] == 0
}

/// The receiver's buffer after one write of `payload`: the payload bytes,
/// then the untouched zero initialization.
pub open spec fn buffer_after_write(payload: Seq<u8>) -> Seq<u8> {
    payload + Seq::new((MESSAGE_BUFFER_SIZE - payload.len()) as nat, |i: int| 0u8)
}

/// What the listener accepts for a given client payload: the bytes up to the
/// first null if the payload fits the buffer with room for a terminator,
/// and a deterministic rejection otherwise.
pub open spec fn receive_spec(payload: Seq<u8>) -> Result<Seq<u8>, MessageError> {
    if payload.len() <= MAX_PAYLOAD_LEN {
        Ok(prefix_until_nul(payload))
    } else {
        Err(MessageError::TooLong)
    }
}

/// Models the transport of one client payload into the listener's
/// zero-initialized buffer. A payload too long for the buffer (or one that
/// fills it completely, leaving no terminator) is rejected.
pub fn fill_buffer(payload: &Vec<u8>) -> (r: Result<Vec<u8>, MessageError>)
    ensures
        payload@.len() <= MAX_PAYLOAD_LEN ==> r == Ok::<Vec<u8>, MessageError>(
            r.unwrap(),
        ) && r.unwrap()@ == buffer_after_write(payload@),
        payload@.len() > MAX_PAYLOAD_LEN ==> r == Err::<Vec<u8>, MessageError>(
            MessageError::TooLong,
        ),
{
    if payload.len() > MAX_PAYLOAD_LEN {
        return Err(MessageError::TooLong);
    }
    let mut buffer: Vec<u8> = Vec::new();
    let mut i: usize = 0;
    while i < payload.len()
        invariant
            i <= payload.len(),
            buffer@ == payload@.take(i as int),
        decreases payload.len() - i,
    {
        buffer.push(payload[i]);
        i = i + 1;
    }
    assert(buffer@ == payload@);
    while buffer.len() < MESSAGE_BUFFER_SIZE
        invariant
            payload@.len() <= buffer@.len() <= MESSAGE_BUFFER_SIZE,
            buffer@.take(payload@.len() as int) == payload@,
            forall|j: int| payload@.len() <= j < buffer@.len() ==> buffer@[j] == 0u8,
        decreases MESSAGE_BUFFER_SIZE - buffer.len(),
    {
        buffer.push(0u8);
    }
    proof {
        assert(buffer@ =~= buffer_after_write(payload@));
    }
    Ok(buffer)
}

/// Decodes one filled buffer as a null-terminated byte string: the bytes
/// before the first null byte. A buffer without a terminator is rejected.
pub fn decode_buffer(buffer: &Vec<u8>) -> (r: Result<Vec<u8>, MessageError>)
    ensures
        has_nul(buffer@) ==> r == Ok::<Vec<u8>, MessageError>(r.unwrap()) && r.unwrap()@
            == prefix_until_nul(buffer@),
        !has_nul(buffer@) ==> r == Err::<Vec<u8>, MessageError>(MessageError::MissingTerminator),
{
    let mut message: Vec<u8> = Vec::new();
    let mut i: usize = 0;
    while i < buffer.len()
        invariant
            i <= buffer.len(),
            forall|j: int| 0 <= j < i ==> buffer@[j] != 0u8,
            message@ == buffer@.take(i as int),
        decreases buffer.len() - i,
    {
        if buffer[i] == 0u8 {
            proof {
                lemma_prefix_until_nul_stops(buffer@, i as int);
            }
            return Ok(message);
        }
        message.push(buffer[i]);
        i = i + 1;
    }
    Err(MessageError::MissingTerminator)
}

/// Receives one client payload: transports it into the zeroed buffer and
/// decodes the null-terminated result. Accepts exactly the payloads that fit
/// the buffer with room for a terminator, and yields their bytes up to the
/// first null.
pub fn receive_message(payload: &Vec<u8>) -> (r: Result<Vec<u8>, MessageError>)
    ensures
        payload@.len() <= MAX_PAYLOAD_LEN ==> r == Ok::<Vec<u8>, MessageError>(r.unwrap())
            && r.unwrap()@ == prefix_until_nul(payload@),
        payload@.len() > MAX_PAYLOAD_LEN ==> r == Err::<Vec<u8>, MessageError>(
            MessageError::TooLong,
        ),
{
    let buffer = match fill_buffer(payload) {
        Ok(buffer) => buffer,
        Err(e) => {
            return Err(e);
        },
    };
    proof {
        assert(buffer@[payload@.len() as int] == 0u8);
        lemma_prefix_of_padded(payload@);
    }
    match decode_buffer(&buffer) {
        Ok(message) => Ok(message),
        Err(e) => Err(e),
    }
}

/// The decoded prefix stops exactly at the first null byte: if the bytes
/// before position `i` are all non-null and position `i` holds a null, the
/// prefix is the first `i` bytes.
proof fn lemma_prefix_until_nul_stops(s: Seq<u8>, i: int)
    requires
        0 <= i < s.len(),
        forall|j: int| 0 <= j < i ==> s[j] != 0u8,
        s[i] == 0u8,
    ensures
        prefix_until_nul(s) == s.take(i),
    decreases i,
{
    if i == 0 {
        assert(prefix_until_nul(s) =~= s.take(0));
    } else {
        lemma_prefix_until_nul_stops(s.drop_first(), i - 1);
        assert(prefix_until_nul(s) =~= seq![s[0]] + s.drop_first().take(i - 1));
        assert(seq![s[0]] + s.drop_first().take(i - 1) =~= s.take(i));
    }
}

/// Appending zeros to a payload does not change its decoded prefix.
proof fn lemma_prefix_with_zeros(payload: Seq<u8>, k: nat)
    requires
        k >= 1,
    ensures
        prefix_until_nul(payload + Seq::new(k, |i: int| 0u8)) == prefix_until_nul(payload),
    decreases payload.len(),
{
    let padded = payload + Seq::new(k, |i: int| 0u8);
    if payload.len() == 0 {
        assert(padded[0] == 0u8);
        assert(prefix_until_nul(payload) =~= Seq::<u8>::empty());
    } else if payload[0] == 0u8 {
        assert(padded[0] == 0u8);
    } else {
        lemma_prefix_with_zeros(payload.drop_first(), k);
        assert(padded.drop_first() =~= payload.drop_first() + Seq::new(k, |i: int| 0u8));
        assert(prefix_until_nul(padded) =~= seq![payload[0]] + prefix_until_nul(
            payload.drop_first(),
        ));
        assert(prefix_until_nul(payload) =~= seq![payload[0]] + prefix_until_nul(
            payload.drop_first(),
        ));
    }
}

/// Padding a payload to the buffer size does not change its decoded prefix.
proof fn lemma_prefix_of_padded(payload: Seq<u8>)
    requires
        payload.len() <= MAX_PAYLOAD_LEN,
    ensures
        prefix_until_nul(buffer_after_write(payload)) == prefix_until_nul(payload),
{
    lemma_prefix_with_zeros(payload, (MESSAGE_BUFFER_SIZE - payload.len()) as nat);
}

/// A payload without null bytes decodes to itself.
pub proof fn lemma_prefix_of_clean(payload: Seq<u8>)
    requires
        !has_nul(payload),
    ensures
        prefix_until_nul(payload) == payload,
    decreases payload.len(),
{
    if payload.len() == 0 {
        assert(prefix_until_nul(payload) =~= payload);
    } else {
        assert(payload[0] != 0u8);
        assert(!has_nul(payload.drop_first())) by {
            if has_nul(payload.drop_first()) {
                let i = choose|i: int|
                    0 <= i < payload.drop_first().len() && payload.drop_first()[i] == 0u8;
                assert(payload[i + 1] == 0u8);
            }
        }
        lemma_prefix_of_clean(payload.drop_first());
        assert(prefix_until_nul(payload) =~= payload);
    }
}

/// Round-trip fidelity: a message written by a client and read by the
/// owner's listener is byte-identical, for every payload that fits the
/// buffer and carries no embedded terminator.
pub proof fn lemma_round_trip(payload: Seq<u8>)
    requires
        payload.len() <= MAX_PAYLOAD_LEN,
        !has_nul(payload),
    ensures
        receive_spec(payload) == Ok::<Seq<u8>, MessageError>(payload),
{
    lemma_prefix_of_clean(payload);
}

/// Relies on `String::from_utf8_lossy`: bytes that are all ASCII decode to
/// the characters with the same code points, one per byte.
#[verifier::external_body]
fn bytes_to_text(bytes: &Vec<u8>) -> (r: String)
    ensures
        (forall|i: int| 0 <= i < bytes@.len() ==> bytes@[i] < 128) ==> r@ == bytes@.map_values(
            |b: u8| b as char,
        ),
{
    String::from_utf8_lossy(bytes.as_slice()).into_owned()
}

/// The text form of an accepted message, for the application callback. An
/// all-ASCII message becomes the string with exactly those characters.
pub fn message_text(message: &Vec<u8>) -> (r: String)
    ensures
        (forall|i: int| 0 <= i < message@.len() ==> message@[i] < 128) ==> r@
            == message@.map_values(|b: u8| b as char),
{
    bytes_to_text(message)
}

} // verus!
