//! gRPC addresses and the frame of a single uncompressed gRPC message.

use vstd::prelude::*;
use vstd::slice::{slice_subrange, slice_to_vec};

use crate::bytes::{
    be_bytes, be_limit, be_value, lemma_be_bytes_len, lemma_be_bytes_of_be_value,
    lemma_be_value_of_be_bytes, push_be_u32, read_be_u32,
};

verus! {

pub const BACKEND_GRPC_DIRECT_BASE: &'static str = "https://greendroidfood-pa.helluvaos.com";

pub const BACKEND_GRPC_PROXY_BASE: &'static str = "https://greendroidfood-pa.meowproxy.net";

pub const BACKEND_GRPC_SERVICE: &'static str = "mystic.attestation.public.v1.AttestationOverwriter";

/// Routes overwrite requests through the proxy instead of the direct backend.
pub const USE_BACKEND_PROXY: bool = false;

/// The largest message that is sent or accepted, in bytes.
pub const GRPC_MAX_MESSAGE_BYTES: usize = 1048576;

/// The bytes before the message in a frame: the compression flag and the message length.
pub const GRPC_FRAME_HEADER_BYTES: usize = 5;

pub const REQUEST_TOO_LARGE: &'static str = "request payload exceeds the gRPC message size limit";

pub const FRAME_TOO_SHORT: &'static str = "response body is shorter than a gRPC frame header";

pub const FRAME_COMPRESSED: &'static str = "compressed gRPC response is not supported";

pub const MESSAGE_TOO_LARGE: &'static str = "gRPC message payload exceeds the size limit";

pub const FRAME_ENDED_EARLY: &'static str = "response body ended before the gRPC message payload";

pub const FRAME_TRAILING_DATA: &'static str = "response body contained trailing gRPC data";

/// The address that the backend is reached at.
pub open spec fn grpc_base() -> Seq<char> {
    if USE_BACKEND_PROXY {
        BACKEND_GRPC_PROXY_BASE@
    } else {
        BACKEND_GRPC_DIRECT_BASE@
    }
}

/// The address that the backend is reached at.
pub fn backend_grpc_base() -> (base: &'static str)
    ensures
        base@ == grpc_base(),
{
    if USE_BACKEND_PROXY {
        BACKEND_GRPC_PROXY_BASE
    } else {
        BACKEND_GRPC_DIRECT_BASE
    }
}

/// The address of a method of the backend's gRPC service.
pub open spec fn grpc_url(method: Seq<char>) -> Seq<char> {
    grpc_base() + "/"@ + BACKEND_GRPC_SERVICE@ + "/"@ + method
}

/// The address of a method of the backend's gRPC service.
pub fn backend_grpc_url(method: &str) -> (url: String)
    ensures
        url@ == grpc_url(method@),
{
    let mut url = backend_grpc_base().to_owned();
    url.append("/");
    url.append(BACKEND_GRPC_SERVICE);
    url.append("/");
    url.append(method);
    url
}

/// The frame of an uncompressed message: a zero byte, the length in four bytes, the message.
pub open spec fn grpc_frame(payload: Seq<u8>) -> Seq<u8> {
    seq![0u8] + be_bytes(payload.len(), 4) + payload
}

/// The message length that a frame of at least five bytes declares.
pub open spec fn declared_length(body: Seq<u8>) -> nat {
    be_value(body.subrange(1, 5))
}

/// The message in a frame, or what is wrong with the frame.
pub open spec fn grpc_message(body: Seq<u8>) -> Result<Seq<u8>, Seq<char>> {
    if body.len() < 5 {
        Err(FRAME_TOO_SHORT@)
    } else if body[0] != 0 {
        Err(FRAME_COMPRESSED@)
    } else if declared_length(body) > GRPC_MAX_MESSAGE_BYTES {
        Err(MESSAGE_TOO_LARGE@)
    } else if body.len() < 5 + declared_length(body) {
        Err(FRAME_ENDED_EARLY@)
    } else if body.len() > 5 + declared_length(body) {
        Err(FRAME_TRAILING_DATA@)
    } else {
        Ok(body.skip(5))
    }
}

/// Puts a message into a frame.
pub fn encode_grpc_frame(payload: &[u8]) -> (encoded: Result<Vec<u8>, String>)
    ensures
        payload@.len() <= GRPC_MAX_MESSAGE_BYTES ==> (encoded matches Ok(frame) && frame@
            == grpc_frame(payload@)),
        payload@.len() > GRPC_MAX_MESSAGE_BYTES ==> (encoded matches Err(e) && e@
            == REQUEST_TOO_LARGE@),
{
    if payload.len() > GRPC_MAX_MESSAGE_BYTES {
        return Err(REQUEST_TOO_LARGE.to_owned());
    }
    let length: u32 = payload.len() as u32;
    let mut frame: Vec<u8> = Vec::with_capacity(GRPC_FRAME_HEADER_BYTES + payload.len());
    frame.push(0);
    push_be_u32(&mut frame, length);
    frame.extend_from_slice(payload);
    assert(frame@ =~= grpc_frame(payload@));
    Ok(frame)
}

/// Takes the one message out of a frame.
pub fn decode_grpc_frame(body: &[u8]) -> (decoded: Result<Vec<u8>, String>)
    ensures
        match grpc_message(body@) {
            Ok(message) => decoded matches Ok(payload) && payload@ == message,
            Err(message) => decoded matches Err(e) && e@ == message,
        },
{
    if body.len() < GRPC_FRAME_HEADER_BYTES {
        return Err(FRAME_TOO_SHORT.to_owned());
    }
    if body[0] != 0 {
        return Err(FRAME_COMPRESSED.to_owned());
    }
    let length: usize = read_be_u32(body, 1) as usize;
    if length > GRPC_MAX_MESSAGE_BYTES {
        return Err(MESSAGE_TOO_LARGE.to_owned());
    }
    let frame_length: usize = GRPC_FRAME_HEADER_BYTES + length;
    if body.len() < frame_length {
        return Err(FRAME_ENDED_EARLY.to_owned());
    }
    if body.len() != frame_length {
        return Err(FRAME_TRAILING_DATA.to_owned());
    }
    let message = slice_subrange(body, GRPC_FRAME_HEADER_BYTES, frame_length);
    assert(message@ =~= body@.skip(5));
    Ok(slice_to_vec(message))
}

/// Decoding undoes encoding: the frame of any message within the size limit holds that message.
pub proof fn law_decode_undoes_encode(payload: Seq<u8>)
    requires
        payload.len() <= GRPC_MAX_MESSAGE_BYTES,
    ensures
        grpc_message(grpc_frame(payload)) == Ok::<Seq<u8>, Seq<char>>(payload),
{
    let frame = grpc_frame(payload);
    reveal_with_fuel(be_limit, 5);
    lemma_be_value_of_be_bytes(payload.len(), 4);
    assert(frame.subrange(1, 5) =~= be_bytes(payload.len(), 4));
    assert(frame.skip(5) =~= payload);
}

/// Encoding undoes decoding: whatever decodes is the frame of its message, and that message is
/// within the size limit.
pub proof fn law_encode_undoes_decode(body: Seq<u8>)
    ensures
        grpc_message(body) matches Ok(payload) ==> body == grpc_frame(payload) && payload.len()
            <= GRPC_MAX_MESSAGE_BYTES,
{
    if let Ok(payload) = grpc_message(body) {
        let digits = body.subrange(1, 5);
        lemma_be_bytes_of_be_value(digits);
        lemma_be_bytes_len(payload.len(), 4);
        assert(payload.len() == be_value(digits));
        assert(grpc_frame(payload) =~= body);
    }
}

/// Different methods are reached at different addresses.
pub proof fn law_url_tells_methods_apart(first: Seq<char>, second: Seq<char>)
    requires
        grpc_url(first) == grpc_url(second),
    ensures
        first == second,
{
    let prefix = grpc_base() + "/"@ + BACKEND_GRPC_SERVICE@ + "/"@;
    assert((prefix + first).skip(prefix.len() as int) =~= first);
    assert((prefix + second).skip(prefix.len() as int) =~= second);
}

/// The bytes of a frame, one by one: a zero, the length of the message with its most significant
/// byte first, and the message.
pub proof fn law_frame_bytes(payload: Seq<u8>)
    requires
        payload.len() <= 1_048_576,
    ensures
        grpc_frame(payload) == seq![
            0u8,
            (payload.len() / 0x100_0000) as u8,
            ((payload.len() / 0x1_0000) % 256) as u8,
            ((payload.len() / 0x100) % 256) as u8,
            (payload.len() % 256) as u8,
        ] + payload,
        grpc_message(grpc_frame(payload)) == Ok::<Seq<u8>, Seq<char>>(payload),
{
    law_decode_undoes_encode(payload);
    crate::bytes::law_big_endian_digits(payload.len(), 4);
    assert(grpc_frame(payload) =~= seq![
        0u8,
        (payload.len() / 0x100_0000) as u8,
        ((payload.len() / 0x1_0000) % 256) as u8,
        ((payload.len() / 0x100) % 256) as u8,
        (payload.len() % 256) as u8,
    ] + payload);
}

/// What is wrong with a body that is no frame is told in this order: too few bytes for a header,
/// compression, a length over the limit, too few bytes for the length, too many.
pub proof fn law_frame_faults(body: Seq<u8>)
    ensures
        body.len() < 5 ==> grpc_message(body) == Err::<Seq<u8>, Seq<char>>(
            "response body is shorter than a gRPC frame header"@,
        ),
        body.len() >= 5 && body[0] != 0 ==> grpc_message(body) == Err::<Seq<u8>, Seq<char>>(
            "compressed gRPC response is not supported"@,
        ),
        body.len() >= 5 && body[0] == 0 ==> {
            let length = 0x100_0000 * body[1] + 0x1_0000 * body[2] + 0x100 * body[3] + body[4];
            &&& length > 1_048_576 ==> grpc_message(body) == Err::<Seq<u8>, Seq<char>>(
                "gRPC message payload exceeds the size limit"@,
            )
            &&& length <= 1_048_576 && body.len() - 5 < length ==> grpc_message(body) == Err::<
                Seq<u8>,
                Seq<char>,
            >("response body ended before the gRPC message payload"@)
            &&& length <= 1_048_576 && body.len() - 5 > length ==> grpc_message(body) == Err::<
                Seq<u8>,
                Seq<char>,
            >("response body contained trailing gRPC data"@)
            &&& length <= 1_048_576 && body.len() - 5 == length ==> grpc_message(body) == Ok::<
                Seq<u8>,
                Seq<char>,
            >(body.skip(5))
        },
{
    if body.len() >= 5 {
        let digits = body.subrange(1, 5);
        reveal_with_fuel(be_value, 5);
        assert(digits.drop_last() =~= body.subrange(1, 4));
        assert(digits.drop_last().drop_last() =~= body.subrange(1, 3));
        assert(digits.drop_last().drop_last().drop_last() =~= body.subrange(1, 2));
    }
}

/// A method is called at the backend's own address, under the name of the service.
pub proof fn law_url_text(method: Seq<char>)
    ensures
        grpc_url(method)
            == "https://greendroidfood-pa.helluvaos.com/mystic.attestation.public.v1.AttestationOverwriter/"@
            + method,
{
    reveal_strlit(
        "https://greendroidfood-pa.helluvaos.com/mystic.attestation.public.v1.AttestationOverwriter/",
    );
    reveal_strlit("https://greendroidfood-pa.helluvaos.com");
    reveal_strlit("mystic.attestation.public.v1.AttestationOverwriter");
    reveal_strlit("/");
    assert(grpc_base() + "/"@ + BACKEND_GRPC_SERVICE@ + "/"@
        =~= "https://greendroidfood-pa.helluvaos.com/mystic.attestation.public.v1.AttestationOverwriter/"@);
}

} // verus!
