//! One gRPC exchange with the backend: what is sent, and what the response comes to.

use vstd::prelude::*;
use vstd::slice::slice_to_vec;

use crate::grpc::{
    backend_grpc_url, decode_grpc_frame, grpc_frame, grpc_message, grpc_url,
    law_decode_undoes_encode, law_encode_undoes_decode, GRPC_FRAME_HEADER_BYTES,
    GRPC_MAX_MESSAGE_BYTES,
};
use crate::text::{
    debug_form, debug_form_is_plain, debug_option, decimal_digits, join2, join3, option_view,
    trimmed,
};
use crate::types::{AttemptFailure, EncryptedResponse, OverwriteAttemptError};

verus! {

pub const OVERWRITE_OPERATION: &'static str = "attestation overwrite";

pub const PROVISION_OPERATION: &'static str = "attestation-key provisioning";

pub const HTTP_FAILED: &'static str = " HTTP/2 failed: ";

pub const REJECTED_WITH_HTTP_STATUS: &'static str = " rejected: http_status=";

pub const AND_GRPC_STATUS: &'static str = " grpc_status=";

pub const INVALID_ARGUMENT: &'static str = "INVALID_ARGUMENT";

pub const RESPONSE_TOO_LARGE: &'static str = "backend response exceeds the size limit";

pub const RESPONSE_READ_FAILED: &'static str = "backend response read failed: ";

pub const RESPONSE_FRAME_FAILED: &'static str = " response frame failed: ";

pub const RESPONSE_DECODE_FAILED: &'static str = " response decode failed: ";

/// The HTTP status of a backend that asks for fewer requests.
pub const HTTP_TOO_MANY_REQUESTS: u16 = 429;

/// A POST request.
#[derive(Debug)]
pub struct RpcRequest {
    pub url: String,
    pub headers: Vec<(&'static str, &'static str)>,
    pub timeout_nanos: u128,
    pub body: Vec<u8>,
}

/// The names and values of a list of headers.
pub open spec fn headers_view(headers: Seq<(&'static str, &'static str)>) -> Seq<
    (Seq<char>, Seq<char>),
> {
    headers.map_values(|header: (&'static str, &'static str)| (header.0@, header.1@))
}

/// The headers that every request carries.
pub open spec fn rpc_headers() -> Seq<(Seq<char>, Seq<char>)> {
    seq![
        ("content-type"@, "application/grpc"@),
        ("te"@, "trailers"@),
        ("user-agent"@, "DroidfoodAttestationFixer/0.1"@),
    ]
}

/// The request that calls a method of the backend with a framed message.
pub fn rpc_request(method: &str, request_frame: &[u8], timeout_nanos: u128) -> (request: RpcRequest)
    ensures
        request.url@ == grpc_url(method@),
        headers_view(request.headers@) == rpc_headers(),
        request.timeout_nanos == timeout_nanos,
        request.body@ == request_frame@,
{
    let mut headers: Vec<(&'static str, &'static str)> = Vec::new();
    headers.push(("content-type", "application/grpc"));
    headers.push(("te", "trailers"));
    headers.push(("user-agent", "DroidfoodAttestationFixer/0.1"));
    assert(headers_view(headers@) =~= rpc_headers());
    RpcRequest {
        url: backend_grpc_url(method),
        headers,
        timeout_nanos,
        body: slice_to_vec(request_frame),
    }
}

/// What precedes the body of a response. A header is the bytes of its first value.
#[derive(Debug)]
pub struct RpcResponseHead {
    pub http_status: u16,
    pub grpc_status: Option<Vec<u8>>,
    pub grpc_message: Option<Vec<u8>>,
    pub content_length: Option<u64>,
}

/// Bytes that a header value can be read as text with: visible ASCII, spaces and tabs.
pub open spec fn is_visible(value: Seq<u8>) -> bool {
    forall|i: int| 0 <= i < value.len() ==> 32 <= #[trigger] value[i] < 127 || value[i] == 9
}

/// The text of ASCII bytes.
pub open spec fn ascii_text(value: Seq<u8>) -> Seq<char> {
    value.map_values(|byte: u8| byte as char)
}

/// `reqwest::header::HeaderValue::to_str` of the header value with these bytes: the text of the
/// bytes if all of them are visible ASCII, spaces or tabs, and nothing otherwise.
#[verifier::external_body]
fn visible_header_text(value: &[u8]) -> (text: Option<String>)
    ensures
        match text {
            Some(read) => is_visible(value@) && read@ == ascii_text(value@),
            None => !is_visible(value@),
        },
{
    let value = reqwest::header::HeaderValue::from_bytes(value).ok()?;
    value.to_str().ok().map(str::to_owned)
}

/// The text of an optional header, if it is there and can be read.
pub open spec fn header_reads(value: Option<Vec<u8>>) -> Option<Seq<char>> {
    match value {
        Some(bytes) if is_visible(bytes@) => Some(ascii_text(bytes@)),
        _ => None,
    }
}

/// The text of an optional header, if it is there and can be read.
fn header_text(value: &Option<Vec<u8>>) -> (text: Option<String>)
    ensures
        option_view(text) == header_reads(*value),
{
    match value {
        Some(bytes) => visible_header_text(bytes.as_slice()),
        None => None,
    }
}

/// How an HTTP status is written out: the number, a space, and the reason that goes with it.
pub uninterp spec fn status_display(http_status: u16) -> Seq<char>;

/// The `Display` formatting of `reqwest::StatusCode`: the number, a space, and a reason that
/// depends on the number alone.
#[verifier::external_body]
fn status_text(http_status: u16) -> (text: String)
    requires
        100 <= http_status < 1000,
    ensures
        text@ == status_display(http_status),
        (decimal_digits(http_status as nat) + " "@).is_prefix_of(text@),
{
    reqwest::StatusCode::from_u16(http_status).unwrap().to_string()
}

/// An HTTP status that reports success.
pub open spec fn is_success(http_status: u16) -> bool {
    200 <= http_status < 300
}

/// An HTTP status that reports a fault of the server.
pub open spec fn is_server_error(http_status: u16) -> bool {
    500 <= http_status < 600
}

/// The reason that the backend gives for an invalid argument, where it gives one.
pub open spec fn invalid_argument_reason(grpc_message: Option<Seq<char>>) -> Seq<char> {
    match grpc_message {
        Some(message) if trimmed(message).len() > 0 => message,
        _ => INVALID_ARGUMENT@,
    }
}

/// What a rejection is reported as.
pub open spec fn rejection(
    operation: Seq<char>,
    http_status: u16,
    grpc_status: Option<Seq<char>>,
) -> Seq<char> {
    operation + REJECTED_WITH_HTTP_STATUS@ + status_display(http_status) + AND_GRPC_STATUS@
        + debug_form(grpc_status)
}

/// The statuses in a rejection can be told from its text: the HTTP status starts with its number
/// and a space, and the gRPC status is written plainly.
pub open spec fn statuses_are_legible(http_status: u16, grpc_status: Option<Seq<char>>) -> bool {
    &&& (decimal_digits(http_status as nat) + " "@).is_prefix_of(status_display(http_status))
    &&& debug_form_is_plain(grpc_status)
}

/// Why the response is a failure already by its statuses, if it is.
pub open spec fn status_failure(
    operation: Seq<char>,
    http_status: u16,
    grpc_status: Option<Seq<char>>,
    grpc_message: Option<Seq<char>>,
) -> Option<AttemptFailure> {
    if is_success(http_status) && (grpc_status is None || grpc_status == Some("0"@)) {
        None
    } else if grpc_status == Some("3"@) {
        Some(AttemptFailure::InvalidArgument(invalid_argument_reason(grpc_message)))
    } else if is_server_error(http_status) || http_status == HTTP_TOO_MANY_REQUESTS {
        Some(AttemptFailure::Retryable(rejection(operation, http_status, grpc_status)))
    } else {
        Some(AttemptFailure::Fatal(rejection(operation, http_status, grpc_status)))
    }
}

/// The text of the gRPC message header, unless it is blank.
fn given_reason(grpc_message: Option<String>) -> (reason: String)
    ensures
        reason@ == invalid_argument_reason(option_view(grpc_message)),
{
    match grpc_message {
        Some(message) => {
            if message.as_str().trim().is_empty() {
                INVALID_ARGUMENT.to_owned()
            } else {
                message
            }
        },
        None => INVALID_ARGUMENT.to_owned(),
    }
}

/// Whether an optional text is there and equals `wanted`.
fn is_text(text: &Option<String>, wanted: &str) -> (same: bool)
    ensures
        same == (option_view(*text) == Some(wanted@)),
{
    match text {
        Some(present) => *present == wanted.to_owned(),
        None => false,
    }
}

/// Why the response is a failure already by its statuses, if it is.
fn check_statuses(
    operation: &str,
    http_status: u16,
    grpc_status: &Option<String>,
    grpc_message: Option<String>,
) -> (checked: Result<(), OverwriteAttemptError>)
    requires
        100 <= http_status < 1000,
    ensures
        match status_failure(
            operation@,
            http_status,
            option_view(*grpc_status),
            option_view(grpc_message),
        ) {
            None => checked is Ok,
            Some(failure) => {
                &&& checked matches Err(error)
                &&& error@ == failure
                &&& failure is InvalidArgument || statuses_are_legible(
                    http_status,
                    option_view(*grpc_status),
                )
            },
        },
{
    let grpc_failed = grpc_status.is_some() && !is_text(grpc_status, "0");
    if 200 <= http_status && http_status < 300 && !grpc_failed {
        return Ok(());
    }
    if is_text(grpc_status, "3") {
        return Err(OverwriteAttemptError::InvalidArgument(given_reason(grpc_message)));
    }
    let mut message = operation.to_owned();
    message.append(REJECTED_WITH_HTTP_STATUS);
    message.append(status_text(http_status).as_str());
    message.append(AND_GRPC_STATUS);
    message.append(debug_option(grpc_status).as_str());
    if (500 <= http_status && http_status < 600) || http_status == HTTP_TOO_MANY_REQUESTS {
        return Err(OverwriteAttemptError::Retryable(message));
    }
    Err(OverwriteAttemptError::Fatal(message))
}

/// The longest body that can be a frame, in bytes.
pub open spec fn longest_body() -> int {
    GRPC_MAX_MESSAGE_BYTES + GRPC_FRAME_HEADER_BYTES
}

/// A response whose body is still to be read, up to `limit` bytes of it.
#[derive(Debug)]
pub struct AwaitingBody {
    pub limit: u64,
    pub grpc_status_given: bool,
}

/// Why an attempt fails before any body is read, if it does.
pub open spec fn head_failure(operation: Seq<char>, head: RpcResponseHead) -> Option<
    AttemptFailure,
> {
    match status_failure(
        operation,
        head.http_status,
        header_reads(head.grpc_status),
        header_reads(head.grpc_message),
    ) {
        Some(failure) => Some(failure),
        None => match head.content_length {
            Some(length) if length > longest_body() => Some(
                AttemptFailure::Retryable(RESPONSE_TOO_LARGE@),
            ),
            _ => None,
        },
    }
}

/// A response has a status that HTTP knows.
pub open spec fn has_http_status(sent: Result<RpcResponseHead, String>) -> bool {
    sent matches Ok(head) ==> 100 <= head.http_status < 1000
}

/// Judges a response by what precedes its body. `sent` is what sending the request came to: the
/// head of a response, or what the transport says of its failure. One byte more than the longest
/// acceptable body is read, so that a longer one is noticed.
pub fn rpc_response_started(operation: &str, sent: Result<RpcResponseHead, String>) -> (started:
    Result<AwaitingBody, OverwriteAttemptError>)
    requires
        has_http_status(sent),
    ensures
        match sent {
            Err(reason) => started matches Err(error) && error@ == AttemptFailure::Retryable(
                operation@ + HTTP_FAILED@ + reason@,
            ),
            Ok(head) => match head_failure(operation@, head) {
                Some(failure) => started matches Err(error) && error@ == failure,
                None => started matches Ok(awaiting) && awaiting.limit == longest_body() + 1
                    && awaiting.grpc_status_given == header_reads(head.grpc_status) is Some,
            },
        },
        sent matches Ok(head) ==> (status_failure(
            operation@,
            head.http_status,
            header_reads(head.grpc_status),
            header_reads(head.grpc_message),
        ) matches Some(failure) ==> failure is InvalidArgument || statuses_are_legible(
            head.http_status,
            header_reads(head.grpc_status),
        )),
{
    let head = match sent {
        Ok(head) => head,
        Err(reason) => {
            let message = join3(operation, HTTP_FAILED, reason.as_str());
            return Err(OverwriteAttemptError::Retryable(message));
        },
    };
    let grpc_status = header_text(&head.grpc_status);
    let grpc_message = header_text(&head.grpc_message);
    match check_statuses(operation, head.http_status, &grpc_status, grpc_message) {
        Ok(()) => {},
        Err(error) => return Err(error),
    }
    let longest: u64 = GRPC_MAX_MESSAGE_BYTES as u64 + GRPC_FRAME_HEADER_BYTES as u64;
    if let Some(length) = head.content_length {
        if length > longest {
            return Err(OverwriteAttemptError::Retryable(RESPONSE_TOO_LARGE.to_owned()));
        }
    }
    Ok(AwaitingBody { limit: longest + 1, grpc_status_given: grpc_status.is_some() })
}

/// The body that was read, unless reading failed or it is too long.
pub fn read_grpc_response_body(read: Result<Vec<u8>, String>) -> (body: Result<Vec<u8>, String>)
    ensures
        match read {
            Err(reason) => body matches Err(message) && message@ == RESPONSE_READ_FAILED@ + reason@,
            Ok(bytes) => if bytes@.len() > longest_body() {
                body matches Err(message) && message@ == RESPONSE_TOO_LARGE@
            } else {
                body == read
            },
        },
{
    match read {
        Err(reason) => Err(join2(RESPONSE_READ_FAILED, reason.as_str())),
        Ok(bytes) => {
            if bytes.len() > GRPC_MAX_MESSAGE_BYTES + GRPC_FRAME_HEADER_BYTES {
                return Err(RESPONSE_TOO_LARGE.to_owned());
            }
            Ok(bytes)
        },
    }
}

/// What the body of a response comes to.
pub open spec fn body_message(
    operation: Seq<char>,
    grpc_status_given: bool,
    read: Result<Vec<u8>, String>,
) -> Result<Seq<u8>, AttemptFailure> {
    match read {
        Err(reason) => Err(AttemptFailure::Retryable(RESPONSE_READ_FAILED@ + reason@)),
        Ok(body) => if body@.len() > longest_body() {
            Err(AttemptFailure::Retryable(RESPONSE_TOO_LARGE@))
        } else if body@.len() == 0 && !grpc_status_given {
            Err(AttemptFailure::EmptyResponse)
        } else {
            match grpc_message(body@) {
                Ok(payload) => Ok(payload),
                Err(reason) => Err(
                    AttemptFailure::Retryable(operation + RESPONSE_FRAME_FAILED@ + reason),
                ),
            }
        },
    }
}

/// Takes the message out of the body of a response. `read` is what reading the body came to.
pub fn rpc_response_read(
    operation: &str,
    awaiting: AwaitingBody,
    read: Result<Vec<u8>, String>,
) -> (payload: Result<Vec<u8>, OverwriteAttemptError>)
    ensures
        match body_message(operation@, awaiting.grpc_status_given, read) {
            Ok(message) => payload matches Ok(bytes) && bytes@ == message,
            Err(failure) => payload matches Err(error) && error@ == failure,
        },
{
    let body = match read_grpc_response_body(read) {
        Ok(body) => body,
        Err(message) => return Err(OverwriteAttemptError::Retryable(message)),
    };
    if body.is_empty() && !awaiting.grpc_status_given {
        return Err(OverwriteAttemptError::EmptyResponse);
    }
    match decode_grpc_frame(body.as_slice()) {
        Ok(payload) => Ok(payload),
        Err(reason) => {
            let message = join3(operation, RESPONSE_FRAME_FAILED, reason.as_str());
            Err(OverwriteAttemptError::Retryable(message))
        },
    }
}

/// The reply that a message holds. `decoded` is what decoding the message came to.
pub fn rpc_reply_decoded(operation: &str, decoded: Result<EncryptedResponse, String>) -> (reply:
    Result<EncryptedResponse, OverwriteAttemptError>)
    ensures
        match decoded {
            Ok(response) => reply == Ok::<EncryptedResponse, OverwriteAttemptError>(response),
            Err(reason) => reply matches Err(error) && error@ == AttemptFailure::Retryable(
                operation@ + RESPONSE_DECODE_FAILED@ + reason@,
            ),
        },
{
    match decoded {
        Ok(response) => Ok(response),
        Err(reason) => {
            let message = join3(operation, RESPONSE_DECODE_FAILED, reason.as_str());
            Err(OverwriteAttemptError::Retryable(message))
        },
    }
}

/// An attempt yields a message only from a response that reports success, both in HTTP and, as
/// far as it says so, in gRPC, and whose body is exactly the frame of that message.
pub proof fn law_accepted_body_is_one_frame(
    operation: Seq<char>,
    head: RpcResponseHead,
    read: Result<Vec<u8>, String>,
)
    requires
        head_failure(operation, head) is None,
        body_message(operation, header_reads(head.grpc_status) is Some, read) is Ok,
    ensures
        is_success(head.http_status),
        header_reads(head.grpc_status) matches Some(status) ==> status == "0"@,
        read matches Ok(body) && body@ == grpc_frame(
            body_message(operation, header_reads(head.grpc_status) is Some, read)->Ok_0,
        ),
        body_message(operation, header_reads(head.grpc_status) is Some, read)->Ok_0.len()
            <= GRPC_MAX_MESSAGE_BYTES,
{
    law_encode_undoes_decode(read->Ok_0@);
}

/// The frame of any message within the size limit is accepted, and yields that message.
pub proof fn law_frames_are_accepted(
    operation: Seq<char>,
    grpc_status_given: bool,
    payload: Seq<u8>,
    body: Vec<u8>,
)
    requires
        payload.len() <= GRPC_MAX_MESSAGE_BYTES,
        body@ == grpc_frame(payload),
    ensures
        body_message(operation, grpc_status_given, Ok(body)) == Ok::<Seq<u8>, AttemptFailure>(
            payload,
        ),
{
    law_decode_undoes_encode(payload);
    crate::bytes::lemma_be_bytes_len(payload.len(), 4);
}

/// Only an overloaded or faulty backend is worth another attempt: a rejection can be retried
/// exactly when the backend reports a fault of its own or too many requests, and does not report
/// an invalid argument.
pub proof fn law_retryable_rejections(
    operation: Seq<char>,
    http_status: u16,
    grpc_status: Option<Seq<char>>,
    grpc_message: Option<Seq<char>>,
)
    ensures
        status_failure(operation, http_status, grpc_status, grpc_message) is Some ==> (
        status_failure(operation, http_status, grpc_status, grpc_message)->0 is Retryable <==> (
        is_server_error(http_status) || http_status == HTTP_TOO_MANY_REQUESTS) && grpc_status
            != Some("3"@)),
        status_failure(operation, http_status, grpc_status, grpc_message) is Some ==> !(
        status_failure(operation, http_status, grpc_status, grpc_message)->0 is EmptyResponse),
{
}

/// Whatever the backend's own fault is, another attempt is worth it: with any HTTP status from 500
/// to 599, and with 429, an attempt fails retryably unless the gRPC status reports an invalid
/// argument.
pub proof fn law_server_faults_are_retryable(
    operation: Seq<char>,
    http_status: u16,
    grpc_status: Option<Seq<char>>,
    grpc_message: Option<Seq<char>>,
)
    requires
        500 <= http_status <= 599 || http_status == 429,
        grpc_status != Some("3"@),
    ensures
        status_failure(operation, http_status, grpc_status, grpc_message) matches Some(
            AttemptFailure::Retryable(_),
        ),
{
}

/// How a response is judged by its statuses, in numbers and words: success is an HTTP status from
/// 200 to 299 with no gRPC status or `0`; the gRPC status `3` is an invalid argument, with the
/// message of the backend unless that is blank; anything else is a rejection that names both
/// statuses, retryable for an HTTP status from 500 to 599 and for 429, and fatal otherwise.
pub proof fn law_status_grading(
    operation: Seq<char>,
    http_status: u16,
    grpc_status: Option<Seq<char>>,
    grpc_message: Option<Seq<char>>,
)
    ensures
        200 <= http_status <= 299 && (grpc_status is None || grpc_status == Some("0"@))
            ==> status_failure(operation, http_status, grpc_status, grpc_message) is None,
        grpc_status == Some("3"@) ==> status_failure(
            operation,
            http_status,
            grpc_status,
            grpc_message,
        ) == Some(
            AttemptFailure::InvalidArgument(
                match grpc_message {
                    Some(message) => if trimmed(message).len() > 0 {
                        message
                    } else {
                        "INVALID_ARGUMENT"@
                    },
                    None => "INVALID_ARGUMENT"@,
                },
            ),
        ),
        grpc_status != Some("3"@) && !(200 <= http_status <= 299 && (grpc_status is None
            || grpc_status == Some("0"@))) ==> {
            let text = operation + " rejected: http_status="@ + status_display(http_status)
                + " grpc_status="@ + debug_form(grpc_status);
            status_failure(operation, http_status, grpc_status, grpc_message) == Some(
                if 500 <= http_status <= 599 || http_status == 429 {
                    AttemptFailure::Retryable(text)
                } else {
                    AttemptFailure::Fatal(text)
                },
            )
        },
{
    reveal_strlit("0");
    reveal_strlit("3");
    assert("0"@[0] != "3"@[0]);
}

/// What can be told of the statuses in a rejection.
pub proof fn law_legible_statuses(http_status: u16, grpc_status: Option<Seq<char>>)
    ensures
        statuses_are_legible(http_status, grpc_status) ==> {
            &&& exists|reason: Seq<char>|
                status_display(http_status) == #[trigger] (decimal_digits(http_status as nat)
                    + " "@ + reason)
            &&& debug_form_is_plain(grpc_status)
        },
{
    if statuses_are_legible(http_status, grpc_status) {
        let start = decimal_digits(http_status as nat) + " "@;
        let text = status_display(http_status);
        let reason = text.skip(start.len() as int);
        assert(text =~= start + reason);
    }
}

/// A header is read as text byte by byte, unless it is absent or has a byte that is neither visible
/// ASCII, from 32 to 126, nor a tab.
pub proof fn law_header_text(bytes: Vec<u8>)
    ensures
        header_reads(None) == None::<Seq<char>>,
        header_reads(Some(bytes)) == (if forall|i: int|
            0 <= i < bytes@.len() ==> 32 <= #[trigger] bytes@[i] <= 126 || bytes@[i] == 9 {
            Some(Seq::new(bytes@.len(), |i: int| bytes@[i] as char))
        } else {
            None
        }),
{
    assert(ascii_text(bytes@) =~= Seq::new(bytes@.len(), |i: int| bytes@[i] as char));
}

/// A head is refused for its statuses, and else for announcing more bytes than the header and the
/// largest message of a frame have.
pub proof fn law_head_grading(operation: Seq<char>, head: RpcResponseHead)
    ensures
        longest_body() == 1_048_581,
        head_failure(operation, head) == (match status_failure(
            operation,
            head.http_status,
            header_reads(head.grpc_status),
            header_reads(head.grpc_message),
        ) {
            Some(failure) => Some(failure),
            None => if head.content_length is Some && head.content_length->0 > 1_048_581 {
                Some(AttemptFailure::Retryable("backend response exceeds the size limit"@))
            } else {
                None
            },
        }),
{
}

/// What a body comes to: a reading failure and too many bytes are retryable, no bytes without a
/// gRPC status are an empty response, and else the frame decides, a bad one being retryable.
pub proof fn law_body_grading(
    operation: Seq<char>,
    grpc_status_given: bool,
    body: Vec<u8>,
    reason: String,
)
    ensures
        body_message(operation, grpc_status_given, Err(reason)) == Err::<Seq<u8>, AttemptFailure>(
            AttemptFailure::Retryable("backend response read failed: "@ + reason@),
        ),
        body@.len() > 1_048_581 ==> body_message(operation, grpc_status_given, Ok(body)) == Err::<
            Seq<u8>,
            AttemptFailure,
        >(AttemptFailure::Retryable("backend response exceeds the size limit"@)),
        body@.len() == 0 && !grpc_status_given ==> body_message(
            operation,
            grpc_status_given,
            Ok(body),
        ) == Err::<Seq<u8>, AttemptFailure>(AttemptFailure::EmptyResponse),
        body@.len() <= 1_048_581 && (body@.len() > 0 || grpc_status_given) ==> body_message(
            operation,
            grpc_status_given,
            Ok(body),
        ) == (match grpc_message(body@) {
            Ok(payload) => Ok::<Seq<u8>, AttemptFailure>(payload),
            Err(fault) => Err(
                AttemptFailure::Retryable(operation + " response frame failed: "@ + fault),
            ),
        }),
{
}

/// Every request carries three headers, in this order, and the view of a list of headers keeps
/// names, values and order.
pub proof fn law_request_headers(headers: Seq<(&'static str, &'static str)>, i: int)
    ensures
        rpc_headers() == seq![
            ("content-type"@, "application/grpc"@),
            ("te"@, "trailers"@),
            ("user-agent"@, "DroidfoodAttestationFixer/0.1"@),
        ],
        headers_view(headers).len() == headers.len(),
        0 <= i < headers.len() ==> headers_view(headers)[i] == (headers[i].0@, headers[i].1@),
{
}

/// The statuses that a response can have.
pub proof fn law_http_statuses(head: RpcResponseHead, reason: String)
    ensures
        has_http_status(Ok(head)) <==> 100 <= head.http_status <= 999,
        has_http_status(Err(reason)),
{
}

} // verus!
