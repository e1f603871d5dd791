use droidfoodattestation::rpc::{
    read_grpc_response_body, rpc_reply_decoded, rpc_request, rpc_response_read,
    rpc_response_started, AwaitingBody, RpcResponseHead, OVERWRITE_OPERATION,
    PROVISION_OPERATION,
};
use droidfoodattestation::types::{EncryptedResponse, OverwriteAttemptError};

const LONGEST_BODY: usize = 1_048_581;

fn head(http_status: u16, grpc_status: Option<&[u8]>) -> RpcResponseHead {
    RpcResponseHead {
        http_status,
        grpc_status: grpc_status.map(<[u8]>::to_vec),
        grpc_message: None,
        content_length: None,
    }
}

fn started(head: RpcResponseHead) -> Result<AwaitingBody, OverwriteAttemptError> {
    rpc_response_started(OVERWRITE_OPERATION, Ok(head))
}

fn retryable<T>(result: Result<T, OverwriteAttemptError>) -> String {
    match result {
        Err(OverwriteAttemptError::Retryable(message)) => message,
        _ => panic!("not retryable"),
    }
}

fn fatal<T>(result: Result<T, OverwriteAttemptError>) -> String {
    match result {
        Err(OverwriteAttemptError::Fatal(message)) => message,
        _ => panic!("not fatal"),
    }
}

fn invalid_argument<T>(result: Result<T, OverwriteAttemptError>) -> String {
    match result {
        Err(OverwriteAttemptError::InvalidArgument(message)) => message,
        _ => panic!("no invalid argument"),
    }
}

#[test]
fn request_is_a_grpc_call() {
    let request = rpc_request("ProvisionAttestationKey", b"frame", 17);
    assert_eq!(
        request.url,
        "https://greendroidfood-pa.helluvaos.com/\
         mystic.attestation.public.v1.AttestationOverwriter/ProvisionAttestationKey"
    );
    assert_eq!(
        request.headers,
        vec![
            ("content-type", "application/grpc"),
            ("te", "trailers"),
            ("user-agent", "DroidfoodAttestationFixer/0.1"),
        ]
    );
    assert_eq!(request.timeout_nanos, 17);
    assert_eq!(request.body, b"frame");
}

#[test]
fn failed_transport_can_be_retried() {
    let result = rpc_response_started(OVERWRITE_OPERATION, Err("no route".to_owned()));
    assert_eq!(retryable(result), "attestation overwrite HTTP/2 failed: no route");
}

#[test]
fn successful_head_is_followed_by_the_body() {
    let awaiting = started(head(200, None)).unwrap();
    assert_eq!(awaiting.limit, LONGEST_BODY as u64 + 1);
    assert!(!awaiting.grpc_status_given);
    assert!(started(head(204, Some(b"0"))).unwrap().grpc_status_given);
    assert!(!started(head(299, Some(b"\xff"))).unwrap().grpc_status_given);
}

#[test]
fn invalid_argument_carries_the_reason() {
    let reason = |message: Option<&[u8]>| {
        invalid_argument(started(RpcResponseHead {
            grpc_message: message.map(<[u8]>::to_vec),
            ..head(200, Some(b"3"))
        }))
    };
    assert_eq!(reason(Some(b"bad chain")), "bad chain");
    assert_eq!(reason(Some(b" spaced ")), " spaced ");
    assert_eq!(reason(Some(b" \t ")), "INVALID_ARGUMENT");
    assert_eq!(reason(Some(b"")), "INVALID_ARGUMENT");
    assert_eq!(reason(Some(b"caf\xc3\xa9")), "INVALID_ARGUMENT");
    assert_eq!(reason(None), "INVALID_ARGUMENT");
    assert_eq!(invalid_argument(started(head(503, Some(b"3")))), "INVALID_ARGUMENT");
}

#[test]
fn rejection_names_the_statuses() {
    assert_eq!(
        fatal(started(head(404, None))),
        "attestation overwrite rejected: http_status=404 Not Found grpc_status=None"
    );
    assert_eq!(
        fatal(started(head(200, Some(b"16")))),
        "attestation overwrite rejected: http_status=200 OK grpc_status=Some(\"16\")"
    );
    assert_eq!(
        fatal(started(head(200, Some(b"Unavailable14")))),
        "attestation overwrite rejected: http_status=200 OK grpc_status=Some(\"Unavailable14\")"
    );
    assert_eq!(
        fatal(started(head(200, Some(b"")))),
        "attestation overwrite rejected: http_status=200 OK grpc_status=Some(\"\")"
    );
    assert_eq!(
        fatal(rpc_response_started(PROVISION_OPERATION, Ok(head(799, Some(b"0"))))),
        "attestation-key provisioning rejected: http_status=799 <unknown status code> \
         grpc_status=Some(\"0\")"
    );
}

#[test]
fn overload_and_server_faults_can_be_retried() {
    assert_eq!(
        retryable(started(head(429, None))),
        "attestation overwrite rejected: http_status=429 Too Many Requests grpc_status=None"
    );
    assert_eq!(
        retryable(started(head(503, Some(b"14")))),
        "attestation overwrite rejected: http_status=503 Service Unavailable \
         grpc_status=Some(\"14\")"
    );
    retryable(started(head(500, None)));
    retryable(started(head(599, None)));
    fatal(started(head(499, None)));
    fatal(started(head(600, None)));
    fatal(started(head(199, None)));
    fatal(started(head(300, None)));
}

#[test]
fn announced_length_is_limited() {
    let announced = |length| {
        started(RpcResponseHead { content_length: Some(length), ..head(200, None) })
    };
    assert!(announced(LONGEST_BODY as u64).is_ok());
    assert_eq!(
        retryable(announced(LONGEST_BODY as u64 + 1)),
        "backend response exceeds the size limit"
    );
}

#[test]
fn body_is_limited() {
    assert_eq!(read_grpc_response_body(Ok(vec![0; LONGEST_BODY])).unwrap().len(), LONGEST_BODY);
    assert_eq!(
        read_grpc_response_body(Ok(vec![0; LONGEST_BODY + 1])).unwrap_err(),
        "backend response exceeds the size limit"
    );
    assert_eq!(
        read_grpc_response_body(Err("reset".to_owned())).unwrap_err(),
        "backend response read failed: reset"
    );
}

#[test]
fn body_is_one_frame() {
    let read = |given, body: Result<Vec<u8>, String>| {
        let awaiting = AwaitingBody { limit: 0, grpc_status_given: given };
        rpc_response_read(OVERWRITE_OPERATION, awaiting, body)
    };
    assert_eq!(read(false, Ok(b"\0\0\0\0\x02hi".to_vec())).unwrap(), b"hi");
    assert_eq!(read(true, Ok(b"\0\0\0\0\0".to_vec())).unwrap(), b"");
    assert!(matches!(read(false, Ok(vec![])), Err(OverwriteAttemptError::EmptyResponse)));
    assert_eq!(
        retryable(read(true, Ok(vec![]))),
        "attestation overwrite response frame failed: \
         response body is shorter than a gRPC frame header"
    );
    assert_eq!(
        retryable(read(false, Ok(vec![1, 0, 0, 0, 0]))),
        "attestation overwrite response frame failed: \
         compressed gRPC response is not supported"
    );
    assert_eq!(
        retryable(read(false, Err("reset".to_owned()))),
        "backend response read failed: reset"
    );
    assert_eq!(
        retryable(read(false, Ok(vec![0; LONGEST_BODY + 1]))),
        "backend response exceeds the size limit"
    );
}

#[test]
fn undecodable_reply_can_be_retried() {
    let response = EncryptedResponse {
        encrypted_response: vec![1],
        response_nonce: vec![2],
        response_ephemeral_public_key: vec![3],
    };
    let reply = rpc_reply_decoded(PROVISION_OPERATION, Ok(response)).unwrap();
    assert_eq!(reply.response_nonce, vec![2]);
    let failed = rpc_reply_decoded(PROVISION_OPERATION, Err("wire".to_owned()));
    assert_eq!(retryable(failed), "attestation-key provisioning response decode failed: wire");
}
