use droidfoodattestation::grpc::{
    backend_grpc_base, backend_grpc_url, decode_grpc_frame, encode_grpc_frame,
    GRPC_MAX_MESSAGE_BYTES,
};
use droidfoodattestation::USE_BACKEND_PROXY;

#[test]
fn requests_go_to_the_direct_backend() {
    assert!(!USE_BACKEND_PROXY);
    assert_eq!(backend_grpc_base(), "https://greendroidfood-pa.helluvaos.com");
}

#[test]
fn url_names_service_and_method() {
    assert_eq!(
        backend_grpc_url("OverwriteAttestation"),
        "https://greendroidfood-pa.helluvaos.com/\
         mystic.attestation.public.v1.AttestationOverwriter/OverwriteAttestation"
    );
    assert_ne!(backend_grpc_url("A"), backend_grpc_url("B"));
}

#[test]
fn frame_has_flag_and_length() {
    assert_eq!(encode_grpc_frame(b"abc").unwrap(), b"\x00\x00\x00\x00\x03abc");
    assert_eq!(encode_grpc_frame(b"").unwrap(), b"\x00\x00\x00\x00\x00");
    let long = vec![7u8; 0x010203];
    assert_eq!(&encode_grpc_frame(&long).unwrap()[..6], b"\x00\x00\x01\x02\x03\x07");
}

#[test]
fn frame_decodes_to_its_message() {
    for length in [0usize, 1, 255, 256, GRPC_MAX_MESSAGE_BYTES] {
        let message = vec![0xa5u8; length];
        let frame = encode_grpc_frame(&message).unwrap();
        assert_eq!(frame.len(), length + 5);
        assert_eq!(decode_grpc_frame(&frame).unwrap(), message);
    }
}

#[test]
fn what_decodes_is_the_frame_of_its_message() {
    let body = b"\x00\x00\x00\x00\x02hi";
    let message = decode_grpc_frame(body).unwrap();
    assert_eq!(message, b"hi");
    assert_eq!(encode_grpc_frame(&message).unwrap(), body);
}

#[test]
fn too_large_request_is_refused() {
    let message = vec![0u8; GRPC_MAX_MESSAGE_BYTES + 1];
    assert_eq!(
        encode_grpc_frame(&message).unwrap_err(),
        "request payload exceeds the gRPC message size limit"
    );
}

#[test]
fn bad_frames_are_refused() {
    let error = |body: &[u8]| decode_grpc_frame(body).unwrap_err();
    assert_eq!(error(b""), "response body is shorter than a gRPC frame header");
    assert_eq!(error(b"\0\0\0\0"), "response body is shorter than a gRPC frame header");
    assert_eq!(error(b"\x01\0\0\0\0"), "compressed gRPC response is not supported");
    assert_eq!(error(b"\0\x00\x10\x00\x01"), "gRPC message payload exceeds the size limit");
    assert_eq!(error(b"\0\xff\xff\xff\xff"), "gRPC message payload exceeds the size limit");
    assert_eq!(
        error(b"\0\0\0\0\x02a"),
        "response body ended before the gRPC message payload"
    );
    assert_eq!(error(b"\0\0\0\0\x01ab"), "response body contained trailing gRPC data");
}
