use shellcanvas_drive_bridge::error::{FsError, FsErrorKind};
use shellcanvas_drive_bridge::path::MountPath;
use shellcanvas_drive_bridge::wire::{
    encode, frame_length, Client, FrameError, Operation, Request, Response, Value, MAX_FRAME,
    PROTOCOL,
};

#[test]
fn framing_rejects_oversize_and_path_traversal() {
    assert!(frame_length(((MAX_FRAME + 1) as u32).to_be_bytes()).is_err());
    let names: Vec<String> = serde_json::from_slice(br#"["..","etc"]"#).unwrap();
    assert!(MountPath::try_from(names).is_err());
}

#[test]
fn framed_requests_preserve_large_offsets() {
    let offset = (1u64 << 53) + 1;
    let body = serde_json::to_vec(&offset).unwrap();
    let frame = encode(&body).unwrap();
    let length = frame_length([frame[0], frame[1], frame[2], frame[3]]).unwrap();
    let decoded: u64 = serde_json::from_slice(&frame[4..4 + length]).unwrap();
    assert_eq!(decoded, offset);
}

#[test]
fn mismatched_reply_retires_the_transport() {
    let mut client = Client::new();
    let request = client.begin(Operation::Capabilities).unwrap();
    let result = client.finish(
        request.id,
        Ok(Response {
            version: PROTOCOL,
            id: 99,
            result: Ok(Value::Unit),
        }),
    );
    assert_eq!(result.unwrap_err().kind, FsErrorKind::Offline);
    let refused = client.begin(Operation::Capabilities).unwrap_err();
    assert_eq!(refused.kind, FsErrorKind::Offline);
    assert_eq!(refused.message, "Bridge connection is closed");
}

#[test]
fn a_reply_of_another_version_retires_the_transport() {
    let mut client = Client::new();
    let request = client.begin(Operation::Poll).unwrap();
    let result = client.finish(
        request.id,
        Ok(Response {
            version: PROTOCOL + 1,
            id: request.id,
            result: Ok(Value::Unit),
        }),
    );
    assert_eq!(result.unwrap_err().message, "Mismatched filesystem reply");
    assert!(client.begin(Operation::Poll).is_err());
}

#[test]
fn a_broken_pipe_retires_the_transport_with_its_reason() {
    let mut client = Client::new();
    let request = client.begin(Operation::Poll).unwrap();
    let error = client
        .finish(request.id, Err("failed to fill whole buffer".to_owned()))
        .unwrap_err();
    assert_eq!(error.kind, FsErrorKind::Offline);
    assert_eq!(error.message, "failed to fill whole buffer");
    assert!(client.begin(Operation::Poll).is_err());
    assert!(client.can_begin());
}

#[test]
fn an_error_of_the_provider_leaves_the_transport_usable() {
    let mut client = Client::new();
    for expected in 1..4 {
        let request: Request = client.begin(Operation::Poll).unwrap();
        assert_eq!(request.id, expected);
        assert_eq!(request.version, PROTOCOL);
        let result = client.finish(
            request.id,
            Ok(Response {
                version: PROTOCOL,
                id: request.id,
                result: Err(FsError::new(FsErrorKind::NotFound, "gone")),
            }),
        );
        assert_eq!(result.unwrap_err().kind, FsErrorKind::NotFound);
    }
}

#[test]
fn frames_carry_their_length_most_significant_byte_first() {
    let frame = encode(&vec![7u8; 258]).unwrap();
    assert_eq!(&frame[..4], &[0, 0, 1, 2]);
    assert_eq!(&frame[4..], vec![7u8; 258].as_slice());
    assert_eq!(frame_length([0, 0, 1, 2]), Ok(258));
    assert_eq!(frame_length([0, 16, 0, 0]), Ok(MAX_FRAME));
}

#[test]
fn empty_and_oversize_frames_are_refused_both_ways() {
    assert_eq!(encode(&Vec::new()), Err(FrameError::Bound));
    assert_eq!(encode(&vec![0u8; MAX_FRAME + 1]), Err(FrameError::Bound));
    assert_eq!(encode(&vec![0u8; MAX_FRAME]).unwrap().len(), MAX_FRAME + 4);
    assert_eq!(frame_length([0, 0, 0, 0]), Err(FrameError::Length));
    assert_eq!(frame_length([0, 16, 0, 1]), Err(FrameError::Length));
    assert_eq!(frame_length([255, 255, 255, 255]), Err(FrameError::Length));
    assert_eq!(
        FrameError::Bound.message(),
        "Filesystem bridge frame exceeds its bound"
    );
    assert_eq!(
        FrameError::Length.message(),
        "Invalid filesystem bridge frame length"
    );
}
