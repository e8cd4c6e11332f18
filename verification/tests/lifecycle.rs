use shellcanvas_drive_bridge::bridge_control::{
    BridgeControl, BridgeDirective, BridgeEvent, BridgePhase, MESSAGE_LIMIT,
};
use shellcanvas_drive_bridge::error::FsErrorKind;
use shellcanvas_drive_bridge::mount_gate::MountGate;

#[test]
fn busy_detach_preserves_attachment_and_requires_a_new_explicit_request() {
    let mut control = BridgeControl::default();
    assert!(control.request_detach().is_err());
    control.report(BridgeEvent::Ready).unwrap();
    control.request_detach().unwrap();
    assert!(control.request_detach().is_err());
    assert!(matches!(control.poll().unwrap(), BridgeDirective::Detach));
    assert!(matches!(control.poll().unwrap(), BridgeDirective::Continue));
    control
        .report(BridgeEvent::DetachFailed {
            message: "Close the editor".into(),
        })
        .unwrap();
    assert_eq!(control.snapshot().phase, BridgePhase::Attached);
    assert!(matches!(control.poll().unwrap(), BridgeDirective::Continue));
    control.request_detach().unwrap();
    control.poll().unwrap();
    control.report(BridgeEvent::Detached).unwrap();
    control.fail("pipe closed normally".into());
    assert_eq!(control.snapshot().phase, BridgePhase::Detached);
    assert!(control.report(BridgeEvent::Ready).is_err());
}

#[test]
fn a_lost_attachment_is_retired_with_its_reason() {
    let mut control = BridgeControl::default();
    control.report(BridgeEvent::Ready).unwrap();
    control.fail("pipe broke".into());
    let snapshot = control.snapshot();
    assert_eq!(snapshot.phase, BridgePhase::Failed);
    assert_eq!(snapshot.message.as_deref(), Some("pipe broke"));
    let error = control.poll().unwrap_err();
    assert_eq!(error.kind, FsErrorKind::Offline);
    assert_eq!(error.message, "Attachment is retired");
    let event = control.report(BridgeEvent::Detached).unwrap_err();
    assert_eq!(event.kind, FsErrorKind::InvalidInput);
    assert_eq!(event.message, "Unexpected attachment lifecycle event");
}

#[test]
fn warnings_are_shown_while_attached_and_long_ones_are_cut() {
    let mut control = BridgeControl::default();
    let early = control.report(BridgeEvent::Warning { message: "early".into() });
    assert!(early.is_err());
    control.report(BridgeEvent::Ready).unwrap();
    let long: String = std::iter::repeat('é').take(MESSAGE_LIMIT + 5).collect();
    control
        .report(BridgeEvent::Warning { message: long.clone() })
        .unwrap();
    let shown = control.snapshot().message.unwrap();
    assert_eq!(shown.chars().count(), MESSAGE_LIMIT);
    assert!(long.starts_with(&shown));
    control.request_detach().unwrap();
    assert!(control.snapshot().message.is_none());
    assert_eq!(
        control.request_detach().unwrap_err().message,
        "Attachment is not ready for a detach request"
    );
}

#[test]
fn busy_refusal_keeps_opens_working_and_success_closes_the_race() {
    let mut gate = MountGate::default();
    let first = gate.enter().unwrap();
    assert!(gate.begin_detach().is_err());
    let second = gate.enter().unwrap();
    gate.leave(first);
    assert!(gate.begin_detach().is_err());
    gate.leave(second);
    gate.begin_detach().unwrap();
    assert!(gate.enter().is_err());
}

#[test]
fn a_busy_gate_says_how_many_handles_are_open() {
    let mut gate = MountGate::default();
    let mut guards = Vec::new();
    for _ in 0..120 {
        guards.push(gate.enter().unwrap());
    }
    assert_eq!(
        gate.begin_detach().unwrap_err(),
        "Local applications still hold 120 file or folder handles. Close them and try detaching again."
    );
    while let Some(guard) = guards.pop() {
        if guards.is_empty() {
            assert_eq!(
                gate.begin_detach().unwrap_err(),
                "Local applications still hold 1 file or folder handles. Close them and try detaching again."
            );
        }
        gate.leave(guard);
    }
    gate.begin_detach().unwrap();
    assert_eq!(gate.enter().unwrap_err(), "Attachment is being detached");
}
