use obelisk::signaling::{MicrophoneRestriction, Participant, StreamStatus, WebsocketEvent};
use obelisk::websocket::{
    enter_response, is_admission, join_response, payload_to_event, ControlPayload, JoinState,
    JoinSuccess, LiveKitPayload, ModerationPayload, Payload, RecordingPayload, WebsocketError,
};

fn join_success() -> JoinSuccess {
    JoinSuccess {
        id: 42,
        participants: vec![Participant { id: 1, display_name: "Ann".to_string(), left: false }],
        microphone_restriction: MicrophoneRestriction::Disabled,
        streaming_targets: vec![],
        livekit_url: "wss://livekit.example".to_string(),
        livekit_token: "token".to_string(),
    }
}

#[test]
fn payloads_become_events() {
    let p = Participant { id: 7, display_name: "Eve".to_string(), left: false };
    match payload_to_event(Payload::Control(ControlPayload::Joined(p))) {
        Ok(Some(WebsocketEvent::Joined(q))) => assert_eq!((q.id, q.display_name.as_str()), (7, "Eve")),
        other => panic!("unexpected {other:?}"),
    }
    assert!(matches!(payload_to_event(Payload::Control(ControlPayload::Left(7))), Ok(Some(WebsocketEvent::Left(7)))));
    assert!(matches!(
        payload_to_event(Payload::Moderation(ModerationPayload::InWaitingRoom)),
        Ok(Some(WebsocketEvent::MovedToWaitingRoom))
    ));
    assert!(matches!(
        payload_to_event(Payload::Moderation(ModerationPayload::SessionEnded { issued_by: 3 })),
        Ok(Some(WebsocketEvent::SessionEnded))
    ));
    assert!(matches!(
        payload_to_event(Payload::Recording(RecordingPayload::StreamUpdated { target_id: 5, status: StreamStatus::Active })),
        Ok(Some(WebsocketEvent::StreamUpdated { target_id: 5, status: StreamStatus::Active }))
    ));
    assert!(matches!(payload_to_event(Payload::Recording(RecordingPayload::Error)), Ok(None)));
    assert!(matches!(payload_to_event(Payload::Recording(RecordingPayload::RecorderError)), Ok(None)));
    assert!(matches!(
        payload_to_event(Payload::LiveKit(LiveKitPayload::MicrophoneRestrictionsDisabled)),
        Ok(Some(WebsocketEvent::MicrophoneRestrictionsDisabled))
    ));
    assert!(matches!(payload_to_event(Payload::LiveKit(LiveKitPayload::Other)), Ok(Some(WebsocketEvent::OtherLiveKitEvent))));
}

#[test]
fn unexpected_payloads_are_errors() {
    assert!(matches!(
        payload_to_event(Payload::Control(ControlPayload::JoinSuccess(join_success()))),
        Err(WebsocketError::UnexpectedJoinSuccess)
    ));
    assert!(matches!(
        payload_to_event(Payload::Moderation(ModerationPayload::Accepted)),
        Err(WebsocketError::UnexpectedAccepted)
    ));
}

#[test]
fn join_and_enter_responses() {
    match join_response(Payload::Control(ControlPayload::JoinSuccess(join_success()))) {
        Ok(JoinState::Joined(js)) => assert_eq!(js.id, 42),
        other => panic!("unexpected {other:?}"),
    }
    assert!(matches!(join_response(Payload::Moderation(ModerationPayload::InWaitingRoom)), Ok(JoinState::InWaitingRoom)));
    assert!(matches!(
        join_response(Payload::Control(ControlPayload::Left(1))),
        Err(WebsocketError::UnexpectedJoinResponse)
    ));
    assert_eq!(enter_response(Payload::Control(ControlPayload::JoinSuccess(join_success()))).unwrap().participants.len(), 1);
    assert!(matches!(
        enter_response(Payload::Moderation(ModerationPayload::InWaitingRoom)),
        Err(WebsocketError::UnexpectedEnterResponse)
    ));
    assert!(is_admission(&Payload::Moderation(ModerationPayload::Accepted)));
    assert!(!is_admission(&Payload::Moderation(ModerationPayload::InWaitingRoom)));
}
