use obelisk::signaling::{
    CallState, ConnectOutcome, MediaEvent, MicrophoneRestriction, Participant,
    RecordingConsentState, Responder, Signaling, SignalingAction, StreamStatus, TrackKind,
    WebsocketEvent,
};
use obelisk::track::Track;

fn dial(s: &mut Signaling, digits: &[u8]) -> Vec<SignalingAction> {
    let mut all = Vec::new();
    for d in digits {
        all.extend(s.handle_media_event(MediaEvent::DtmfDigit(*d), true, 0));
    }
    all
}

fn participant(id: u128, name: &str) -> Participant {
    Participant { id, display_name: name.to_string(), left: false }
}

/// A call that dialed in, connected and joined the conference as 42.
fn joined_call() -> Signaling {
    let mut s = Signaling::new();
    dial(&mut s, &[1, 2, 3, 4, 5, 6, 7, 8, 9, 0, 9, 8, 7, 6, 5, 4, 3, 2, 1, 0]);
    s.handle_connect_result(ConnectOutcome::Connected);
    s.handle_join_result(vec![], vec![], MicrophoneRestriction::Disabled, 42);
    s
}

#[test]
fn dialing_in_connects_with_id_and_pin() {
    let mut s = Signaling::new();
    let a = dial(&mut s, &[1, 2, 3, 4, 5, 6, 7, 8, 9]);
    assert!(a.is_empty());
    let a = dial(&mut s, &[0]);
    assert_eq!(a, vec![SignalingAction::PlayTrack(Track::WelcomePasscode)]);
    assert_eq!(s.dtmf_id_text(), "1234567890");
    let a = dial(&mut s, &[5]);
    assert_eq!(a, vec![SignalingAction::StartPinTimeout]);
    let a = dial(&mut s, &[5]);
    assert_eq!(a, vec![SignalingAction::CancelPinTimeout, SignalingAction::StartPinTimeout]);
    let a = dial(&mut s, &[1, 2, 3, 4, 5, 6, 7]);
    assert_eq!(a.len(), 14);
    let a = dial(&mut s, &[8]);
    assert_eq!(a, vec![SignalingAction::CancelPinTimeout, SignalingAction::ConnectWebsocket]);
    assert_eq!(s.dtmf_pw_text(), "5512345678");
    assert!(!s.pin_timer);
    let a = s.handle_connect_result(ConnectOutcome::Connected);
    assert_eq!(
        a,
        vec![SignalingAction::PlayTrackAndRespond(Track::WelcomeUsage, Responder::WelcomeFinished)]
    );
    assert!(s.websocket);
}

#[test]
fn hash_clears_the_entry() {
    let mut s = Signaling::new();
    dial(&mut s, &[1, 2, 3]);
    assert!(dial(&mut s, &[11]).is_empty());
    assert_eq!(s.dtmf_id_text(), "");
    dial(&mut s, &[1, 2, 3, 4, 5, 6, 7, 8, 9, 0, 4, 4]);
    dial(&mut s, &[11]);
    assert_eq!(s.dtmf_id_text(), "");
    assert_eq!(s.dtmf_pw_text(), "");
    // `*` and other events are ignored
    assert!(dial(&mut s, &[10, 15]).is_empty());
    assert_eq!(s.dtmf_id.len(), 0);
}

#[test]
fn refused_credentials_start_over() {
    let mut s = Signaling::new();
    dial(&mut s, &[1, 2, 3, 4, 5, 6, 7, 8, 9, 0, 1, 2, 3, 4, 5, 6, 7, 8, 9, 0]);
    let a = s.handle_connect_result(ConnectOutcome::InvalidCredentials);
    assert_eq!(a, vec![SignalingAction::PlayTrack(Track::InputInvalid)]);
    assert!(s.dtmf_id.is_empty() && s.dtmf_pw.is_empty());
    assert!(!s.websocket);
    let a = s.handle_connect_result(ConnectOutcome::Failed);
    assert!(a.is_empty());
    assert_eq!(s.state, CallState::Quitting);
}

#[test]
fn pin_timeout_clears_the_pin() {
    let mut s = Signaling::new();
    dial(&mut s, &[1, 2, 3, 4, 5, 6, 7, 8, 9, 0, 1, 2]);
    let a = s.handle_pin_timeout();
    assert_eq!(a, vec![SignalingAction::PlayTrack(Track::InputInvalid)]);
    assert_eq!(s.dtmf_pw_text(), "");
    assert_eq!(s.dtmf_id_text(), "1234567890");
}

#[test]
fn key_bindings_in_the_conference() {
    let mut s = joined_call();
    assert_eq!(
        s.handle_media_event(MediaEvent::DtmfDigit(0), true, 0),
        vec![SignalingAction::StopCurrentTrack]
    );
    assert_eq!(
        s.handle_media_event(MediaEvent::DtmfDigit(1), true, 0),
        vec![
            SignalingAction::SetLocalTrackMute(TrackKind::Audio, true),
            SignalingAction::PlayTrack(Track::On)
        ]
    );
    assert!(s.audio_muted);
    assert_eq!(
        s.handle_media_event(MediaEvent::DtmfDigit(1), false, 0),
        vec![SignalingAction::PlayTrack(Track::MicrophonesRestrictionEnabled)]
    );
    assert!(s.audio_muted);
    assert_eq!(
        s.handle_media_event(MediaEvent::DtmfDigit(4), true, 0),
        vec![
            SignalingAction::SetLocalTrackMute(TrackKind::Video, true),
            SignalingAction::PlayTrack(Track::On)
        ]
    );
    assert_eq!(
        s.handle_media_event(MediaEvent::DtmfDigit(2), true, 0),
        vec![SignalingAction::PlayTrack(Track::On), SignalingAction::SendHandAction(true)]
    );
    assert_eq!(
        s.handle_media_event(MediaEvent::DtmfDigit(2), true, 0),
        vec![SignalingAction::PlayTrack(Track::Off), SignalingAction::SendHandAction(false)]
    );
    assert!(!s.hand_raised);
    assert!(s.handle_media_event(MediaEvent::DtmfDigit(9), true, 0).is_empty());
}

#[test]
fn recording_asks_for_consent_and_mutes() {
    let mut s = joined_call();
    let a = s.handle_websocket_event(WebsocketEvent::StreamUpdated { target_id: 7, status: StreamStatus::Starting });
    assert_eq!(
        a,
        vec![
            SignalingAction::PlayTrack(Track::ConsentInfo),
            SignalingAction::SetLocalTrackMute(TrackKind::Audio, true),
            SignalingAction::SetMicrophonePublish { publish: false, muted: true },
        ]
    );
    assert_eq!(s.recording_consent_state, RecordingConsentState::WaitingForConsent);
    assert!(s.is_any_recording_active());
    // other bindings wait for the answer
    assert_eq!(
        s.handle_media_event(MediaEvent::DtmfDigit(1), true, 0),
        vec![SignalingAction::PlayTrack(Track::ConsentInvalid)]
    );
    // consenting publishes the microphone again, still muted
    let a = s.handle_media_event(MediaEvent::DtmfDigit(3), true, 0);
    assert_eq!(
        a,
        vec![
            SignalingAction::SetConsent(true),
            SignalingAction::PlayTrack(Track::ConsentAccept),
            SignalingAction::SetLocalTrackMute(TrackKind::Audio, true),
            SignalingAction::SetMicrophonePublish { publish: true, muted: true },
        ]
    );
    assert_eq!(s.recording_consent_state, RecordingConsentState::Accepted);
}

#[test]
fn rejecting_a_recording_mutes_camera_and_microphone() {
    let mut s = joined_call();
    s.handle_websocket_event(WebsocketEvent::StreamUpdated { target_id: 7, status: StreamStatus::Active });
    let a = s.handle_media_event(MediaEvent::DtmfDigit(6), true, 0);
    assert_eq!(
        a,
        vec![
            SignalingAction::SetConsent(false),
            SignalingAction::PlayTrack(Track::ConsentReject),
            SignalingAction::SetLocalTrackMute(TrackKind::Audio, true),
            SignalingAction::SetMicrophonePublish { publish: false, muted: true },
            SignalingAction::SetLocalTrackMute(TrackKind::Video, true),
        ]
    );
    assert!(s.audio_muted && s.video_muted);
    assert_eq!(s.recording_consent_state, RecordingConsentState::Rejected);
    // the camera stays muted
    assert_eq!(
        s.handle_media_event(MediaEvent::DtmfDigit(4), true, 0),
        vec![SignalingAction::PlayTrack(Track::ConsentReject)]
    );
    // the recording ends
    let a = s.handle_websocket_event(WebsocketEvent::StreamUpdated { target_id: 7, status: StreamStatus::Inactive });
    assert_eq!(
        a,
        vec![
            SignalingAction::PlayTrack(Track::RecordingStoppedReject),
            SignalingAction::SetLocalTrackMute(TrackKind::Audio, true),
            SignalingAction::SetMicrophonePublish { publish: true, muted: true },
        ]
    );
    assert_eq!(s.recording_consent_state, RecordingConsentState::NoRecording);
}

#[test]
fn joining_into_a_running_recording_asks_for_consent() {
    let mut s = Signaling::new();
    s.handle_connect_result(ConnectOutcome::Connected);
    let a = s.handle_join_result(
        vec![participant(1, "Ann"), Participant { id: 2, display_name: "Bob".to_string(), left: true }],
        vec![(9, StreamStatus::Paused)],
        MicrophoneRestriction::Enabled(vec![1]),
        42,
    );
    assert_eq!(
        a,
        vec![
            SignalingAction::AddParticipant(1),
            SignalingAction::PlayTrack(Track::ConsentInfo),
            SignalingAction::PlayTrack(Track::MicrophonesRestrictionEnabled),
            SignalingAction::SetLocalTrackMute(TrackKind::Audio, true),
            SignalingAction::SetMicrophonePublish { publish: false, muted: true },
        ]
    );
    assert_eq!(s.participant_id, Some(42));
    assert!(s.compositor);
}

#[test]
fn microphone_restrictions() {
    let mut s = joined_call();
    let a = s.handle_websocket_event(WebsocketEvent::MicrophoneRestrictionsEnabled(vec![1, 2]));
    assert_eq!(
        a,
        vec![
            SignalingAction::PlayTrack(Track::MicrophonesRestrictionEnabled),
            SignalingAction::SetLocalTrackMute(TrackKind::Audio, true),
            SignalingAction::SetMicrophonePublish { publish: false, muted: true },
        ]
    );
    let a = s.handle_websocket_event(WebsocketEvent::MicrophoneRestrictionsDisabled);
    assert_eq!(
        a,
        vec![
            SignalingAction::PlayTrack(Track::MicrophonesRestrictionLifted),
            SignalingAction::SetLocalTrackMute(TrackKind::Audio, true),
            SignalingAction::SetMicrophonePublish { publish: true, muted: true },
        ]
    );
    let mut t = joined_call();
    let a = t.handle_websocket_event(WebsocketEvent::MicrophoneRestrictionsEnabled(vec![42]));
    assert_eq!(a, vec![SignalingAction::SetMicrophonePublish { publish: true, muted: false }]);
}

#[test]
fn participant_list_follows_the_conference() {
    let mut s = joined_call();
    assert_eq!(s.handle_websocket_event(WebsocketEvent::Joined(participant(5, "Eve"))), vec![SignalingAction::AddParticipant(5)]);
    assert_eq!(s.handle_websocket_event(WebsocketEvent::Update(participant(5, "Eve"))), vec![]);
    assert_eq!(
        s.handle_websocket_event(WebsocketEvent::Update(participant(5, "Eva"))),
        vec![SignalingAction::AddParticipant(5)]
    );
    assert_eq!(s.participants[0].display_name, "Eva");
    assert_eq!(s.handle_websocket_event(WebsocketEvent::Update(participant(6, "X"))), vec![]);
    assert_eq!(s.handle_websocket_event(WebsocketEvent::Left(5)), vec![SignalingAction::RemoveParticipant(5)]);
    assert!(s.participants.is_empty());
}

#[test]
fn waiting_room_and_session_end() {
    let mut s = joined_call();
    s.handle_websocket_event(WebsocketEvent::Joined(participant(5, "Eve")));
    assert_eq!(
        s.handle_websocket_event(WebsocketEvent::MovedToWaitingRoom),
        vec![
            SignalingAction::RemoveCompositor,
            SignalingAction::PlayTrack(Track::WaitingRoomEntered),
            SignalingAction::EnterWaitingRoom
        ]
    );
    assert!(s.participants.is_empty() && !s.compositor);
    assert_eq!(
        s.handle_websocket_event(WebsocketEvent::SessionEnded),
        vec![
            SignalingAction::CloseWebsocket,
            SignalingAction::PlayTrackAndRespond(Track::ConferenceClosed, Responder::ConferenceClosed)
        ]
    );
    assert!(!s.websocket);
    s.handle_conference_closed();
    assert_eq!(s.state, CallState::Quitting);
    assert_eq!(
        s.wait_in_waiting_room_until_accepted(),
        vec![SignalingAction::PlayTrack(Track::WaitingRoomEntered), SignalingAction::EnterWaitingRoom]
    );
}

#[test]
fn media_events() {
    let mut s = joined_call();
    assert_eq!(
        s.handle_media_event(MediaEvent::LocalTrackMuted(TrackKind::Video), true, 0),
        vec![SignalingAction::PlayTrack(Track::ModeratorMuted)]
    );
    assert!(s.handle_media_event(MediaEvent::LocalTrackMuted(TrackKind::Video), true, 0).is_empty());
    assert_eq!(
        s.handle_media_event(MediaEvent::VideoDecoderError, true, 10_000),
        vec![SignalingAction::SendPictureUpdateRequest]
    );
    assert!(s.handle_media_event(MediaEvent::VideoDecoderError, true, 14_999).is_empty());
    assert_eq!(
        s.handle_media_event(MediaEvent::VideoDecoderError, true, 15_000),
        vec![SignalingAction::SendPictureUpdateRequest]
    );
    assert_eq!(
        s.handle_media_event(MediaEvent::Disconnected { participant_removed: true }, true, 0),
        vec![SignalingAction::StartDisconnectGracePeriod]
    );
    assert_eq!(s.state, CallState::Running);
    s.handle_media_event(MediaEvent::Disconnected { participant_removed: false }, true, 0);
    assert_eq!(s.state, CallState::Quitting);
    let mut t = Signaling::new();
    t.handle_media_event(MediaEvent::Error, true, 0);
    assert_eq!(t.state, CallState::Quitting);
    let mut u = Signaling::new();
    u.handle_websocket_event(WebsocketEvent::Disconnected);
    assert_eq!(u.state, CallState::Quitting);
}

#[test]
fn toggling_twice_restores_the_state() {
    let mut s = joined_call();
    s.handle_media_event(MediaEvent::DtmfDigit(1), true, 0);
    s.handle_media_event(MediaEvent::DtmfDigit(1), true, 0);
    assert!(!s.audio_muted);
    s.handle_media_event(MediaEvent::DtmfDigit(4), true, 0);
    s.handle_media_event(MediaEvent::DtmfDigit(4), true, 0);
    assert!(!s.video_muted);
}
