//! The decisions of a call after the bridge accepted it: dialing into a
//! conference with DTMF digits, the key bindings in the conference, the
//! recording consent flow, microphone restrictions and the participant list.
//!
//! `Signaling` holds the state of one call. Each `handle_*` method takes one
//! event, moves the state on and gives the actions the caller has to carry
//! out, in order: play an announcement, send a message to the controller,
//! mute a published track, and so on. When an action that talks to the
//! controller or the SIP peer fails, the call ends (`CallState::Quitting`).
use crate::text::{decimal, push_decimal};
use crate::track::Track;
use vstd::prelude::*;

verus! {

/// DTMF digit that stops the announcement that plays now.
pub const DTMF_STOP_CURRENT_TRACK: u8 = 0;

/// DTMF digit that mutes or unmutes the microphone.
pub const DTMF_TOGGLE_AUDIO_MUTE: u8 = 1;

/// DTMF digit that raises or lowers the hand.
pub const DTMF_TOGGLE_HAND_RAISE: u8 = 2;

/// DTMF digit that consents to being recorded.
pub const DTMF_ACCEPT_RECORDING: u8 = 3;

/// DTMF digit that mutes or unmutes the camera.
pub const DTMF_TOGGLE_VIDEO_MUTE: u8 = 4;

/// DTMF digit that refuses being recorded.
pub const DTMF_REJECT_RECORDING: u8 = 6;

/// DTMF event code of `#`, which clears the digits entered so far.
pub const DTMF_HASH: u8 = 11;

/// Digits of a conference id, and of its pin.
pub const DIAL_IN_DIGITS: usize = 10;

/// Least time between two requests for a fresh picture, in milliseconds.
pub const PICTURE_UPDATE_INTERVAL_MS: u64 = 5000;

/// Where the call stands.
#[derive(Debug, Clone, Copy, PartialEq, Eq, Structural)]
pub enum CallState {
    /// Running until the state changes
    Running,
    /// An error occurred and the SIP session has to be terminated
    Quitting,
    /// The SIP session has ended (by BYE or an error)
    Terminated,
}

/// The caller's answer to a running recording.
#[derive(Debug, Clone, Copy, PartialEq, Eq, Structural)]
pub enum RecordingConsentState {
    /// No recording runs, nothing to answer
    NoRecording,
    WaitingForConsent,
    Accepted,
    Rejected,
}

/// Status of a recording or streaming target of the conference.
#[derive(Debug, Clone, Copy, PartialEq, Eq, Structural)]
pub enum StreamStatus {
    Inactive,
    Starting,
    Active,
    Paused,
    Error,
}

/// Kind of a track the bridge publishes into the conference.
#[derive(Debug, Clone, Copy, PartialEq, Eq, Structural)]
pub enum TrackKind {
    Audio,
    Video,
}

/// Who waits for the end of an announcement.
#[derive(Debug, Clone, Copy, PartialEq, Eq, Structural)]
pub enum Responder {
    /// The welcome has been heard: join the conference
    WelcomeFinished,
    /// The conference closed: end the call
    ConferenceClosed,
}

/// What the caller of `Signaling` has to carry out.
#[derive(Debug, Clone, Copy, PartialEq, Eq, Structural)]
pub enum SignalingAction {
    /// Queue an announcement
    PlayTrack(Track),
    /// Queue an announcement and tell the responder when it has played
    PlayTrackAndRespond(Track, Responder),
    /// Stop the announcement that plays now
    StopCurrentTrack,
    /// Cancel the running pin entry timeout
    CancelPinTimeout,
    /// Start the pin entry timeout
    StartPinTimeout,
    /// Get a ticket for the entered conference id and pin, and connect the
    /// controller's websocket with it; report the outcome to
    /// `handle_connect_result`
    ConnectWebsocket,
    /// Raise (`true`) or lower the hand
    SendHandAction(bool),
    /// Consent to being recorded (`true`) or refuse it
    SetConsent(bool),
    /// Mute (`true`) or unmute the bridge's published tracks of this kind
    SetLocalTrackMute(TrackKind, bool),
    /// Publish the microphone or not, muted or not
    SetMicrophonePublish { publish: bool, muted: bool },
    /// Ask the SIP peer for a full picture
    SendPictureUpdateRequest,
    /// Wait a moment for a move to the waiting room before ending the call
    StartDisconnectGracePeriod,
    /// Close the controller's websocket
    CloseWebsocket,
    /// Show the participant with this id in the composited picture
    AddParticipant(u128),
    /// Take the participant with this id out of the composited picture
    RemoveParticipant(u128),
    /// Drop the conference compositor
    RemoveCompositor,
    /// Announce the waiting room and wait there until admitted; report the
    /// admission to `handle_join_result`
    EnterWaitingRoom,
}

/// A participant of the conference.
#[derive(Debug)]
pub struct Participant {
    pub id: u128,
    pub display_name: String,
    /// The participant has left the conference
    pub left: bool,
}

#[verifier::ext_equal]
pub struct ParticipantV {
    pub id: u128,
    pub display_name: Seq<char>,
    pub left: bool,
}

impl View for Participant {
    type V = ParticipantV;

    open spec fn view(&self) -> ParticipantV {
        ParticipantV { id: self.id, display_name: self.display_name@, left: self.left }
    }
}

impl DeepView for Participant {
    type V = ParticipantV;

    open spec fn deep_view(&self) -> ParticipantV {
        self@
    }
}

/// Who may use the microphone in the conference.
#[derive(Debug)]
pub enum MicrophoneRestriction {
    Disabled,
    /// Only the listed participants
    Enabled(Vec<u128>),
}

#[verifier::ext_equal]
pub enum MicrophoneRestrictionV {
    Disabled,
    Enabled(Seq<u128>),
}

impl View for MicrophoneRestriction {
    type V = MicrophoneRestrictionV;

    open spec fn view(&self) -> MicrophoneRestrictionV {
        match self {
            MicrophoneRestriction::Disabled => MicrophoneRestrictionV::Disabled,
            MicrophoneRestriction::Enabled(l) => MicrophoneRestrictionV::Enabled(l@),
        }
    }
}

/// An event of the media pipeline.
#[derive(Debug, Clone, Copy, PartialEq, Eq, Structural)]
pub enum MediaEvent {
    Error,
    /// The conference connection dropped; `participant_removed` when the
    /// conference removed the bridge's participant
    Disconnected { participant_removed: bool },
    DtmfDigit(u8),
    /// A moderator muted the bridge's track of this kind
    LocalTrackMuted(TrackKind),
    VideoDecoderError,
}

/// An event from the controller's websocket.
#[derive(Debug)]
pub enum WebsocketEvent {
    Joined(Participant),
    Update(Participant),
    Left(u128),
    SessionEnded,
    StreamUpdated { target_id: u128, status: StreamStatus },
    MovedToWaitingRoom,
    MicrophoneRestrictionsEnabled(Vec<u128>),
    MicrophoneRestrictionsDisabled,
    /// Another conference media event, which changes nothing here
    OtherLiveKitEvent,
    Disconnected,
}

pub enum WebsocketEventV {
    Joined(ParticipantV),
    Update(ParticipantV),
    Left(u128),
    SessionEnded,
    StreamUpdated { target_id: u128, status: StreamStatus },
    MovedToWaitingRoom,
    MicrophoneRestrictionsEnabled(Seq<u128>),
    MicrophoneRestrictionsDisabled,
    OtherLiveKitEvent,
    Disconnected,
}

impl View for WebsocketEvent {
    type V = WebsocketEventV;

    open spec fn view(&self) -> WebsocketEventV {
        match self {
            WebsocketEvent::Joined(p) => WebsocketEventV::Joined(p@),
            WebsocketEvent::Update(p) => WebsocketEventV::Update(p@),
            WebsocketEvent::Left(id) => WebsocketEventV::Left(*id),
            WebsocketEvent::SessionEnded => WebsocketEventV::SessionEnded,
            WebsocketEvent::StreamUpdated { target_id, status } => WebsocketEventV::StreamUpdated {
                target_id: *target_id,
                status: *status,
            },
            WebsocketEvent::MovedToWaitingRoom => WebsocketEventV::MovedToWaitingRoom,
            WebsocketEvent::MicrophoneRestrictionsEnabled(l) => WebsocketEventV::MicrophoneRestrictionsEnabled(l@),
            WebsocketEvent::MicrophoneRestrictionsDisabled => WebsocketEventV::MicrophoneRestrictionsDisabled,
            WebsocketEvent::OtherLiveKitEvent => WebsocketEventV::OtherLiveKitEvent,
            WebsocketEvent::Disconnected => WebsocketEventV::Disconnected,
        }
    }
}

/// How connecting to the conference went.
#[derive(Debug, Clone, Copy, PartialEq, Eq, Structural)]
pub enum ConnectOutcome {
    Connected,
    /// The conference id and pin were refused
    InvalidCredentials,
    /// Any other failure
    Failed,
}

/// The state of one call.
#[derive(Debug)]
pub struct Signaling {
    /// Digits of the conference id entered so far
    pub dtmf_id: Vec<u8>,
    /// Digits of the pin entered so far
    pub dtmf_pw: Vec<u8>,
    /// A pin entry timeout runs or has run out since it was last cancelled
    pub pin_timer: bool,
    /// The controller's websocket is connected
    pub websocket: bool,
    /// The bridge's participant id in the conference, once joined
    pub participant_id: Option<u128>,
    /// A conference compositor is in place
    pub compositor: bool,
    pub audio_muted: bool,
    pub video_muted: bool,
    pub hand_raised: bool,
    pub microphone_restriction: MicrophoneRestriction,
    pub recording_consent_state: RecordingConsentState,
    /// Recording and streaming targets by id, with their status
    pub streaming_targets: Vec<(u128, StreamStatus)>,
    pub participants: Vec<Participant>,
    /// When the last request for a full picture was sent, in milliseconds
    pub last_fast_picture_update_request_sent: Option<u64>,
    pub state: CallState,
}

#[verifier::ext_equal]
pub struct SignalingV {
    pub dtmf_id: Seq<u8>,
    pub dtmf_pw: Seq<u8>,
    pub pin_timer: bool,
    pub websocket: bool,
    pub participant_id: Option<u128>,
    pub compositor: bool,
    pub audio_muted: bool,
    pub video_muted: bool,
    pub hand_raised: bool,
    pub microphone_restriction: MicrophoneRestrictionV,
    pub recording_consent_state: RecordingConsentState,
    pub streaming_targets: Seq<(u128, StreamStatus)>,
    pub participants: Seq<ParticipantV>,
    pub last_fast_picture_update_request_sent: Option<u64>,
    pub state: CallState,
}

impl View for Signaling {
    type V = SignalingV;

    open spec fn view(&self) -> SignalingV {
        SignalingV {
            dtmf_id: self.dtmf_id@,
            dtmf_pw: self.dtmf_pw@,
            pin_timer: self.pin_timer,
            websocket: self.websocket,
            participant_id: self.participant_id,
            compositor: self.compositor,
            audio_muted: self.audio_muted,
            video_muted: self.video_muted,
            hand_raised: self.hand_raised,
            microphone_restriction: self.microphone_restriction@,
            recording_consent_state: self.recording_consent_state,
            streaming_targets: self.streaming_targets@,
            participants: self.participants.deep_view(),
            last_fast_picture_update_request_sent: self.last_fast_picture_update_request_sent,
            state: self.state,
        }
    }
}

/// The state and the actions after an event.
#[verifier::ext_equal]
pub struct Step {
    pub state: SignalingV,
    pub actions: Seq<SignalingAction>,
}

pub open spec fn all_digits(s: Seq<u8>) -> bool {
    forall|i: int| 0 <= i < s.len() ==> #[trigger] s[i] < 10
}

/// The state every call keeps: at most ten digits of id and pin, a pin only
/// after a full id, and a consent question only once joined.
pub open spec fn signaling_wf(s: SignalingV) -> bool {
    &&& s.dtmf_id.len() <= DIAL_IN_DIGITS
    &&& s.dtmf_pw.len() <= DIAL_IN_DIGITS
    &&& s.dtmf_pw.len() > 0 ==> s.dtmf_id.len() == DIAL_IN_DIGITS
    &&& all_digits(s.dtmf_id)
    &&& all_digits(s.dtmf_pw)
    &&& s.recording_consent_state != RecordingConsentState::NoRecording ==> s.participant_id is Some
}

/// A recording or streaming is under way.
pub open spec fn recording_status_active(st: StreamStatus) -> bool {
    st == StreamStatus::Starting || st == StreamStatus::Active || st == StreamStatus::Paused
}

pub open spec fn spec_is_any_recording_active(t: Seq<(u128, StreamStatus)>) -> bool {
    exists|i: int| 0 <= i < t.len() && recording_status_active((#[trigger] t[i]).1)
}

pub open spec fn restriction_allows(r: MicrophoneRestrictionV, id: u128) -> bool {
    match r {
        MicrophoneRestrictionV::Disabled => true,
        MicrophoneRestrictionV::Enabled(l) => l.contains(id),
    }
}

pub open spec fn consent_pending_or_refused(c: RecordingConsentState) -> bool {
    c == RecordingConsentState::Rejected || c == RecordingConsentState::WaitingForConsent
}

pub open spec fn play(t: Track) -> Seq<SignalingAction> {
    seq![SignalingAction::PlayTrack(t)]
}

pub open spec fn on_off(b: bool) -> Track {
    if b {
        Track::On
    } else {
        Track::Off
    }
}

/// Whether the microphone is published: the restriction must allow the
/// bridge's participant, and a recording must not wait for consent or have
/// been refused; in those two cases the microphone is muted as well.
pub open spec fn spec_evaluate_microphone_publish_state(s: SignalingV) -> Step {
    let pending = consent_pending_or_refused(s.recording_consent_state);
    let publish = restriction_allows(s.microphone_restriction, s.participant_id->0) && !pending;
    let muted = s.audio_muted || pending;
    Step {
        state: SignalingV { audio_muted: muted, ..s },
        actions: (if muted && s.compositor {
            seq![SignalingAction::SetLocalTrackMute(TrackKind::Audio, true)]
        } else {
            Seq::empty()
        }) + seq![SignalingAction::SetMicrophonePublish { publish, muted }],
    }
}

/// Mutes or unmutes the microphone, when it is published; otherwise tells
/// the caller why not.
pub open spec fn spec_toggle_audio_mute(s: SignalingV, microphone_published: bool) -> Step {
    if !microphone_published {
        Step {
            state: s,
            actions: play(
                if s.recording_consent_state == RecordingConsentState::Rejected {
                    Track::ConsentReject
                } else {
                    Track::MicrophonesRestrictionEnabled
                },
            ),
        }
    } else {
        Step {
            state: SignalingV { audio_muted: !s.audio_muted, ..s },
            actions: (if s.compositor {
                seq![SignalingAction::SetLocalTrackMute(TrackKind::Audio, !s.audio_muted)]
            } else {
                Seq::empty()
            }) + play(on_off(!s.audio_muted)),
        }
    }
}

/// Mutes or unmutes the camera; a camera muted after refusing a recording
/// stays muted.
pub open spec fn spec_toggle_video_mute(s: SignalingV, play_sound: bool) -> Step {
    if s.video_muted && s.recording_consent_state == RecordingConsentState::Rejected {
        Step { state: s, actions: play(Track::ConsentReject) }
    } else {
        Step {
            state: SignalingV { video_muted: !s.video_muted, ..s },
            actions: (if s.compositor {
                seq![SignalingAction::SetLocalTrackMute(TrackKind::Video, !s.video_muted)]
            } else {
                Seq::empty()
            }) + (if play_sound {
                play(on_off(!s.video_muted))
            } else {
                Seq::empty()
            }),
        }
    }
}

/// A digit while the conference id and pin are entered: `#` clears both;
/// the first ten digits make the id, the next ten the pin. A full id is
/// answered by the pin prompt, a full pin by connecting; each other pin
/// digit restarts the pin entry timeout.
pub open spec fn spec_dial_digit(s: SignalingV, digit: u8) -> Step {
    if digit == DTMF_HASH {
        Step { state: SignalingV { dtmf_id: Seq::empty(), dtmf_pw: Seq::empty(), ..s }, actions: Seq::empty() }
    } else if digit <= 9 {
        if s.dtmf_id.len() < DIAL_IN_DIGITS {
            let id = s.dtmf_id.push(digit);
            Step {
                state: SignalingV { dtmf_id: id, ..s },
                actions: if id.len() == DIAL_IN_DIGITS {
                    play(Track::WelcomePasscode)
                } else {
                    Seq::empty()
                },
            }
        } else {
            let pw = s.dtmf_pw.push(digit);
            let cancel = if s.pin_timer {
                seq![SignalingAction::CancelPinTimeout]
            } else {
                Seq::empty()
            };
            if pw.len() == DIAL_IN_DIGITS {
                Step {
                    state: SignalingV { dtmf_pw: pw, pin_timer: false, ..s },
                    actions: cancel + seq![SignalingAction::ConnectWebsocket],
                }
            } else {
                Step {
                    state: SignalingV { dtmf_pw: pw, pin_timer: true, ..s },
                    actions: cancel + seq![SignalingAction::StartPinTimeout],
                }
            }
        }
    } else {
        Step { state: s, actions: Seq::empty() }
    }
}

/// Refusing a recording: the controller is told, the microphone is
/// muted and taken off, and the camera is muted.
pub open spec fn spec_reject_recording(s: SignalingV) -> Step {
    let s1 = SignalingV { recording_consent_state: RecordingConsentState::Rejected, ..s };
    let e = spec_evaluate_microphone_publish_state(s1);
    let v = if !e.state.video_muted {
        spec_toggle_video_mute(e.state, false)
    } else {
        Step { state: e.state, actions: Seq::empty() }
    };
    Step {
        state: v.state,
        actions: seq![SignalingAction::SetConsent(false)] + play(Track::ConsentReject) + e.actions + v.actions,
    }
}

/// Consenting to a recording: the controller is told and the microphone
/// is published again where the restriction allows.
pub open spec fn spec_accept_recording(s: SignalingV) -> Step {
    let s1 = SignalingV { recording_consent_state: RecordingConsentState::Accepted, ..s };
    let e = spec_evaluate_microphone_publish_state(s1);
    Step {
        state: e.state,
        actions: seq![SignalingAction::SetConsent(true)] + play(Track::ConsentAccept) + e.actions,
    }
}

/// A digit once the pin is complete: the key bindings. While a recording
/// waits for consent only the consent digits are taken.
pub open spec fn spec_binding_digit(s: SignalingV, digit: u8, microphone_published: bool) -> Step {
    let waiting = s.recording_consent_state == RecordingConsentState::WaitingForConsent;
    if waiting && digit != DTMF_ACCEPT_RECORDING && digit != DTMF_REJECT_RECORDING {
        Step { state: s, actions: play(Track::ConsentInvalid) }
    } else if digit == DTMF_STOP_CURRENT_TRACK {
        Step { state: s, actions: seq![SignalingAction::StopCurrentTrack] }
    } else if digit == DTMF_TOGGLE_AUDIO_MUTE {
        spec_toggle_audio_mute(s, microphone_published)
    } else if digit == DTMF_TOGGLE_VIDEO_MUTE {
        spec_toggle_video_mute(s, true)
    } else if digit == DTMF_TOGGLE_HAND_RAISE {
        if s.websocket {
            Step {
                state: SignalingV { hand_raised: !s.hand_raised, ..s },
                actions: play(on_off(!s.hand_raised)) + seq![SignalingAction::SendHandAction(!s.hand_raised)],
            }
        } else {
            Step { state: s, actions: Seq::empty() }
        }
    } else if digit == DTMF_REJECT_RECORDING {
        if s.websocket && (waiting || s.recording_consent_state == RecordingConsentState::Accepted) {
            spec_reject_recording(s)
        } else {
            Step { state: s, actions: Seq::empty() }
        }
    } else if digit == DTMF_ACCEPT_RECORDING {
        if s.websocket && (waiting || s.recording_consent_state == RecordingConsentState::Rejected) {
            spec_accept_recording(s)
        } else {
            Step { state: s, actions: Seq::empty() }
        }
    } else {
        Step { state: s, actions: Seq::empty() }
    }
}

pub open spec fn spec_handle_media_event(
    s: SignalingV,
    event: MediaEvent,
    microphone_published: bool,
    now_ms: u64,
) -> Step {
    match event {
        MediaEvent::DtmfDigit(d) => if s.dtmf_pw.len() < DIAL_IN_DIGITS {
            spec_dial_digit(s, d)
        } else {
            spec_binding_digit(s, d, microphone_published)
        },
        MediaEvent::Error => Step { state: SignalingV { state: CallState::Quitting, ..s }, actions: Seq::empty() },
        MediaEvent::LocalTrackMuted(kind) => {
            let muted = match kind {
                TrackKind::Audio => s.audio_muted,
                TrackKind::Video => s.video_muted,
            };
            if muted {
                Step { state: s, actions: Seq::empty() }
            } else {
                Step {
                    state: match kind {
                        TrackKind::Audio => SignalingV { audio_muted: true, ..s },
                        TrackKind::Video => SignalingV { video_muted: true, ..s },
                    },
                    actions: play(Track::ModeratorMuted),
                }
            }
        },
        MediaEvent::VideoDecoderError => match s.last_fast_picture_update_request_sent {
            Some(last) if last + PICTURE_UPDATE_INTERVAL_MS > now_ms => Step { state: s, actions: Seq::empty() },
            _ => Step {
                state: SignalingV { last_fast_picture_update_request_sent: Some(now_ms), ..s },
                actions: seq![SignalingAction::SendPictureUpdateRequest],
            },
        },
        MediaEvent::Disconnected { participant_removed } => if participant_removed {
            Step { state: s, actions: seq![SignalingAction::StartDisconnectGracePeriod] }
        } else {
            Step { state: SignalingV { state: CallState::Quitting, ..s }, actions: Seq::empty() }
        },
    }
}

pub open spec fn first_participant(ps: Seq<ParticipantV>, id: u128, i: int) -> Option<int>
    decreases ps.len() - i,
{
    if i < 0 || i >= ps.len() {
        None
    } else if ps[i].id == id {
        Some(i)
    } else {
        first_participant(ps, id, i + 1)
    }
}

/// The participants without those of the given id, in order.
pub open spec fn without_participant(ps: Seq<ParticipantV>, id: u128) -> Seq<ParticipantV>
    decreases ps.len(),
{
    if ps.len() == 0 {
        ps
    } else {
        (if ps[0].id == id {
            Seq::empty()
        } else {
            seq![ps[0]]
        }) + without_participant(ps.drop_first(), id)
    }
}

/// The participants to show once the bridge joined: those that have not
/// left, in order.
pub open spec fn shown_participants(ps: Seq<ParticipantV>) -> Seq<SignalingAction>
    decreases ps.len(),
{
    if ps.len() == 0 {
        Seq::empty()
    } else {
        (if ps[0].left {
            Seq::empty()
        } else {
            seq![SignalingAction::AddParticipant(ps[0].id)]
        }) + shown_participants(ps.drop_first())
    }
}

pub open spec fn first_target(t: Seq<(u128, StreamStatus)>, id: u128, i: int) -> Option<int>
    decreases t.len() - i,
{
    if i < 0 || i >= t.len() {
        None
    } else if t[i].0 == id {
        Some(i)
    } else {
        first_target(t, id, i + 1)
    }
}

/// The targets with the status of `id` set, or `id` added with it.
pub open spec fn set_target_status(t: Seq<(u128, StreamStatus)>, id: u128, status: StreamStatus) -> Seq<(u128, StreamStatus)> {
    match first_target(t, id, 0) {
        Some(i) => t.update(i, (id, status)),
        None => t.push((id, status)),
    }
}

/// The announcement when every recording has stopped, by the answer given.
pub open spec fn recording_stopped_actions(c: RecordingConsentState) -> Seq<SignalingAction> {
    match c {
        RecordingConsentState::NoRecording => Seq::empty(),
        RecordingConsentState::WaitingForConsent | RecordingConsentState::Accepted => play(Track::RecordingStoppedAccept),
        RecordingConsentState::Rejected => play(Track::RecordingStoppedReject),
    }
}

/// A stream changed its status. A first active recording asks for consent;
/// when the last one stops, the caller hears how it ended and the question
/// is closed.
pub open spec fn spec_stream_updated(s: SignalingV, id: u128, status: StreamStatus) -> Step {
    let prev = spec_is_any_recording_active(s.streaming_targets);
    let targets = set_target_status(s.streaming_targets, id, status);
    let now = spec_is_any_recording_active(targets);
    let s1 = SignalingV { streaming_targets: targets, ..s };
    let started = !prev && now;
    let s2 = if started {
        SignalingV { recording_consent_state: RecordingConsentState::WaitingForConsent, ..s1 }
    } else {
        s1
    };
    let a2 = if started {
        play(Track::ConsentInfo)
    } else {
        Seq::empty()
    };
    let stopped = prev && !now;
    let s3 = if stopped {
        SignalingV { recording_consent_state: RecordingConsentState::NoRecording, ..s2 }
    } else {
        s2
    };
    let a3 = if stopped {
        recording_stopped_actions(s2.recording_consent_state)
    } else {
        Seq::empty()
    };
    let e = spec_evaluate_microphone_publish_state(s3);
    Step { state: e.state, actions: a2 + a3 + e.actions }
}

/// The announcement and the wait that the waiting room begins with.
pub open spec fn waiting_room_actions() -> Seq<SignalingAction> {
    seq![SignalingAction::PlayTrack(Track::WaitingRoomEntered), SignalingAction::EnterWaitingRoom]
}

pub open spec fn spec_handle_websocket_event(s: SignalingV, event: WebsocketEventV) -> Step {
    match event {
        WebsocketEventV::Joined(p) => Step {
            state: SignalingV { participants: s.participants.push(p), ..s },
            actions: if s.compositor {
                seq![SignalingAction::AddParticipant(p.id)]
            } else {
                Seq::empty()
            },
        },
        WebsocketEventV::Update(p) => match first_participant(s.participants, p.id, 0) {
            None => Step { state: s, actions: Seq::empty() },
            Some(i) => Step {
                state: SignalingV { participants: s.participants.update(i, p), ..s },
                actions: if s.compositor && s.participants[i].display_name != p.display_name {
                    seq![SignalingAction::AddParticipant(s.participants[i].id)]
                } else {
                    Seq::empty()
                },
            },
        },
        WebsocketEventV::Left(id) => Step {
            state: SignalingV { participants: without_participant(s.participants, id), ..s },
            actions: if s.compositor {
                seq![SignalingAction::RemoveParticipant(id)]
            } else {
                Seq::empty()
            },
        },
        WebsocketEventV::SessionEnded => Step {
            state: SignalingV { websocket: false, ..s },
            actions: (if s.websocket {
                seq![SignalingAction::CloseWebsocket]
            } else {
                Seq::empty()
            }) + seq![SignalingAction::PlayTrackAndRespond(Track::ConferenceClosed, Responder::ConferenceClosed)],
        },
        WebsocketEventV::MovedToWaitingRoom => Step {
            state: SignalingV { participants: Seq::empty(), compositor: false, ..s },
            actions: seq![SignalingAction::RemoveCompositor] + waiting_room_actions(),
        },
        WebsocketEventV::MicrophoneRestrictionsEnabled(list) => {
            let unrestricted = list.contains(s.participant_id->0);
            let s1 = SignalingV {
                audio_muted: if unrestricted { s.audio_muted } else { true },
                microphone_restriction: MicrophoneRestrictionV::Enabled(list),
                ..s
            };
            let e = spec_evaluate_microphone_publish_state(s1);
            Step {
                state: e.state,
                actions: (if unrestricted {
                    Seq::empty()
                } else {
                    play(Track::MicrophonesRestrictionEnabled)
                }) + e.actions,
            }
        },
        WebsocketEventV::MicrophoneRestrictionsDisabled => {
            let s1 = SignalingV { microphone_restriction: MicrophoneRestrictionV::Disabled, ..s };
            let e = spec_evaluate_microphone_publish_state(s1);
            Step { state: e.state, actions: play(Track::MicrophonesRestrictionLifted) + e.actions }
        },
        WebsocketEventV::OtherLiveKitEvent => Step { state: s, actions: Seq::empty() },
        WebsocketEventV::Disconnected => Step {
            state: SignalingV { state: CallState::Quitting, ..s },
            actions: Seq::empty(),
        },
        WebsocketEventV::StreamUpdated { target_id, status } => spec_stream_updated(s, target_id, status),
    }
}

/// The websocket events that need the bridge's participant id.
pub open spec fn needs_participant_id(event: WebsocketEventV) -> bool {
    match event {
        WebsocketEventV::MicrophoneRestrictionsEnabled(_) => true,
        WebsocketEventV::MicrophoneRestrictionsDisabled => true,
        WebsocketEventV::StreamUpdated { .. } => true,
        _ => false,
    }
}

/// The bridge was admitted to the conference and its compositor is ready.
pub open spec fn spec_handle_join_result(
    s: SignalingV,
    participants: Seq<ParticipantV>,
    targets: Seq<(u128, StreamStatus)>,
    restriction: MicrophoneRestrictionV,
    own_id: u128,
) -> Step {
    let active = spec_is_any_recording_active(targets);
    let s1 = SignalingV {
        participants,
        compositor: true,
        streaming_targets: targets,
        recording_consent_state: if active {
            RecordingConsentState::WaitingForConsent
        } else {
            s.recording_consent_state
        },
        microphone_restriction: restriction,
        participant_id: Some(own_id),
        ..s
    };
    let e = spec_evaluate_microphone_publish_state(s1);
    Step {
        state: e.state,
        actions: shown_participants(participants) + (if active {
            play(Track::ConsentInfo)
        } else {
            Seq::empty()
        }) + (if restriction_allows(restriction, own_id) {
            Seq::empty()
        } else {
            play(Track::MicrophonesRestrictionEnabled)
        }) + e.actions,
    }
}

pub open spec fn spec_handle_connect_result(s: SignalingV, outcome: ConnectOutcome) -> Step {
    match outcome {
        ConnectOutcome::Connected => Step {
            state: SignalingV { websocket: true, ..s },
            actions: seq![SignalingAction::PlayTrackAndRespond(Track::WelcomeUsage, Responder::WelcomeFinished)],
        },
        ConnectOutcome::InvalidCredentials => Step {
            state: SignalingV { dtmf_id: Seq::empty(), dtmf_pw: Seq::empty(), ..s },
            actions: play(Track::InputInvalid),
        },
        ConnectOutcome::Failed => Step { state: SignalingV { state: CallState::Quitting, ..s }, actions: Seq::empty() },
    }
}

pub open spec fn spec_handle_pin_timeout(s: SignalingV) -> Step {
    Step { state: SignalingV { dtmf_pw: Seq::empty(), ..s }, actions: play(Track::InputInvalid) }
}

pub open spec fn initial_signaling() -> SignalingV {
    SignalingV {
        dtmf_id: Seq::empty(),
        dtmf_pw: Seq::empty(),
        pin_timer: false,
        websocket: false,
        participant_id: None,
        compositor: false,
        audio_muted: false,
        video_muted: false,
        hand_raised: false,
        microphone_restriction: MicrophoneRestrictionV::Disabled,
        recording_consent_state: RecordingConsentState::NoRecording,
        streaming_targets: Seq::empty(),
        participants: Seq::empty(),
        last_fast_picture_update_request_sent: None,
        state: CallState::Running,
    }
}

/// The digits as text.
pub open spec fn digits_text(d: Seq<u8>) -> Seq<char>
    decreases d.len(),
{
    if d.len() == 0 {
        Seq::empty()
    } else {
        digits_text(d.drop_last()) + decimal(d.last() as nat)
    }
}

fn contains_id(list: &Vec<u128>, id: u128) -> (r: bool)
    ensures
        r == list@.contains(id),
{
    let mut i: usize = 0;
    while i < list.len()
        invariant
            i <= list@.len(),
            forall|j: int| 0 <= j < i ==> list@[j] != id,
        decreases list@.len() - i,
    {
        if list[i] == id {
            assert(list@[i as int] == id);
            return true;
        }
        i = i + 1;
    }
    false
}

fn copy_ids(list: &Vec<u128>) -> (r: Vec<u128>)
    ensures
        r@ == list@,
{
    let mut out: Vec<u128> = Vec::new();
    let mut i: usize = 0;
    while i < list.len()
        invariant
            i <= list@.len(),
            out@ == list@.take(i as int),
        decreases list@.len() - i,
    {
        out.push(list[i]);
        i = i + 1;
        assert(out@ =~= list@.take(i as int));
    }
    assert(list@.take(list@.len() as int) =~= list@);
    out
}

/// The digits as text, one character each.
pub fn digits_to_string(d: &Vec<u8>) -> (r: String)
    ensures
        r@ == digits_text(d@),
{
    let mut out = String::new();
    let mut i: usize = 0;
    while i < d.len()
        invariant
            i <= d@.len(),
            out@ == digits_text(d@.take(i as int)),
        decreases d@.len() - i,
    {
        push_decimal(&mut out, d[i] as u64);
        proof {
            assert(d@.take(i + 1).drop_last() =~= d@.take(i as int));
        }
        i = i + 1;
    }
    assert(d@.take(d@.len() as int) =~= d@);
    out
}

impl Signaling {
    /// A call that has just been accepted: nothing entered, nothing muted.
    pub fn new() -> (r: Self)
        ensures
            r@ == initial_signaling(),
            signaling_wf(r@),
    {
        Signaling {
            dtmf_id: Vec::new(),
            dtmf_pw: Vec::new(),
            pin_timer: false,
            websocket: false,
            participant_id: None,
            compositor: false,
            audio_muted: false,
            video_muted: false,
            hand_raised: false,
            microphone_restriction: MicrophoneRestriction::Disabled,
            recording_consent_state: RecordingConsentState::NoRecording,
            streaming_targets: Vec::new(),
            participants: Vec::new(),
            last_fast_picture_update_request_sent: None,
            state: CallState::Running,
        }
    }

    /// The conference id entered so far, as text.
    pub fn dtmf_id_text(&self) -> (r: String)
        ensures
            r@ == digits_text(self@.dtmf_id),
    {
        digits_to_string(&self.dtmf_id)
    }

    /// The pin entered so far, as text.
    pub fn dtmf_pw_text(&self) -> (r: String)
        ensures
            r@ == digits_text(self@.dtmf_pw),
    {
        digits_to_string(&self.dtmf_pw)
    }

    /// Whether a recording or streaming is starting, active or paused.
    pub fn is_any_recording_active(&self) -> (r: bool)
        ensures
            r == spec_is_any_recording_active(self@.streaming_targets),
    {
        let mut i: usize = 0;
        while i < self.streaming_targets.len()
            invariant
                i <= self.streaming_targets@.len(),
                forall|j: int| 0 <= j < i ==> !recording_status_active((#[trigger] self.streaming_targets@[j]).1),
            decreases self.streaming_targets@.len() - i,
        {
            let st = self.streaming_targets[i].1;
            if st == StreamStatus::Starting || st == StreamStatus::Active || st == StreamStatus::Paused {
                assert(recording_status_active(self.streaming_targets@[i as int].1));
                return true;
            }
            i = i + 1;
        }
        false
    }

    fn evaluate_microphone_publish_state(&mut self, actions: &mut Vec<SignalingAction>)
        requires
            old(self)@.participant_id is Some,
        ensures
            final(self)@ == spec_evaluate_microphone_publish_state(old(self)@).state,
            final(actions)@ == old(actions)@ + spec_evaluate_microphone_publish_state(old(self)@).actions,
    {
        let ghost s0 = self@;
        let participant_id = match self.participant_id {
            Some(id) => id,
            None => 0,
        };
        let mut publish = match &self.microphone_restriction {
            MicrophoneRestriction::Disabled => true,
            MicrophoneRestriction::Enabled(list) => contains_id(list, participant_id),
        };
        if self.recording_consent_state == RecordingConsentState::Rejected
            || self.recording_consent_state == RecordingConsentState::WaitingForConsent {
            publish = false;
            self.audio_muted = true;
        }
        let ghost a0 = actions@;
        if self.audio_muted && self.compositor {
            actions.push(SignalingAction::SetLocalTrackMute(TrackKind::Audio, true));
        }
        actions.push(SignalingAction::SetMicrophonePublish { publish, muted: self.audio_muted });
        proof {
            let e = spec_evaluate_microphone_publish_state(s0);
            assert(self@ =~= e.state);
            assert(actions@ =~= a0 + e.actions);
        }
    }

    fn toggle_audio_mute(&mut self, microphone_published: bool, actions: &mut Vec<SignalingAction>)
        ensures
            final(self)@ == spec_toggle_audio_mute(old(self)@, microphone_published).state,
            final(actions)@ == old(actions)@ + spec_toggle_audio_mute(old(self)@, microphone_published).actions,
    {
        let ghost s0 = self@;
        let ghost a0 = actions@;
        if !microphone_published {
            if self.recording_consent_state == RecordingConsentState::Rejected {
                actions.push(SignalingAction::PlayTrack(Track::ConsentReject));
            } else {
                actions.push(SignalingAction::PlayTrack(Track::MicrophonesRestrictionEnabled));
            }
            assert(actions@ =~= a0 + spec_toggle_audio_mute(s0, microphone_published).actions);
            return;
        }
        if self.compositor {
            actions.push(SignalingAction::SetLocalTrackMute(TrackKind::Audio, !self.audio_muted));
        }
        self.audio_muted = !self.audio_muted;
        actions.push(SignalingAction::PlayTrack(if self.audio_muted { Track::On } else { Track::Off }));
        proof {
            let e = spec_toggle_audio_mute(s0, microphone_published);
            assert(self@ =~= e.state);
            assert(actions@ =~= a0 + e.actions);
        }
    }

    fn toggle_video_mute(&mut self, play_sound: bool, actions: &mut Vec<SignalingAction>)
        ensures
            final(self)@ == spec_toggle_video_mute(old(self)@, play_sound).state,
            final(actions)@ == old(actions)@ + spec_toggle_video_mute(old(self)@, play_sound).actions,
    {
        let ghost s0 = self@;
        let ghost a0 = actions@;
        if self.video_muted && self.recording_consent_state == RecordingConsentState::Rejected {
            actions.push(SignalingAction::PlayTrack(Track::ConsentReject));
            assert(actions@ =~= a0 + spec_toggle_video_mute(s0, play_sound).actions);
            return;
        }
        if self.compositor {
            actions.push(SignalingAction::SetLocalTrackMute(TrackKind::Video, !self.video_muted));
        }
        self.video_muted = !self.video_muted;
        if play_sound {
            actions.push(SignalingAction::PlayTrack(if self.video_muted { Track::On } else { Track::Off }));
        }
        proof {
            let e = spec_toggle_video_mute(s0, play_sound);
            assert(self@ =~= e.state);
            assert(actions@ =~= a0 + e.actions);
        }
    }

    fn dial_digit(&mut self, digit: u8, actions: &mut Vec<SignalingAction>)
        requires
            signaling_wf(old(self)@),
            old(self)@.dtmf_pw.len() < DIAL_IN_DIGITS,
        ensures
            final(self)@ == spec_dial_digit(old(self)@, digit).state,
            final(actions)@ == old(actions)@ + spec_dial_digit(old(self)@, digit).actions,
    {
        let ghost s0 = self@;
        let ghost a0 = actions@;
        let ghost e = spec_dial_digit(s0, digit);
        if digit == DTMF_HASH {
            self.dtmf_id = Vec::new();
            self.dtmf_pw = Vec::new();
        } else if digit <= 9 {
            if self.dtmf_id.len() < DIAL_IN_DIGITS {
                self.dtmf_id.push(digit);
                if self.dtmf_id.len() == DIAL_IN_DIGITS {
                    actions.push(SignalingAction::PlayTrack(Track::WelcomePasscode));
                }
            } else {
                self.dtmf_pw.push(digit);
                if self.pin_timer {
                    actions.push(SignalingAction::CancelPinTimeout);
                    self.pin_timer = false;
                }
                if self.dtmf_pw.len() == DIAL_IN_DIGITS {
                    actions.push(SignalingAction::ConnectWebsocket);
                } else {
                    actions.push(SignalingAction::StartPinTimeout);
                    self.pin_timer = true;
                }
            }
        }
        assert(self@ =~= e.state);
        assert(actions@ =~= a0 + e.actions);
    }

    fn reject_recording(&mut self, actions: &mut Vec<SignalingAction>)
        requires
            signaling_wf(old(self)@),
            old(self)@.recording_consent_state != RecordingConsentState::NoRecording,
        ensures
            final(self)@ == spec_reject_recording(old(self)@).state,
            final(actions)@ == old(actions)@ + spec_reject_recording(old(self)@).actions,
    {
        let ghost s0 = self@;
        let ghost a0 = actions@;
        let ghost e = spec_reject_recording(s0);
        actions.push(SignalingAction::SetConsent(false));
        actions.push(SignalingAction::PlayTrack(Track::ConsentReject));
        self.recording_consent_state = RecordingConsentState::Rejected;
        let ghost a1 = actions@;
        self.evaluate_microphone_publish_state(actions);
        if !self.video_muted {
            self.toggle_video_mute(false, actions);
        }
        assert(a1 =~= a0 + seq![SignalingAction::SetConsent(false)] + play(Track::ConsentReject));
        assert(self@ =~= e.state);
        assert(actions@ =~= a0 + e.actions);
    }

    fn accept_recording(&mut self, actions: &mut Vec<SignalingAction>)
        requires
            signaling_wf(old(self)@),
            old(self)@.recording_consent_state != RecordingConsentState::NoRecording,
        ensures
            final(self)@ == spec_accept_recording(old(self)@).state,
            final(actions)@ == old(actions)@ + spec_accept_recording(old(self)@).actions,
    {
        let ghost s0 = self@;
        let ghost a0 = actions@;
        let ghost e = spec_accept_recording(s0);
        actions.push(SignalingAction::SetConsent(true));
        actions.push(SignalingAction::PlayTrack(Track::ConsentAccept));
        self.recording_consent_state = RecordingConsentState::Accepted;
        let ghost a1 = actions@;
        self.evaluate_microphone_publish_state(actions);
        assert(a1 =~= a0 + seq![SignalingAction::SetConsent(true)] + play(Track::ConsentAccept));
        assert(self@ =~= e.state);
        assert(actions@ =~= a0 + e.actions);
    }

    fn binding_digit(&mut self, digit: u8, microphone_published: bool, actions: &mut Vec<SignalingAction>)
        requires
            signaling_wf(old(self)@),
        ensures
            final(self)@ == spec_binding_digit(old(self)@, digit, microphone_published).state,
            final(actions)@ == old(actions)@ + spec_binding_digit(old(self)@, digit, microphone_published).actions,
    {
        let ghost s0 = self@;
        let ghost a0 = actions@;
        let ghost e = spec_binding_digit(s0, digit, microphone_published);
        let waiting = self.recording_consent_state == RecordingConsentState::WaitingForConsent;
        if waiting && digit != DTMF_ACCEPT_RECORDING && digit != DTMF_REJECT_RECORDING {
            actions.push(SignalingAction::PlayTrack(Track::ConsentInvalid));
        } else if digit == DTMF_STOP_CURRENT_TRACK {
            actions.push(SignalingAction::StopCurrentTrack);
        } else if digit == DTMF_TOGGLE_AUDIO_MUTE {
            self.toggle_audio_mute(microphone_published, actions);
        } else if digit == DTMF_TOGGLE_VIDEO_MUTE {
            self.toggle_video_mute(true, actions);
        } else if digit == DTMF_TOGGLE_HAND_RAISE {
            if self.websocket {
                self.hand_raised = !self.hand_raised;
                actions.push(SignalingAction::PlayTrack(if self.hand_raised { Track::On } else { Track::Off }));
                actions.push(SignalingAction::SendHandAction(self.hand_raised));
            }
        } else if digit == DTMF_REJECT_RECORDING {
            if self.websocket && (waiting || self.recording_consent_state == RecordingConsentState::Accepted) {
                self.reject_recording(actions);
            }
        } else if digit == DTMF_ACCEPT_RECORDING {
            if self.websocket && (waiting || self.recording_consent_state == RecordingConsentState::Rejected) {
                self.accept_recording(actions);
            }
        }
        assert(self@ =~= e.state);
        assert(actions@ =~= a0 + e.actions);
    }

    /// Takes an event of the media pipeline. `microphone_published` tells
    /// whether the microphone track is published into the conference now;
    /// `now_ms` is the time on a monotonic clock in milliseconds.
    pub fn handle_media_event(&mut self, event: MediaEvent, microphone_published: bool, now_ms: u64) -> (r: Vec<
        SignalingAction,
    >)
        requires
            signaling_wf(old(self)@),
        ensures
            final(self)@ == spec_handle_media_event(old(self)@, event, microphone_published, now_ms).state,
            r@ == spec_handle_media_event(old(self)@, event, microphone_published, now_ms).actions,
            signaling_wf(final(self)@),
    {
        let ghost s0 = self@;
        let mut actions: Vec<SignalingAction> = Vec::new();
        match event {
            MediaEvent::DtmfDigit(d) => {
                if self.dtmf_pw.len() < DIAL_IN_DIGITS {
                    self.dial_digit(d, &mut actions);
                } else {
                    self.binding_digit(d, microphone_published, &mut actions);
                }
            },
            MediaEvent::Error => {
                self.state = CallState::Quitting;
            },
            MediaEvent::LocalTrackMuted(kind) => {
                let muted = match kind {
                    TrackKind::Audio => self.audio_muted,
                    TrackKind::Video => self.video_muted,
                };
                if !muted {
                    match kind {
                        TrackKind::Audio => {
                            self.audio_muted = true;
                        },
                        TrackKind::Video => {
                            self.video_muted = true;
                        },
                    }
                    actions.push(SignalingAction::PlayTrack(Track::ModeratorMuted));
                }
            },
            MediaEvent::VideoDecoderError => {
                let recent = match self.last_fast_picture_update_request_sent {
                    Some(last) => now_ms < last || now_ms - last < PICTURE_UPDATE_INTERVAL_MS,
                    None => false,
                };
                if !recent {
                    self.last_fast_picture_update_request_sent = Some(now_ms);
                    actions.push(SignalingAction::SendPictureUpdateRequest);
                }
            },
            MediaEvent::Disconnected { participant_removed } => {
                if participant_removed {
                    actions.push(SignalingAction::StartDisconnectGracePeriod);
                } else {
                    self.state = CallState::Quitting;
                }
            },
        }
        proof {
            let e = spec_handle_media_event(s0, event, microphone_published, now_ms);
            assert(Seq::<SignalingAction>::empty() + e.actions =~= e.actions);
            assert(self@ =~= e.state);
            assert(actions@ =~= e.actions);
        }
        actions
    }
}

proof fn lemma_first_participant_from(ps: Seq<ParticipantV>, id: u128, i: int)
    requires
        0 <= i <= ps.len(),
        forall|j: int| 0 <= j < i ==> (#[trigger] ps[j]).id != id,
    ensures
        first_participant(ps, id, 0) == first_participant(ps, id, i),
    decreases i,
{
    if i > 0 {
        lemma_first_participant_from(ps, id, i - 1);
    }
}

proof fn lemma_first_target_from(t: Seq<(u128, StreamStatus)>, id: u128, i: int)
    requires
        0 <= i <= t.len(),
        forall|j: int| 0 <= j < i ==> (#[trigger] t[j]).0 != id,
    ensures
        first_target(t, id, 0) == first_target(t, id, i),
    decreases i,
{
    if i > 0 {
        lemma_first_target_from(t, id, i - 1);
    }
}

proof fn lemma_first_target_found(t: Seq<(u128, StreamStatus)>, id: u128, i: int)
    requires
        first_target(t, id, i) is Some,
    ensures
        ({
            let k = first_target(t, id, i)->0;
            &&& i <= k < t.len()
            &&& t[k].0 == id
        }),
    decreases t.len() - i,
{
    if 0 <= i < t.len() && t[i].0 != id {
        lemma_first_target_found(t, id, i + 1);
    }
}

impl Signaling {
    fn find_participant(&self, id: u128) -> (r: Option<usize>)
        ensures
            match r {
                Some(i) => first_participant(self@.participants, id, 0) == Some(i as int) && i < self@.participants.len(),
                None => first_participant(self@.participants, id, 0) is None,
            },
    {
        let ghost ps = self@.participants;
        let mut i: usize = 0;
        while i < self.participants.len()
            invariant
                i <= self.participants@.len(),
                ps == self.participants.deep_view(),
                ps.len() == self.participants@.len(),
                forall|j: int| 0 <= j < i ==> (#[trigger] ps[j]).id != id,
            decreases self.participants@.len() - i,
        {
            assert(ps[i as int] == self.participants@[i as int]@);
            if self.participants[i].id == id {
                proof {
                    lemma_first_participant_from(ps, id, i as int);
                }
                return Some(i);
            }
            i = i + 1;
        }
        proof {
            lemma_first_participant_from(ps, id, i as int);
        }
        None
    }

    fn drop_participant(&mut self, id: u128)
        ensures
            final(self)@ == (SignalingV { participants: without_participant(old(self)@.participants, id), ..old(self)@ }),
    {
        let ghost s0 = self@;
        let mut rest: Vec<Participant> = Vec::new();
        std::mem::swap(&mut rest, &mut self.participants);
        assert(rest.deep_view() =~= s0.participants);
        assert(self.participants.deep_view() =~= Seq::<ParticipantV>::empty());
        while rest.len() > 0
            invariant
                self.participants.deep_view() + without_participant(rest.deep_view(), id) == without_participant(
                    s0.participants,
                    id,
                ),
                self@ == (SignalingV { participants: self@.participants, ..s0 }),
            decreases rest@.len(),
        {
            let ghost before = rest.deep_view();
            let ghost kept = self.participants.deep_view();
            let p = rest.remove(0);
            assert(rest.deep_view() =~= before.drop_first());
            assert(before[0] == p@);
            if p.id != id {
                self.participants.push(p);
                assert(self.participants.deep_view() =~= kept.push(p@));
                assert(kept.push(p@) + without_participant(rest.deep_view(), id) =~= kept + (seq![p@]
                    + without_participant(rest.deep_view(), id)));
            } else {
                assert(Seq::<ParticipantV>::empty() + without_participant(rest.deep_view(), id)
                    =~= without_participant(rest.deep_view(), id));
            }
        }
        assert(without_participant(rest.deep_view(), id) =~= Seq::<ParticipantV>::empty());
        assert(self.participants.deep_view() + Seq::<ParticipantV>::empty() =~= self.participants.deep_view());
        assert(self@ =~= (SignalingV { participants: without_participant(s0.participants, id), ..s0 }));
    }

    fn find_target(&self, id: u128) -> (r: Option<usize>)
        ensures
            match r {
                Some(i) => first_target(self@.streaming_targets, id, 0) == Some(i as int) && i
                    < self@.streaming_targets.len(),
                None => first_target(self@.streaming_targets, id, 0) is None,
            },
    {
        let ghost t = self@.streaming_targets;
        let mut i: usize = 0;
        while i < self.streaming_targets.len()
            invariant
                i <= t.len(),
                self.streaming_targets@ == t,
                forall|j: int| 0 <= j < i ==> (#[trigger] t[j]).0 != id,
            decreases t.len() - i,
        {
            if self.streaming_targets[i].0 == id {
                proof {
                    lemma_first_target_from(t, id, i as int);
                }
                return Some(i);
            }
            i = i + 1;
        }
        proof {
            lemma_first_target_from(t, id, i as int);
        }
        None
    }

    fn update_target_status(&mut self, id: u128, status: StreamStatus)
        ensures
            final(self)@ == (SignalingV {
                streaming_targets: set_target_status(old(self)@.streaming_targets, id, status),
                ..old(self)@
            }),
    {
        let ghost s0 = self@;
        match self.find_target(id) {
            Some(i) => {
                self.streaming_targets.set(i, (id, status));
            },
            None => {
                self.streaming_targets.push((id, status));
            },
        }
        assert(self@ =~= (SignalingV { streaming_targets: set_target_status(s0.streaming_targets, id, status), ..s0 }));
    }

    fn stream_updated(&mut self, id: u128, status: StreamStatus, actions: &mut Vec<SignalingAction>)
        requires
            signaling_wf(old(self)@),
            old(self)@.participant_id is Some,
        ensures
            final(self)@ == spec_stream_updated(old(self)@, id, status).state,
            final(actions)@ == old(actions)@ + spec_stream_updated(old(self)@, id, status).actions,
    {
        let ghost s0 = self@;
        let ghost a0 = actions@;
        let ghost e = spec_stream_updated(s0, id, status);
        let prev = self.is_any_recording_active();
        self.update_target_status(id, status);
        let now = self.is_any_recording_active();
        if !prev && now {
            actions.push(SignalingAction::PlayTrack(Track::ConsentInfo));
            self.recording_consent_state = RecordingConsentState::WaitingForConsent;
        }
        if prev && !now {
            match self.recording_consent_state {
                RecordingConsentState::NoRecording => {},
                RecordingConsentState::WaitingForConsent | RecordingConsentState::Accepted => {
                    actions.push(SignalingAction::PlayTrack(Track::RecordingStoppedAccept));
                },
                RecordingConsentState::Rejected => {
                    actions.push(SignalingAction::PlayTrack(Track::RecordingStoppedReject));
                },
            }
            self.recording_consent_state = RecordingConsentState::NoRecording;
        }
        let ghost a1 = actions@;
        let ghost s1 = self@;
        self.evaluate_microphone_publish_state(actions);
        proof {
            let prev_s = spec_is_any_recording_active(s0.streaming_targets);
            let targets = set_target_status(s0.streaming_targets, id, status);
            let now_s = spec_is_any_recording_active(targets);
            let started = !prev_s && now_s;
            let stopped = prev_s && !now_s;
            let a2: Seq<SignalingAction> = if started { play(Track::ConsentInfo) } else { Seq::empty() };
            let sc1 = SignalingV { streaming_targets: targets, ..s0 };
            let sc2 = if started {
                SignalingV { recording_consent_state: RecordingConsentState::WaitingForConsent, ..sc1 }
            } else {
                sc1
            };
            let a3: Seq<SignalingAction> = if stopped { recording_stopped_actions(sc2.recording_consent_state) } else { Seq::empty() };
            assert(a1 =~= a0 + a2 + a3);
            assert(actions@ =~= a0 + e.actions);
            assert(self@ =~= e.state);
        }
    }

    fn participant_updated(&mut self, p: Participant, actions: &mut Vec<SignalingAction>)
        requires
            old(actions)@.len() == 0,
        ensures
            final(self)@ == spec_handle_websocket_event(old(self)@, WebsocketEventV::Update(p@)).state,
            final(actions)@ == spec_handle_websocket_event(old(self)@, WebsocketEventV::Update(p@)).actions,
    {
        let ghost s0 = self@;
        let ghost pv = p@;
        match self.find_participant(p.id) {
            None => {},
            Some(i) => {
                proof {
                    assert(s0.participants[i as int] == self.participants@[i as int]@);
                }
                let current_id = self.participants[i].id;
                let renamed = !(self.participants[i].display_name == p.display_name);
                if self.compositor && renamed {
                    actions.push(SignalingAction::AddParticipant(current_id));
                }
                self.participants.set(i, p);
                assert(self.participants.deep_view() =~= s0.participants.update(i as int, pv));
            },
        }
        let ghost e = spec_handle_websocket_event(s0, WebsocketEventV::Update(pv));
        assert(self@ =~= e.state);
        assert(actions@ =~= e.actions);
    }

    fn restrictions_enabled(&mut self, list: Vec<u128>, actions: &mut Vec<SignalingAction>)
        requires
            old(actions)@.len() == 0,
            old(self)@.participant_id is Some,
        ensures
            final(self)@ == spec_handle_websocket_event(old(self)@, WebsocketEventV::MicrophoneRestrictionsEnabled(list@)).state,
            final(actions)@ == spec_handle_websocket_event(old(self)@, WebsocketEventV::MicrophoneRestrictionsEnabled(list@)).actions,
    {
        let ghost s0 = self@;
        let ghost lv = list@;
        let own = match self.participant_id {
            Some(id) => id,
            None => 0,
        };
        let unrestricted = contains_id(&list, own);
        if !unrestricted {
            self.audio_muted = true;
            actions.push(SignalingAction::PlayTrack(Track::MicrophonesRestrictionEnabled));
        }
        self.microphone_restriction = MicrophoneRestriction::Enabled(list);
        let ghost a1 = actions@;
        self.evaluate_microphone_publish_state(actions);
        let ghost e = spec_handle_websocket_event(s0, WebsocketEventV::MicrophoneRestrictionsEnabled(lv));
        assert(a1 =~= (if unrestricted { Seq::<SignalingAction>::empty() } else { play(Track::MicrophonesRestrictionEnabled) }));
        assert(self@ =~= e.state);
        assert(actions@ =~= e.actions);
    }

    /// Takes an event from the controller's websocket.
    #[verifier::rlimit(40)]
    pub fn handle_websocket_event(&mut self, event: WebsocketEvent) -> (r: Vec<SignalingAction>)
        requires
            signaling_wf(old(self)@),
            needs_participant_id(event@) ==> old(self)@.participant_id is Some,
        ensures
            final(self)@ == spec_handle_websocket_event(old(self)@, event@).state,
            r@ == spec_handle_websocket_event(old(self)@, event@).actions,
            signaling_wf(final(self)@),
    {
        let ghost s0 = self@;
        let ghost ev = event@;
        let ghost e = spec_handle_websocket_event(s0, ev);
        let mut actions: Vec<SignalingAction> = Vec::new();
        match event {
            WebsocketEvent::Joined(p) => {
                if self.compositor {
                    actions.push(SignalingAction::AddParticipant(p.id));
                }
                let ghost pv = p@;
                self.participants.push(p);
                assert(self.participants.deep_view() =~= s0.participants.push(pv));
            },
            WebsocketEvent::Update(p) => {
                self.participant_updated(p, &mut actions);
            },
            WebsocketEvent::Left(id) => {
                self.drop_participant(id);
                if self.compositor {
                    actions.push(SignalingAction::RemoveParticipant(id));
                }
            },
            WebsocketEvent::SessionEnded => {
                if self.websocket {
                    actions.push(SignalingAction::CloseWebsocket);
                    self.websocket = false;
                }
                actions.push(SignalingAction::PlayTrackAndRespond(Track::ConferenceClosed, Responder::ConferenceClosed));
            },
            WebsocketEvent::MovedToWaitingRoom => {
                self.participants = Vec::new();
                self.compositor = false;
                actions.push(SignalingAction::RemoveCompositor);
                actions.push(SignalingAction::PlayTrack(Track::WaitingRoomEntered));
                actions.push(SignalingAction::EnterWaitingRoom);
                assert(self.participants.deep_view() =~= Seq::<ParticipantV>::empty());
            },
            WebsocketEvent::MicrophoneRestrictionsEnabled(list) => {
                self.restrictions_enabled(list, &mut actions);
            },
            WebsocketEvent::MicrophoneRestrictionsDisabled => {
                self.microphone_restriction = MicrophoneRestriction::Disabled;
                actions.push(SignalingAction::PlayTrack(Track::MicrophonesRestrictionLifted));
                self.evaluate_microphone_publish_state(&mut actions);
            },
            WebsocketEvent::OtherLiveKitEvent => {},
            WebsocketEvent::Disconnected => {
                self.state = CallState::Quitting;
            },
            WebsocketEvent::StreamUpdated { target_id, status } => {
                self.stream_updated(target_id, status, &mut actions);
            },
        }
        proof {
            assert(Seq::<SignalingAction>::empty() + e.actions =~= e.actions);
            assert(self@ =~= e.state);
            assert(actions@ =~= e.actions);
        }
        actions
    }
}

fn push_shown_participants(participants: &Vec<Participant>, actions: &mut Vec<SignalingAction>)
    ensures
        final(actions)@ == old(actions)@ + shown_participants(participants.deep_view()),
{
    let ghost ps = participants.deep_view();
    let ghost a0 = actions@;
    let mut i: usize = 0;
    assert(ps.skip(0) =~= ps);
    while i < participants.len()
        invariant
            i <= ps.len(),
            ps == participants.deep_view(),
            a0 + shown_participants(ps) == actions@ + shown_participants(ps.skip(i as int)),
        decreases ps.len() - i,
    {
        let ghost rest = ps.skip(i as int);
        assert(rest.drop_first() =~= ps.skip(i + 1));
        assert(rest[0] == participants@[i as int]@);
        let ghost before = actions@;
        if !participants[i].left {
            actions.push(SignalingAction::AddParticipant(participants[i].id));
            assert(before + shown_participants(rest) =~= actions@ + shown_participants(ps.skip(i + 1)));
        } else {
            assert(before + shown_participants(rest) =~= actions@ + shown_participants(ps.skip(i + 1)));
        }
        i = i + 1;
    }
    assert(ps.skip(i as int) =~= Seq::<ParticipantV>::empty());
    assert(actions@ + Seq::<SignalingAction>::empty() =~= actions@);
}

impl Signaling {
    /// How connecting to the conference with the entered id and pin went:
    /// on success the welcome plays and the bridge joins once it has been
    /// heard; refused credentials start the entry over.
    pub fn handle_connect_result(&mut self, outcome: ConnectOutcome) -> (r: Vec<SignalingAction>)
        requires
            signaling_wf(old(self)@),
        ensures
            final(self)@ == spec_handle_connect_result(old(self)@, outcome).state,
            r@ == spec_handle_connect_result(old(self)@, outcome).actions,
            signaling_wf(final(self)@),
    {
        let ghost s0 = self@;
        let mut actions: Vec<SignalingAction> = Vec::new();
        match outcome {
            ConnectOutcome::Connected => {
                self.websocket = true;
                actions.push(SignalingAction::PlayTrackAndRespond(Track::WelcomeUsage, Responder::WelcomeFinished));
            },
            ConnectOutcome::InvalidCredentials => {
                self.dtmf_id = Vec::new();
                self.dtmf_pw = Vec::new();
                actions.push(SignalingAction::PlayTrack(Track::InputInvalid));
            },
            ConnectOutcome::Failed => {
                self.state = CallState::Quitting;
            },
        }
        let ghost e = spec_handle_connect_result(s0, outcome);
        assert(self@ =~= e.state);
        assert(actions@ =~= e.actions);
        actions
    }

    /// The pin was not completed in time: it is entered anew.
    pub fn handle_pin_timeout(&mut self) -> (r: Vec<SignalingAction>)
        requires
            signaling_wf(old(self)@),
        ensures
            final(self)@ == spec_handle_pin_timeout(old(self)@).state,
            r@ == spec_handle_pin_timeout(old(self)@).actions,
            signaling_wf(final(self)@),
    {
        let ghost s0 = self@;
        self.dtmf_pw = Vec::new();
        let mut actions: Vec<SignalingAction> = Vec::new();
        actions.push(SignalingAction::PlayTrack(Track::InputInvalid));
        let ghost e = spec_handle_pin_timeout(s0);
        assert(self@ =~= e.state);
        assert(actions@ =~= e.actions);
        actions
    }

    /// The conference told the bridge to wait: the caller hears so and
    /// waits until admitted.
    pub fn wait_in_waiting_room_until_accepted(&self) -> (r: Vec<SignalingAction>)
        ensures
            r@ == waiting_room_actions(),
    {
        let mut actions: Vec<SignalingAction> = Vec::new();
        actions.push(SignalingAction::PlayTrack(Track::WaitingRoomEntered));
        actions.push(SignalingAction::EnterWaitingRoom);
        assert(actions@ =~= waiting_room_actions());
        actions
    }

    /// The bridge joined the conference as `own_id`, with its compositor in
    /// place: the participants who have not left are shown, a running
    /// recording asks for consent, and the microphone restriction applies.
    pub fn handle_join_result(
        &mut self,
        participants: Vec<Participant>,
        targets: Vec<(u128, StreamStatus)>,
        restriction: MicrophoneRestriction,
        own_id: u128,
    ) -> (r: Vec<SignalingAction>)
        requires
            signaling_wf(old(self)@),
        ensures
            final(self)@ == spec_handle_join_result(
                old(self)@,
                participants.deep_view(),
                targets@,
                restriction@,
                own_id,
            ).state,
            r@ == spec_handle_join_result(old(self)@, participants.deep_view(), targets@, restriction@, own_id).actions,
            signaling_wf(final(self)@),
    {
        let ghost s0 = self@;
        let ghost pv = participants.deep_view();
        let ghost rv = restriction@;
        let ghost e = spec_handle_join_result(s0, pv, targets@, rv, own_id);
        let mut actions: Vec<SignalingAction> = Vec::new();
        push_shown_participants(&participants, &mut actions);
        let ghost a1 = actions@;
        self.participants = participants;
        self.compositor = true;
        self.streaming_targets = targets;
        self.participant_id = Some(own_id);
        if self.is_any_recording_active() {
            actions.push(SignalingAction::PlayTrack(Track::ConsentInfo));
            self.recording_consent_state = RecordingConsentState::WaitingForConsent;
        }
        let ghost a2 = actions@;
        let allowed = match &restriction {
            MicrophoneRestriction::Disabled => true,
            MicrophoneRestriction::Enabled(list) => contains_id(list, own_id),
        };
        self.microphone_restriction = restriction;
        if !allowed {
            actions.push(SignalingAction::PlayTrack(Track::MicrophonesRestrictionEnabled));
        }
        let ghost a3 = actions@;
        self.evaluate_microphone_publish_state(&mut actions);
        proof {
            assert(a1 =~= shown_participants(pv));
            assert(actions@ =~= e.actions);
            assert(self@ =~= e.state);
        }
        actions
    }

    /// The conference-closed announcement has been heard: the call ends.
    pub fn handle_conference_closed(&mut self)
        ensures
            final(self)@ == (SignalingV { state: CallState::Quitting, ..old(self)@ }),
    {
        self.state = CallState::Quitting;
        assert(self@ =~= (SignalingV { state: CallState::Quitting, ..old(self)@ }));
    }
}

// ---------------------------------------------------------------------------
// Laws of the call
// ---------------------------------------------------------------------------

/// While a recording waits for consent or was refused, the microphone is
/// muted and not published, whatever the restriction says.
pub proof fn lemma_pending_consent_unpublishes(s: SignalingV)
    requires
        consent_pending_or_refused(s.recording_consent_state),
    ensures
        spec_evaluate_microphone_publish_state(s).state.audio_muted,
        spec_evaluate_microphone_publish_state(s).actions.last() == (SignalingAction::SetMicrophonePublish {
            publish: false,
            muted: true,
        }),
{
}

/// Refusing a recording in the conference mutes the microphone and the
/// camera, takes the microphone off, and tells the controller.
pub proof fn lemma_reject_mutes(s: SignalingV, microphone_published: bool, now_ms: u64)
    requires
        signaling_wf(s),
        s.dtmf_pw.len() == DIAL_IN_DIGITS,
        s.websocket,
        s.recording_consent_state == RecordingConsentState::WaitingForConsent || s.recording_consent_state
            == RecordingConsentState::Accepted,
    ensures
        ({
            let e = spec_handle_media_event(s, MediaEvent::DtmfDigit(DTMF_REJECT_RECORDING), microphone_published, now_ms);
            &&& e.state.recording_consent_state == RecordingConsentState::Rejected
            &&& e.state.audio_muted
            &&& e.state.video_muted
            &&& e.actions[0] == SignalingAction::SetConsent(false)
            &&& e.actions.contains(SignalingAction::SetMicrophonePublish { publish: false, muted: true })
        }),
{
    let s1 = SignalingV { recording_consent_state: RecordingConsentState::Rejected, ..s };
    let ev = spec_evaluate_microphone_publish_state(s1);
    let e = spec_handle_media_event(s, MediaEvent::DtmfDigit(DTMF_REJECT_RECORDING), microphone_published, now_ms);
    let v = if !ev.state.video_muted {
        spec_toggle_video_mute(ev.state, false)
    } else {
        Step { state: ev.state, actions: Seq::empty() }
    };
    let pre = seq![SignalingAction::SetConsent(false)] + play(Track::ConsentReject);
    assert(e.actions == pre + ev.actions + v.actions);
    let k = pre.len() + ev.actions.len() - 1;
    assert((pre + ev.actions + v.actions)[k] == ev.actions.last());
}

/// A recording that starts while the bridge is in the conference asks the
/// caller for consent, and the microphone stays off until it is given.
pub proof fn lemma_recording_start_asks_consent(s: SignalingV, id: u128, status: StreamStatus)
    requires
        signaling_wf(s),
        s.participant_id is Some,
        !spec_is_any_recording_active(s.streaming_targets),
        recording_status_active(status),
    ensures
        ({
            let e = spec_handle_websocket_event(s, WebsocketEventV::StreamUpdated { target_id: id, status });
            &&& e.state.recording_consent_state == RecordingConsentState::WaitingForConsent
            &&& e.actions[0] == SignalingAction::PlayTrack(Track::ConsentInfo)
            &&& e.state.audio_muted
            &&& e.actions.last() == (SignalingAction::SetMicrophonePublish { publish: false, muted: true })
        }),
{
    let t = set_target_status(s.streaming_targets, id, status);
    match first_target(s.streaming_targets, id, 0) {
        Some(i) => {
            lemma_first_target_found(s.streaming_targets, id, 0);
            assert(recording_status_active(t[i].1));
        },
        None => {
            assert(recording_status_active(t[s.streaming_targets.len() as int].1));
        },
    }
    assert(spec_is_any_recording_active(t));
}

/// Joining a conference whose recording already runs asks for consent.
pub proof fn lemma_join_into_recording_asks_consent(
    s: SignalingV,
    participants: Seq<ParticipantV>,
    targets: Seq<(u128, StreamStatus)>,
    restriction: MicrophoneRestrictionV,
    own_id: u128,
)
    requires
        spec_is_any_recording_active(targets),
    ensures
        ({
            let e = spec_handle_join_result(s, participants, targets, restriction, own_id);
            &&& e.state.recording_consent_state == RecordingConsentState::WaitingForConsent
            &&& e.actions.contains(SignalingAction::PlayTrack(Track::ConsentInfo))
            &&& e.state.audio_muted
        }),
{
    let e = spec_handle_join_result(s, participants, targets, restriction, own_id);
    let shown = shown_participants(participants);
    let rest = (if restriction_allows(restriction, own_id) {
        Seq::<SignalingAction>::empty()
    } else {
        play(Track::MicrophonesRestrictionEnabled)
    });
    let s1 = SignalingV {
        participants,
        compositor: true,
        streaming_targets: targets,
        recording_consent_state: RecordingConsentState::WaitingForConsent,
        microphone_restriction: restriction,
        participant_id: Some(own_id),
        ..s
    };
    assert(e.actions == shown + play(Track::ConsentInfo) + rest + spec_evaluate_microphone_publish_state(s1).actions);
    assert(e.actions[shown.len() as int] == SignalingAction::PlayTrack(Track::ConsentInfo));
}

/// Once a request for a full picture is sent, another one within five
/// seconds is not.
pub proof fn lemma_picture_update_rate_limited(
    s: SignalingV,
    microphone_published: bool,
    first_ms: u64,
    second_ms: u64,
)
    requires
        match s.last_fast_picture_update_request_sent {
            Some(last) => last + PICTURE_UPDATE_INTERVAL_MS <= first_ms,
            None => true,
        },
        first_ms <= second_ms < first_ms + PICTURE_UPDATE_INTERVAL_MS,
    ensures
        ({
            let e1 = spec_handle_media_event(s, MediaEvent::VideoDecoderError, microphone_published, first_ms);
            let e2 = spec_handle_media_event(e1.state, MediaEvent::VideoDecoderError, microphone_published, second_ms);
            &&& e1.actions == seq![SignalingAction::SendPictureUpdateRequest]
            &&& e2.actions.len() == 0
            &&& e2.state == e1.state
        }),
{
}

/// Toggling the microphone twice, while it is published, gives back the
/// state before.
pub proof fn lemma_toggle_audio_twice(s: SignalingV)
    ensures
        spec_toggle_audio_mute(spec_toggle_audio_mute(s, true).state, true).state == s,
{
    assert(spec_toggle_audio_mute(spec_toggle_audio_mute(s, true).state, true).state =~= s);
}

/// Raising and lowering the hand gives back the state before.
pub proof fn lemma_hand_raise_twice(s: SignalingV, microphone_published: bool, now_ms: u64)
    requires
        signaling_wf(s),
        s.dtmf_pw.len() == DIAL_IN_DIGITS,
        s.recording_consent_state != RecordingConsentState::WaitingForConsent,
    ensures
        ({
            let ev = MediaEvent::DtmfDigit(DTMF_TOGGLE_HAND_RAISE);
            let e1 = spec_handle_media_event(s, ev, microphone_published, now_ms);
            spec_handle_media_event(e1.state, ev, microphone_published, now_ms).state == s
        }),
{
    let ev = MediaEvent::DtmfDigit(DTMF_TOGGLE_HAND_RAISE);
    let e1 = spec_handle_media_event(s, ev, microphone_published, now_ms);
    assert(spec_handle_media_event(e1.state, ev, microphone_published, now_ms).state =~= s);
}

/// Twenty digits without `#` connect to the conference with the first ten
/// as its id and the next ten as its pin.
pub open spec fn dial(s: SignalingV, digits: Seq<u8>) -> Step
    decreases digits.len(),
{
    if digits.len() == 0 {
        Step { state: s, actions: Seq::empty() }
    } else {
        let prev = dial(s, digits.drop_last());
        let e = spec_handle_media_event(prev.state, MediaEvent::DtmfDigit(digits.last()), true, 0);
        Step { state: e.state, actions: prev.actions + e.actions }
    }
}

proof fn lemma_dial_prefix(digits: Seq<u8>, n: int)
    requires
        digits.len() == 2 * DIAL_IN_DIGITS,
        all_digits(digits),
        0 <= n <= digits.len(),
    ensures
        ({
            let st = dial(initial_signaling(), digits.take(n)).state;
            &&& n <= DIAL_IN_DIGITS ==> st == SignalingV { dtmf_id: digits.take(n), ..initial_signaling() }
            &&& DIAL_IN_DIGITS < n < 2 * DIAL_IN_DIGITS ==> st == SignalingV {
                dtmf_id: digits.take(DIAL_IN_DIGITS as int),
                dtmf_pw: digits.subrange(DIAL_IN_DIGITS as int, n),
                pin_timer: true,
                ..initial_signaling()
            }
            &&& n == 2 * DIAL_IN_DIGITS ==> st == SignalingV {
                dtmf_id: digits.take(DIAL_IN_DIGITS as int),
                dtmf_pw: digits.subrange(DIAL_IN_DIGITS as int, n),
                ..initial_signaling()
            }
            &&& n == 2 * DIAL_IN_DIGITS ==> dial(initial_signaling(), digits.take(n)).actions.last()
                == SignalingAction::ConnectWebsocket
        }),
    decreases n,
{
    if n > 0 {
        lemma_dial_prefix(digits, n - 1);
        let d = digits.take(n);
        assert(d.drop_last() =~= digits.take(n - 1));
        assert(d.last() == digits[n - 1]);
        assert(digits[n - 1] < 10);
        let prev = dial(initial_signaling(), digits.take(n - 1)).state;
        if n <= DIAL_IN_DIGITS {
            assert(digits.take(n - 1).push(digits[n - 1]) =~= digits.take(n));
        } else if n == DIAL_IN_DIGITS + 1 {
            assert(prev.dtmf_pw =~= Seq::<u8>::empty());
            assert(Seq::<u8>::empty().push(digits[n - 1]) =~= digits.subrange(DIAL_IN_DIGITS as int, n));
        } else {
            assert(digits.subrange(DIAL_IN_DIGITS as int, n - 1).push(digits[n - 1]) =~= digits.subrange(
                DIAL_IN_DIGITS as int,
                n,
            ));
        }
        let e = dial(initial_signaling(), d);
        assert(e.state =~= dial(initial_signaling(), digits.take(n)).state);
    }
}

/// Twenty digits dialed into a fresh call, none of them `#`, make the
/// conference id of the first ten and the pin of the next ten, and the last
/// one connects to the conference with them.
pub proof fn lemma_dial_in_connects(digits: Seq<u8>)
    requires
        digits.len() == 2 * DIAL_IN_DIGITS,
        all_digits(digits),
    ensures
        ({
            let e = dial(initial_signaling(), digits);
            &&& e.state.dtmf_id == digits.take(DIAL_IN_DIGITS as int)
            &&& e.state.dtmf_pw == digits.skip(DIAL_IN_DIGITS as int)
            &&& e.actions.last() == SignalingAction::ConnectWebsocket
        }),
{
    lemma_dial_prefix(digits, 2 * DIAL_IN_DIGITS);
    assert(digits.take(2 * DIAL_IN_DIGITS) =~= digits);
    assert(digits.subrange(DIAL_IN_DIGITS as int, 2 * DIAL_IN_DIGITS) =~= digits.skip(DIAL_IN_DIGITS as int));
}

} // verus!
