//! The messages of the conference controller's websocket, once parsed,
//! and what they mean for the call.
use crate::signaling::{MicrophoneRestriction, Participant, StreamStatus, WebsocketEvent, WebsocketEventV};
use vstd::prelude::*;

verus! {

/// The controller admitted the bridge into the conference.
#[derive(Debug)]
pub struct JoinSuccess {
    /// The bridge's participant id
    pub id: u128,
    pub participants: Vec<Participant>,
    pub microphone_restriction: MicrophoneRestriction,
    /// The recording and streaming targets, with their status
    pub streaming_targets: Vec<(u128, StreamStatus)>,
    /// Where and with what token to reach the conference's media server
    pub livekit_url: String,
    pub livekit_token: String,
}

#[derive(Debug)]
pub enum ControlPayload {
    JoinSuccess(JoinSuccess),
    Update(Participant),
    Joined(Participant),
    Left(u128),
}

#[derive(Debug)]
pub enum ModerationPayload {
    InWaitingRoom,
    Accepted,
    SessionEnded { issued_by: u128 },
}

#[derive(Debug)]
pub enum RecordingPayload {
    StreamUpdated { target_id: u128, status: StreamStatus },
    Error,
    RecorderError,
}

#[derive(Debug)]
pub enum LiveKitPayload {
    MicrophoneRestrictionsEnabled(Vec<u128>),
    MicrophoneRestrictionsDisabled,
    /// Any other media server event
    Other,
}

/// A message of the controller, by its namespace.
#[derive(Debug)]
pub enum Payload {
    Control(ControlPayload),
    Moderation(ModerationPayload),
    Recording(RecordingPayload),
    LiveKit(LiveKitPayload),
}

/// A message that makes no sense where it came.
#[derive(Debug, Clone, Copy, PartialEq, Eq, Structural)]
pub enum WebsocketError {
    /// A join success outside of joining
    UnexpectedJoinSuccess,
    /// Admission from the waiting room outside of the waiting room
    UnexpectedAccepted,
    /// Unexpected response to Join request
    UnexpectedJoinResponse,
    /// Unexpected response when trying to enter from waiting room
    UnexpectedEnterResponse,
}

/// The event a message stands for: `None` for recording errors, which are
/// ignored; join successes and admissions are errors here.
pub open spec fn spec_payload_to_event(p: Payload) -> Result<Option<WebsocketEventV>, WebsocketError> {
    match p {
        Payload::Control(c) => match c {
            ControlPayload::JoinSuccess(_) => Err(WebsocketError::UnexpectedJoinSuccess),
            ControlPayload::Update(participant) => Ok(Some(WebsocketEventV::Update(participant@))),
            ControlPayload::Joined(participant) => Ok(Some(WebsocketEventV::Joined(participant@))),
            ControlPayload::Left(id) => Ok(Some(WebsocketEventV::Left(id))),
        },
        Payload::Moderation(m) => match m {
            ModerationPayload::InWaitingRoom => Ok(Some(WebsocketEventV::MovedToWaitingRoom)),
            ModerationPayload::Accepted => Err(WebsocketError::UnexpectedAccepted),
            ModerationPayload::SessionEnded { .. } => Ok(Some(WebsocketEventV::SessionEnded)),
        },
        Payload::Recording(r) => match r {
            RecordingPayload::StreamUpdated { target_id, status } => Ok(
                Some(WebsocketEventV::StreamUpdated { target_id, status }),
            ),
            RecordingPayload::Error | RecordingPayload::RecorderError => Ok(None),
        },
        Payload::LiveKit(l) => match l {
            LiveKitPayload::MicrophoneRestrictionsEnabled(list) => Ok(
                Some(WebsocketEventV::MicrophoneRestrictionsEnabled(list@)),
            ),
            LiveKitPayload::MicrophoneRestrictionsDisabled => Ok(Some(WebsocketEventV::MicrophoneRestrictionsDisabled)),
            LiveKitPayload::Other => Ok(Some(WebsocketEventV::OtherLiveKitEvent)),
        },
    }
}

pub open spec fn event_result_view(r: Result<Option<WebsocketEvent>, WebsocketError>) -> Result<
    Option<WebsocketEventV>,
    WebsocketError,
> {
    match r {
        Ok(Some(e)) => Ok(Some(e@)),
        Ok(None) => Ok(None),
        Err(e) => Err(e),
    }
}

/// Microphone restrictions pass through unchanged: an enabling message gives
/// the enabling event with the same unrestricted participants, and only a
/// lifting message gives the lifting event.
pub proof fn lemma_restriction_events(p: Payload)
    ensures
        p matches Payload::LiveKit(LiveKitPayload::MicrophoneRestrictionsEnabled(list)) ==> spec_payload_to_event(p)
            == Ok::<Option<WebsocketEventV>, WebsocketError>(Some(WebsocketEventV::MicrophoneRestrictionsEnabled(list@))),
        (spec_payload_to_event(p) == Ok::<Option<WebsocketEventV>, WebsocketError>(
            Some(WebsocketEventV::MicrophoneRestrictionsDisabled),
        )) <==> (p matches Payload::LiveKit(LiveKitPayload::MicrophoneRestrictionsDisabled)),
{
}

pub fn payload_to_event(payload: Payload) -> (r: Result<Option<WebsocketEvent>, WebsocketError>)
    ensures
        event_result_view(r) == spec_payload_to_event(payload),
        payload matches Payload::LiveKit(LiveKitPayload::MicrophoneRestrictionsEnabled(list)) ==> r matches Ok(
            Some(WebsocketEvent::MicrophoneRestrictionsEnabled(l)),
        ) && l@ == list@,
        (r matches Ok(Some(WebsocketEvent::MicrophoneRestrictionsDisabled))) <==> (payload matches Payload::LiveKit(
            LiveKitPayload::MicrophoneRestrictionsDisabled,
        )),
{
    match payload {
        Payload::Control(c) => match c {
            ControlPayload::JoinSuccess(_) => Err(WebsocketError::UnexpectedJoinSuccess),
            ControlPayload::Update(participant) => Ok(Some(WebsocketEvent::Update(participant))),
            ControlPayload::Joined(participant) => Ok(Some(WebsocketEvent::Joined(participant))),
            ControlPayload::Left(id) => Ok(Some(WebsocketEvent::Left(id))),
        },
        Payload::Moderation(m) => match m {
            ModerationPayload::InWaitingRoom => Ok(Some(WebsocketEvent::MovedToWaitingRoom)),
            ModerationPayload::Accepted => Err(WebsocketError::UnexpectedAccepted),
            ModerationPayload::SessionEnded { .. } => Ok(Some(WebsocketEvent::SessionEnded)),
        },
        Payload::Recording(r) => match r {
            RecordingPayload::StreamUpdated { target_id, status } => Ok(
                Some(WebsocketEvent::StreamUpdated { target_id, status }),
            ),
            RecordingPayload::Error | RecordingPayload::RecorderError => Ok(None),
        },
        Payload::LiveKit(l) => match l {
            LiveKitPayload::MicrophoneRestrictionsEnabled(list) => Ok(
                Some(WebsocketEvent::MicrophoneRestrictionsEnabled(list)),
            ),
            LiveKitPayload::MicrophoneRestrictionsDisabled => Ok(Some(WebsocketEvent::MicrophoneRestrictionsDisabled)),
            LiveKitPayload::Other => Ok(Some(WebsocketEvent::OtherLiveKitEvent)),
        },
    }
}

/// The outcome of a join request.
#[derive(Debug)]
pub enum JoinState {
    Joined(JoinSuccess),
    InWaitingRoom,
}

/// The answer to a join request: admitted, or sent to the waiting room;
/// anything else is an error.
pub fn join_response(payload: Payload) -> (r: Result<JoinState, WebsocketError>)
    ensures
        match payload {
            Payload::Control(ControlPayload::JoinSuccess(js)) => r == Ok::<JoinState, WebsocketError>(
                JoinState::Joined(js),
            ),
            Payload::Moderation(ModerationPayload::InWaitingRoom) => r == Ok::<JoinState, WebsocketError>(
                JoinState::InWaitingRoom,
            ),
            _ => r == Err::<JoinState, WebsocketError>(WebsocketError::UnexpectedJoinResponse),
        },
{
    match payload {
        Payload::Control(ControlPayload::JoinSuccess(js)) => Ok(JoinState::Joined(js)),
        Payload::Moderation(ModerationPayload::InWaitingRoom) => Ok(JoinState::InWaitingRoom),
        _ => Err(WebsocketError::UnexpectedJoinResponse),
    }
}

/// The answer to entering from the waiting room: admission, else an error.
pub fn enter_response(payload: Payload) -> (r: Result<JoinSuccess, WebsocketError>)
    ensures
        match payload {
            Payload::Control(ControlPayload::JoinSuccess(js)) => r == Ok::<JoinSuccess, WebsocketError>(js),
            _ => r == Err::<JoinSuccess, WebsocketError>(WebsocketError::UnexpectedEnterResponse),
        },
{
    match payload {
        Payload::Control(ControlPayload::JoinSuccess(js)) => Ok(js),
        _ => Err(WebsocketError::UnexpectedEnterResponse),
    }
}

/// Whether a message received in the waiting room admits the bridge; all
/// others are passed over while waiting.
pub fn is_admission(payload: &Payload) -> (r: bool)
    ensures
        r == (*payload matches Payload::Moderation(ModerationPayload::Accepted)),
{
    match payload {
        Payload::Moderation(ModerationPayload::Accepted) => true,
        _ => false,
    }
}

} // verus!
