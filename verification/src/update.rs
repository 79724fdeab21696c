//! Carrying out media changes: the frame rate the conference compositor
//! runs at follows the video streams sent to the caller.
use crate::sdp::{first_with_id, MediaChange, MediaSessionStateV, MediaSessionV, SessionState};
use crate::sip_codec::SdpSendCodecParams;
use vstd::prelude::*;

verus! {

/// The frame rate the session sends H.264 at, if it sends H.264.
pub open spec fn sender_fps(sessions: Seq<MediaSessionV>, id: crate::sdp::MediaSessionId) -> Option<u32> {
    match first_with_id(sessions, id, 0) {
        Some(s) => match s.state {
            MediaSessionStateV::Established(e) => match e.send_codec.codec_params {
                SdpSendCodecParams::H264 { fps, .. } => Some(fps),
                SdpSendCodecParams::NoParams => None,
            },
            MediaSessionStateV::Offered { .. } => None,
        },
        None => None,
    }
}

/// The lowest frame rate among the H.264 senders the changes add, if any.
pub open spec fn spec_target_fps(sessions: Seq<MediaSessionV>, changes: Seq<MediaChange>) -> Option<u32>
    decreases changes.len(),
{
    if changes.len() == 0 {
        None
    } else {
        let prev = spec_target_fps(sessions, changes.drop_last());
        match changes.last() {
            MediaChange::AddSender(id) => match sender_fps(sessions, id) {
                Some(f) => Some(
                    match prev {
                        Some(p) => if f < p {
                            f
                        } else {
                            p
                        },
                        None => f,
                    },
                ),
                None => prev,
            },
            _ => prev,
        }
    }
}

/// Each added sender names an established session.
pub open spec fn senders_established(sessions: Seq<MediaSessionV>, changes: Seq<MediaChange>) -> bool {
    forall|i: int|
        0 <= i < changes.len() && (#[trigger] changes[i]) is AddSender ==> {
            let id = changes[i]->AddSender_0;
            &&& first_with_id(sessions, id, 0) is Some
            &&& first_with_id(sessions, id, 0)->0.state is Established
        }
}

impl<S> SessionState<S> {
    /// The frame rate for the compositor after the changes: the lowest of
    /// the H.264 streams they start sending, or `None` where they start
    /// none.
    pub fn target_fps(&self, changes: &Vec<MediaChange>) -> (r: Option<u32>)
        requires
            senders_established(self.sessions(), changes@),
        ensures
            r == spec_target_fps(self.sessions(), changes@),
    {
        let mut target: Option<u32> = None;
        let mut i: usize = 0;
        assert(changes@.take(0) =~= Seq::<MediaChange>::empty());
        while i < changes.len()
            invariant
                i <= changes@.len(),
                senders_established(self.sessions(), changes@),
                target == spec_target_fps(self.sessions(), changes@.take(i as int)),
            decreases changes@.len() - i,
        {
            assert(changes@.take(i + 1).drop_last() =~= changes@.take(i as int));
            assert(changes@.take(i + 1).last() == changes@[i as int]);
            match changes[i] {
                MediaChange::AddSender(id) => {
                    assert(changes@[i as int] is AddSender);
                    let session = self.media_by_id_checked(id);
                    match &session.state {
                        crate::sdp::MediaSessionState::Established(e) => match e.send_codec.codec_params {
                            SdpSendCodecParams::H264 { fps, .. } => {
                                target = Some(
                                    match target {
                                        Some(p) => if fps < p {
                                            fps
                                        } else {
                                            p
                                        },
                                        None => fps,
                                    },
                                );
                            },
                            SdpSendCodecParams::NoParams => {},
                        },
                        crate::sdp::MediaSessionState::Offered(_) => {},
                    }
                },
                _ => {},
            }
            i = i + 1;
        }
        assert(changes@.take(changes@.len() as int) =~= changes@);
        target
    }

    fn media_by_id_checked(&self, id: crate::sdp::MediaSessionId) -> (r: &crate::sdp::MediaSession<S>)
        requires
            first_with_id(self.sessions(), id, 0) is Some,
        ensures
            first_with_id(self.sessions(), id, 0) == Some(r@),
    {
        proof {
            crate::sdp::lemma_first_with_id_found(self.sessions(), id, 0);
        }
        self.media_by_id(id)
    }
}

/// The compositor never runs faster than any H.264 stream the changes start
/// sending, and its rate is one of theirs.
pub proof fn lemma_target_fps_is_lowest(sessions: Seq<MediaSessionV>, changes: Seq<MediaChange>)
    ensures
        forall|i: int|
            0 <= i < changes.len() && (#[trigger] changes[i]) is AddSender && sender_fps(sessions, changes[i]->AddSender_0)
                is Some ==> spec_target_fps(sessions, changes) is Some && spec_target_fps(sessions, changes)->0
                <= sender_fps(sessions, changes[i]->AddSender_0)->0,
        spec_target_fps(sessions, changes) matches Some(t) ==> exists|i: int|
            0 <= i < changes.len() && (#[trigger] changes[i]) is AddSender && sender_fps(sessions, changes[i]->AddSender_0)
                == Some(t),
    decreases changes.len(),
{
    if changes.len() > 0 {
        let init = changes.drop_last();
        lemma_target_fps_is_lowest(sessions, init);
        assert forall|i: int|
            0 <= i < changes.len() && (#[trigger] changes[i]) is AddSender && sender_fps(sessions, changes[i]->AddSender_0)
                is Some implies spec_target_fps(sessions, changes) is Some && spec_target_fps(sessions, changes)->0
            <= sender_fps(sessions, changes[i]->AddSender_0)->0 by {
            if i < changes.len() - 1 {
                assert(init[i] == changes[i]);
            }
        }
        if spec_target_fps(sessions, changes) is Some {
            let t = spec_target_fps(sessions, changes)->0;
            if spec_target_fps(sessions, init) == Some(t) && !(changes.last() is AddSender && sender_fps(
                sessions,
                changes.last()->AddSender_0,
            ) == Some(t)) {
                let i = choose|i: int|
                    0 <= i < init.len() && (#[trigger] init[i]) is AddSender && sender_fps(sessions, init[i]->AddSender_0)
                        == Some(t);
                assert(changes[i] == init[i]);
            } else {
                assert(changes[changes.len() - 1] == changes.last());
            }
        }
    }
}

} // verus!
