//! Announcements played to the caller: a queue of decoded tracks that the
//! audio source drains in fixed-size frames.
use vstd::prelude::*;

verus! {

/// The announcements the bridge can play.
#[derive(Debug, Clone, Copy, PartialEq, Eq, Structural)]
pub enum Track {
    ConsentStoppedAccept,
    ConsentStoppedReject,
    ConferenceClosed,
    ConferenceTimelimit,
    ConferenceUserlimit,
    ConsentAccept,
    ConsentInfo,
    ConsentInvalid,
    ConsentReject,
    InputInvalid,
    InputTimeout,
    ModeratorKicked,
    ModeratorLoweredHand,
    ModeratorMuted,
    ModeratorPaused,
    ModeratorResumed,
    ModeratorSendWaitingRoom,
    WaitingRoomEntered,
    WelcomeConferenceId,
    WelcomePasscode,
    WelcomeRefused,
    WelcomeTime,
    WelcomeUnavailable,
    WelcomeUsage,
    MicrophonesRestrictionEnabled,
    MicrophonesRestrictionLifted,
    RecordingStoppedAccept,
    RecordingStoppedReject,
    On,
    Off,
}

/// Samples per second of the announcement audio.
pub const SAMPLE_RATE: u64 = 48000;

/// Interleaved channels of the announcement audio.
pub const CHANNELS: u64 = 2;

/// Interleaved samples in one 20 ms frame of announcement audio.
pub const SAMPLES_PER_BUF: u64 = 1920;

/// A track in the play queue, with the position of the next sample to play
/// and whoever waits for the end of its playback.
pub struct PlayingTrack<R> {
    pub track: Track,
    pub data: Vec<i16>,
    pub cursor: usize,
    pub responder: Option<R>,
}

/// Samples of the track that are still to be played.
pub open spec fn remaining<R>(p: PlayingTrack<R>) -> int {
    p.data@.len() - p.cursor
}

pub open spec fn responders_of<R>(p: PlayingTrack<R>) -> Seq<R> {
    match p.responder {
        Some(r) => seq![r],
        None => Seq::empty(),
    }
}

/// What filling `space` samples from a queue gives: the samples written, the
/// queue after it, and the responders of the tracks that finished.
pub struct WriteResult<R> {
    pub out: Seq<i16>,
    pub queue: Seq<PlayingTrack<R>>,
    pub done: Seq<R>,
}

/// Tracks are played front to back. A track that fits the remaining space
/// is played to its end and leaves the queue; one that does not is played
/// as far as the space goes. Nothing more is written once no space is left
/// or the front track has nothing left to play.
pub open spec fn spec_write_samples<R>(q: Seq<PlayingTrack<R>>, space: int) -> WriteResult<R>
    decreases q.len(),
{
    if q.len() == 0 {
        WriteResult { out: Seq::empty(), queue: q, done: Seq::empty() }
    } else {
        let front = q[0];
        let r = remaining(front);
        let amt = if space < r { space } else { r };
        if amt <= 0 {
            WriteResult { out: Seq::empty(), queue: q, done: Seq::empty() }
        } else if amt < r {
            WriteResult {
                out: front.data@.subrange(front.cursor as int, front.cursor + amt),
                queue: q.update(0, PlayingTrack { cursor: (front.cursor + amt) as usize, ..front }),
                done: Seq::empty(),
            }
        } else {
            let rest = spec_write_samples(q.drop_first(), space - amt);
            WriteResult {
                out: front.data@.subrange(front.cursor as int, front.data@.len() as int) + rest.out,
                queue: rest.queue,
                done: responders_of(front) + rest.done,
            }
        }
    }
}

/// What is written never exceeds the space.
pub proof fn lemma_write_fits<R>(q: Seq<PlayingTrack<R>>, space: int)
    requires
        space >= 0,
        forall|i: int| 0 <= i < q.len() ==> (#[trigger] q[i]).cursor <= q[i].data@.len(),
    ensures
        spec_write_samples(q, space).out.len() <= space,
    decreases q.len(),
{
    if q.len() > 0 {
        let r = remaining(q[0]);
        if space >= r && r > 0 {
            assert forall|i: int| 0 <= i < q.drop_first().len() implies (#[trigger] q.drop_first()[i]).cursor
                <= q.drop_first()[i].data@.len() by {
                assert(q.drop_first()[i] == q[i + 1]);
            }
            lemma_write_fits(q.drop_first(), space - r);
        }
    }
}

pub open spec fn queued<R>(q: Seq<PlayingTrack<R>>, track: Track) -> bool {
    exists|i: int| 0 <= i < q.len() && (#[trigger] q[i]).track == track
}

/// No track stands twice in the queue.
pub open spec fn tracks_distinct<R>(q: Seq<PlayingTrack<R>>) -> bool {
    forall|i: int, j: int| 0 <= i < j < q.len() ==> (#[trigger] q[i]).track != (#[trigger] q[j]).track
}

/// Playing keeps the queued tracks distinct: it only advances the front
/// track and drops finished ones.
pub proof fn lemma_write_keeps_distinct<R>(q: Seq<PlayingTrack<R>>, space: int)
    requires
        tracks_distinct(q),
    ensures
        tracks_distinct(spec_write_samples(q, space).queue),
    decreases q.len(),
{
    if q.len() > 0 {
        let r = remaining(q[0]);
        let amt = if space < r { space } else { r };
        if amt > 0 && amt >= r {
            assert(tracks_distinct(q.drop_first())) by {
                assert forall|i: int, j: int| 0 <= i < j < q.drop_first().len() implies (#[trigger] q.drop_first()[i]).track
                    != (#[trigger] q.drop_first()[j]).track by {
                    assert(q[i + 1].track != q[j + 1].track);
                }
            }
            lemma_write_keeps_distinct(q.drop_first(), space - amt);
        } else if amt > 0 {
            let q2 = q.update(0, PlayingTrack { cursor: (q[0].cursor + amt) as usize, ..q[0] });
            assert forall|i: int, j: int| 0 <= i < j < q2.len() implies (#[trigger] q2[i]).track != (#[trigger] q2[j]).track by {
                assert(q[i].track != q[j].track);
            }
        }
    }
}

/// The play queue shared by the controller and the audio source.
pub struct TrackQueue<R> {
    pub queue: Vec<PlayingTrack<R>>,
}

impl<R> TrackQueue<R> {
    /// Every cursor lies within its track.
    pub open spec fn wf(&self) -> bool {
        forall|i: int| 0 <= i < self.queue@.len() ==> (#[trigger] self.queue@[i]).cursor <= self.queue@[i].data@.len()
    }

    pub fn new() -> (r: Self)
        ensures
            r.queue@ == Seq::<PlayingTrack<R>>::empty(),
            r.wf(),
    {
        TrackQueue { queue: Vec::new() }
    }

    /// Queues a track behind the others, unless the same track is already
    /// queued: a track is never queued twice.
    pub fn enqueue_track(&mut self, track: Track, data: Vec<i16>, responder: Option<R>)
        requires
            old(self).wf(),
        ensures
            final(self).wf(),
            queued(old(self).queue@, track) ==> final(self).queue@ == old(self).queue@,
            !queued(old(self).queue@, track) ==> final(self).queue@ == old(self).queue@.push(
                PlayingTrack { track, data, cursor: 0, responder },
            ),
            tracks_distinct(old(self).queue@) ==> tracks_distinct(final(self).queue@),
    {
        let mut i: usize = 0;
        while i < self.queue.len()
            invariant
                i <= self.queue@.len(),
                self.queue@ == old(self).queue@,
                old(self).wf(),
                forall|j: int| 0 <= j < i ==> (#[trigger] self.queue@[j]).track != track,
            decreases self.queue@.len() - i,
        {
            if self.queue[i].track == track {
                return;
            }
            i = i + 1;
        }
        self.queue.push(PlayingTrack { track, data, cursor: 0, responder });
    }

    /// Drops the track that plays now, giving back whoever waited for its
    /// end; an empty queue stays empty.
    pub fn stop_current_track(&mut self) -> (r: Option<R>)
        requires
            old(self).wf(),
        ensures
            final(self).wf(),
            old(self).queue@.len() == 0 ==> r is None && final(self).queue@ == old(self).queue@,
            old(self).queue@.len() > 0 ==> r == old(self).queue@[0].responder && final(self).queue@
                == old(self).queue@.drop_first(),
            tracks_distinct(old(self).queue@) ==> tracks_distinct(final(self).queue@),
    {
        if self.queue.len() == 0 {
            None
        } else {
            let ghost q = self.queue@;
            let front = self.queue.remove(0);
            assert forall|i: int, j: int| 0 <= i < j < self.queue@.len() && tracks_distinct(q) implies (#[trigger] self.queue@[i]).track
                != (#[trigger] self.queue@[j]).track by {
                assert(q[i + 1].track != q[j + 1].track);
            }
            front.responder
        }
    }

    /// Fills `dst` from the front of the queue (see `spec_write_samples`),
    /// leaving what it does not reach as it was, and gives the responders of
    /// the tracks that finished, in order.
    pub fn write_samples(&mut self, dst: &mut Vec<i16>) -> (done: Vec<R>)
        requires
            old(self).wf(),
        ensures
            final(self).wf(),
            ({
                let w = spec_write_samples(old(self).queue@, old(dst)@.len() as int);
                &&& final(dst)@ == w.out + old(dst)@.skip(w.out.len() as int)
                &&& final(self).queue@ == w.queue
                &&& done@ == w.done
            }),
    {
        let ghost q0 = self.queue@;
        let ghost d0 = dst@;
        let ghost w0 = spec_write_samples(q0, d0.len() as int);
        let mut done: Vec<R> = Vec::new();
        let mut pos: usize = 0;
        assert(dst@.take(0) + w0.out =~= w0.out);
        assert(done@ + w0.done =~= w0.done);
        while self.queue.len() > 0
            invariant_except_break
                self.wf(),
                pos <= dst@.len(),
                dst@.len() == d0.len(),
                dst@.skip(pos as int) == d0.skip(pos as int),
                ({
                    let w = spec_write_samples(self.queue@, dst@.len() - pos);
                    &&& w0.out == dst@.take(pos as int) + w.out
                    &&& w0.queue == w.queue
                    &&& w0.done == done@ + w.done
                }),
            ensures
                self.wf(),
                dst@.len() == d0.len(),
                pos <= dst@.len(),
                dst@ == w0.out + d0.skip(w0.out.len() as int),
                self.queue@ == w0.queue,
                done@ == w0.done,
            decreases self.queue@.len() + dst@.len() - pos,
        {
            let ghost q = self.queue@;
            let ghost space = dst@.len() - pos;
            let ghost w = spec_write_samples(q, space);
            let ghost rest = spec_write_samples(q.drop_first(), space - remaining(q[0]));
            assert(self.queue@[0].cursor <= self.queue@[0].data@.len());
            let avail = self.queue[0].data.len() - self.queue[0].cursor;
            let room = dst.len() - pos;
            let amt = if room < avail { room } else { avail };
            if amt == 0 {
                assert(w.out =~= Seq::<i16>::empty());
                assert(dst@.take(pos as int) + Seq::<i16>::empty() =~= dst@.take(pos as int));
                assert(dst@ =~= dst@.take(pos as int) + dst@.skip(pos as int));
                assert(done@ + Seq::<R>::empty() =~= done@);
                break;
            }
            let mut front = self.queue.remove(0);
            let start = front.cursor;
            let ghost pre = dst@;
            assert(start + amt <= front.data.len());
            let mut k: usize = 0;
            while k < amt
                invariant
                    k <= amt,
                    amt <= pre.len() - pos,
                    start + amt <= front.data@.len(),
                    start + amt <= usize::MAX,
                    pos + amt <= usize::MAX,
                    dst@.len() == pre.len(),
                    forall|j: int| 0 <= j < pos ==> #[trigger] dst@[j] == pre[j],
                    forall|j: int| 0 <= j < k ==> #[trigger] dst@[pos + j] == front.data@[start + j],
                    forall|j: int| pos + k <= j < dst@.len() ==> #[trigger] dst@[j] == pre[j],
                decreases amt - k,
            {
                let v = front.data[start + k];
                dst.set(pos + k, v);
                k = k + 1;
            }
            let ghost piece = front.data@.subrange(start as int, start + amt);
            assert(dst@.take(pos + amt) =~= pre.take(pos as int) + piece) by {
                assert forall|j: int| pos <= j < pos + amt implies dst@[j] == piece[j - pos] by {
                    assert(dst@[pos + (j - pos)] == front.data@[start + (j - pos)]);
                }
            }
            assert(dst@.skip(pos + amt) =~= pre.skip(pos + amt));
            assert(pre.skip(pos + amt) =~= d0.skip(pos + amt)) by {
                assert forall|j: int| 0 <= j < pre.len() - (pos + amt) implies #[trigger] pre.skip(pos + amt)[j] == d0.skip(pos + amt)[j] by {
                    assert(pre.skip(pos as int)[j + amt] == d0.skip(pos as int)[j + amt]);
                }
            }
            if amt < avail {
                front.cursor = start + amt;
                self.queue.insert(0, front);
                proof {
                    assert(self.queue@ =~= q.update(0, PlayingTrack { cursor: (q[0].cursor + amt) as usize, ..q[0] }));
                    let w2 = spec_write_samples(self.queue@, dst@.len() - (pos + amt));
                    assert(dst@.len() - (pos + amt) == 0);
                    assert(w2.out =~= Seq::<i16>::empty());
                    assert(dst@.take(pos + amt) + w2.out =~= dst@.take(pos + amt));
                    assert(done@ + w2.done =~= done@);
                    assert(w0.out == pre.take(pos as int) + w.out);
                    assert(pre.take(pos as int) + piece == w0.out);
                }
            } else {
                proof {
                    assert(w.out == piece + rest.out);
                    assert(w0.out == pre.take(pos as int) + (piece + rest.out));
                    assert(pre.take(pos as int) + (piece + rest.out) =~= (pre.take(pos as int) + piece) + rest.out);
                    assert(self.queue@ =~= q.drop_first());
                }
                let ghost done_before = done@;
                match front.responder {
                    Some(r) => {
                        done.push(r);
                    },
                    None => {},
                }
                proof {
                    assert(done@ == done_before + responders_of(q[0]));
                    assert(w0.done == done_before + (responders_of(q[0]) + rest.done));
                    assert(done_before + (responders_of(q[0]) + rest.done) =~= done@ + rest.done);
                }
            }
            pos = pos + amt;
        }
        done
    }
}

/// The audio source that plays the queue: one frame of
/// `SAMPLES_PER_BUF` samples every 20 ms, stamped with a running sample
/// count.
pub struct TrackSource<R> {
    pub data: TrackQueue<R>,
    pub timestamp: u64,
}

impl<R> TrackSource<R> {
    pub fn new() -> (r: Self)
        ensures
            r.data.queue@ == Seq::<PlayingTrack<R>>::empty(),
            r.data.wf(),
            r.timestamp == 0,
    {
        TrackSource { data: TrackQueue::new(), timestamp: 0 }
    }

    /// The next frame: the queue's samples, then silence; the timestamp of
    /// the frame; and the responders of the tracks that finished in it. The
    /// timestamp moves on by one frame, wrapping around at the end of `u64`.
    pub fn next_frame(&mut self) -> (r: (Vec<i16>, u64, Vec<R>))
        requires
            old(self).data.wf(),
        ensures
            final(self).data.wf(),
            ({
                let w = spec_write_samples(old(self).data.queue@, SAMPLES_PER_BUF as int);
                &&& r.0@ == w.out + Seq::new((SAMPLES_PER_BUF - w.out.len()) as nat, |i: int| 0i16)
                &&& r.2@ == w.done
                &&& final(self).data.queue@ == w.queue
            }),
            r.1 == old(self).timestamp,
            final(self).timestamp == old(self).timestamp.wrapping_add(SAMPLES_PER_BUF),
    {
        let mut samples: Vec<i16> = Vec::new();
        let mut i: usize = 0;
        while i < 1920
            invariant
                i <= 1920,
                samples@ == Seq::new(i as nat, |j: int| 0i16),
            decreases 1920 - i,
        {
            samples.push(0);
            i = i + 1;
            assert(samples@ =~= Seq::new(i as nat, |j: int| 0i16));
        }
        let ghost zeros = samples@;
        let done = self.data.write_samples(&mut samples);
        proof {
            let w = spec_write_samples(old(self).data.queue@, SAMPLES_PER_BUF as int);
            lemma_write_fits(old(self).data.queue@, SAMPLES_PER_BUF as int);
            assert(zeros.skip(w.out.len() as int) =~= Seq::new((SAMPLES_PER_BUF - w.out.len()) as nat, |i: int| 0i16));
        }
        let timestamp = self.timestamp;
        self.timestamp = self.timestamp.wrapping_add(SAMPLES_PER_BUF);
        (samples, timestamp, done)
    }
}

} // verus!
