//! The capture side of the audio bridge: which frame goes out on each
//! tick, its RTP timestamp, and the sizes the capture path works with.
use vstd::prelude::*;
use crate::codec::{is_g711, encoded_of, CodecType, CodecTypeExt};

verus! {

/// One encoded audio frame handed to the media track.
#[derive(Debug, Clone, PartialEq, Eq)]
pub struct CapturedFrame {
    pub rtp_timestamp: u32,
    pub clock_rate: u32,
    pub data: Vec<u8>,
}

/// What a capture tick sends.
#[derive(Debug, Clone, Copy, PartialEq, Eq, Structural)]
pub enum FrameSource {
    /// An all-zero payload: the microphone is muted or too few samples are buffered.
    Silence,
    /// The next buffered samples, resampled and encoded.
    Microphone,
}

/// Silence when muted or when fewer samples are buffered than one frame
/// needs; the microphone otherwise.
pub fn frame_source(mic_muted: bool, available: usize, needed: usize) -> (r: FrameSource)
    ensures
        r == (if mic_muted || available < needed {
            FrameSource::Silence
        } else {
            FrameSource::Microphone
        }),
{
    if mic_muted || available < needed {
        FrameSource::Silence
    } else {
        FrameSource::Microphone
    }
}

/// Device samples that one codec frame needs: `ceil(frame_samples *
/// device_rate / codec_rate)`.
pub open spec fn device_frame_len(frame_samples: u32, device_rate: u32, codec_rate: u32) -> int {
    (frame_samples as int * device_rate as int + codec_rate as int - 1) / codec_rate as int
}

pub fn device_frame_samples(frame_samples: u32, device_rate: u32, codec_rate: u32) -> (r: u64)
    requires
        codec_rate > 0,
    ensures
        r == device_frame_len(frame_samples, device_rate, codec_rate),
        r * codec_rate >= frame_samples as int * device_rate as int,
        r * codec_rate < frame_samples as int * device_rate as int + codec_rate,
        device_rate == codec_rate ==> r == frame_samples,
{
    let a = frame_samples as u64;
    let b = device_rate as u64;
    let c = codec_rate as u64;
    assert(a * b <= 0xFFFF_FFFFu64 as int * 0xFFFF_FFFFu64 as int) by (nonlinear_arith)
        requires
            a <= 0xFFFF_FFFFu64,
            b <= 0xFFFF_FFFFu64,
    ;
    let p = a * b;
    let r = (p + c - 1) / c;
    assert(r * c >= p && r * c < p + c) by (nonlinear_arith)
        requires
            c > 0,
            r == (p + c - 1) as int / c as int,
    ;
    if b == c {
        assert(r == a) by (nonlinear_arith)
            requires
                c > 0,
                r == (a * c + c - 1) / c as int,
        ;
    }
    r
}

/// Samples a ring buffer holds: 200 ms at the device rate, per channel.
pub fn ring_capacity(device_rate: u32, channels: u16) -> (r: u64)
    ensures
        r == (device_rate / 1000) as int * 200 * channels as int,
{
    let per_ms = (device_rate / 1000) as u64;
    assert(per_ms * 200 * (channels as u64) <= 0xFFFF_FFFFu64 as int * 200 * 0xFFFFu64 as int)
        by (nonlinear_arith)
        requires
            per_ms <= 0xFFFF_FFFFu64,
            channels <= 0xFFFFu16,
    ;
    per_ms * 200 * (channels as u64)
}

/// The RTP clock of the capture path: each frame is stamped with the
/// current timestamp, which then advances by one frame (mod 2^32).
pub struct CaptureClock {
    pub next_timestamp: u32,
    pub frame_samples: u32,
    pub clock_rate: u32,
}

/// The RTP timestamp after `ts`: one frame later, wrapping at 2^32.
pub open spec fn following(ts: u32, frame_samples: u32) -> u32 {
    ((ts + frame_samples) % 0x1_0000_0000) as u32
}

/// The timestamp of frame `k` of a capture that started at `start`.
pub open spec fn frame_timestamp(start: u32, frame_samples: u32, k: nat) -> u32
    decreases k,
{
    if k == 0 {
        start
    } else {
        following(frame_timestamp(start, frame_samples, (k - 1) as nat), frame_samples)
    }
}

impl CaptureClock {
    /// A clock at timestamp 0 for frames of `frame_samples` at `clock_rate`.
    pub fn new(frame_samples: u32, clock_rate: u32) -> (r: CaptureClock)
        ensures
            r.next_timestamp == 0,
            r.frame_samples == frame_samples,
            r.clock_rate == clock_rate,
    {
        CaptureClock { next_timestamp: 0, frame_samples, clock_rate }
    }

    /// Stamp `data` as the next frame.
    pub fn emit(&mut self, data: Vec<u8>) -> (r: CapturedFrame)
        ensures
            r.rtp_timestamp == old(self).next_timestamp,
            r.clock_rate == old(self).clock_rate,
            r.data == data,
            final(self).next_timestamp == following(
                old(self).next_timestamp,
                old(self).frame_samples,
            ),
            final(self).frame_samples == old(self).frame_samples,
            final(self).clock_rate == old(self).clock_rate,
    {
        let ts = self.next_timestamp;
        self.next_timestamp = self.next_timestamp.wrapping_add(self.frame_samples);
        CapturedFrame { rtp_timestamp: ts, clock_rate: self.clock_rate, data }
    }

    /// A silence frame: `frame_samples` zero bytes, stamped and counted like
    /// any other frame, so the RTP timeline has no gap.
    pub fn silence(&mut self) -> (r: CapturedFrame)
        ensures
            r.rtp_timestamp == old(self).next_timestamp,
            r.clock_rate == old(self).clock_rate,
            r.data@ == Seq::new(old(self).frame_samples as nat, |i: int| 0u8),
            final(self).next_timestamp == following(
                old(self).next_timestamp,
                old(self).frame_samples,
            ),
            final(self).frame_samples == old(self).frame_samples,
            final(self).clock_rate == old(self).clock_rate,
    {
        let n = self.frame_samples;
        let mut data: Vec<u8> = Vec::new();
        let mut i: u32 = 0;
        while i < n
            invariant
                i <= n,
                data@ == Seq::new(i as nat, |j: int| 0u8),
            decreases n - i,
        {
            data.push(0u8);
            assert(data@ =~= Seq::new((i + 1) as nat, |j: int| 0u8));
            i = i + 1;
        }
        self.emit(data)
    }

    /// Encode one frame of samples with the negotiated codec and stamp it;
    /// a G.711 frame is exactly `frame_samples` bytes.
    pub fn encoded(&mut self, codec: CodecType, pcm: &[i16]) -> (r: CapturedFrame)
        requires
            pcm@.len() == old(self).frame_samples,
        ensures
            r.rtp_timestamp == old(self).next_timestamp,
            r.clock_rate == old(self).clock_rate,
            r.data@ == encoded_of(codec, pcm@),
            is_g711(codec) ==> r.data@.len() == old(self).frame_samples,
            final(self).next_timestamp == following(
                old(self).next_timestamp,
                old(self).frame_samples,
            ),
            final(self).frame_samples == old(self).frame_samples,
            final(self).clock_rate == old(self).clock_rate,
    {
        let data = codec.encode(pcm);
        self.emit(data)
    }

    /// One capture tick. A muted microphone or an underrun gives a silence
    /// frame (`Some`); otherwise `None`, and the caller reads, encodes and
    /// stamps the samples with `encoded`.
    pub fn tick(&mut self, mic_muted: bool, available: usize, needed: usize) -> (r: Option<
        CapturedFrame,
    >)
        ensures
            (mic_muted || available < needed) ==> (r matches Some(f) && f.rtp_timestamp == old(
                self,
            ).next_timestamp && f.clock_rate == old(self).clock_rate && f.data@ == Seq::new(old(self).frame_samples as nat, |i: int| 0u8)
                && final(self).next_timestamp == following(
                old(self).next_timestamp,
                old(self).frame_samples,
            )),
            !(mic_muted || available < needed) ==> (r is None && final(self).next_timestamp == old(
                self,
            ).next_timestamp),
            final(self).frame_samples == old(self).frame_samples,
            final(self).clock_rate == old(self).clock_rate,
    {
        match frame_source(mic_muted, available, needed) {
            FrameSource::Silence => Some(self.silence()),
            FrameSource::Microphone => None,
        }
    }
}

/// Frame `k + 1` of a capture is stamped one frame after frame `k`, modulo
/// 2^32, whatever mix of silence and microphone frames came before.
pub proof fn lemma_timestamps_advance(start: u32, frame_samples: u32, k: nat)
    ensures
        frame_timestamp(start, frame_samples, k + 1) == ((frame_timestamp(
            start,
            frame_samples,
            k,
        ) + frame_samples) % 0x1_0000_0000) as u32,
        frame_timestamp(start, frame_samples, k) == ((start + k * frame_samples) % 0x1_0000_0000) as u32,
    decreases k,
{
    if k > 0 {
        lemma_timestamps_advance(start, frame_samples, (k - 1) as nat);
        let p = frame_timestamp(start, frame_samples, (k - 1) as nat);
        assert(((start + (k - 1) * frame_samples) % 0x1_0000_0000 + frame_samples) % 0x1_0000_0000
            == (start + k * frame_samples) % 0x1_0000_0000) by (nonlinear_arith)
            requires
                k > 0,
        ;
    }
}

} // verus!
