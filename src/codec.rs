//! Telephony codecs: static payload types, clock rates, and the encoders
//! and decoders of the `audio_codec` crate.
use vstd::prelude::*;
use crate::text::{
    after, chars_of, has_prefix, lines, parse_bounded, parse_number, split_lines,
    split_tokens, starts_with, tokens, trim, trimmed, views,
};

verus! {

/// The audio codecs a call can negotiate.
#[derive(Debug, Clone, Copy, PartialEq, Eq, Structural)]
pub enum CodecType {
    PCMU,
    PCMA,
    G722,
    G729,
    Opus,
    TelephoneEvent,
}

/// The codec that a payload type of the m= line selects when no rtpmap
/// names it (RFC 3551 static types, and 111 for Opus).
pub open spec fn codec_of_payload_type(pt: u8) -> Option<CodecType> {
    if pt == 0 {
        Some(CodecType::PCMU)
    } else if pt == 8 {
        Some(CodecType::PCMA)
    } else if pt == 9 {
        Some(CodecType::G722)
    } else if pt == 18 {
        Some(CodecType::G729)
    } else if pt == 111 {
        Some(CodecType::Opus)
    } else {
        None
    }
}

/// The payload type announced for a codec.
pub open spec fn payload_type_of(c: CodecType) -> u8 {
    match c {
        CodecType::PCMU => 0,
        CodecType::PCMA => 8,
        CodecType::G722 => 9,
        CodecType::G729 => 18,
        CodecType::Opus => 111,
        CodecType::TelephoneEvent => 101,
    }
}

/// The RTP clock rate of a codec, in Hz.
pub open spec fn clock_rate_of(c: CodecType) -> u32 {
    match c {
        CodecType::PCMU | CodecType::PCMA | CodecType::G729 | CodecType::TelephoneEvent => 8000,
        CodecType::G722 => 16000,
        CodecType::Opus => 48000,
    }
}

/// Whether a codec is G.711 (one byte per sample each way).
pub open spec fn is_g711(c: CodecType) -> bool {
    c == CodecType::PCMU || c == CodecType::PCMA
}

/// The bytes that `audio_codec` produces for `pcm` with a fresh encoder.
pub uninterp spec fn encoded_of(codec: CodecType, pcm: Seq<i16>) -> Seq<u8>;

/// The samples that `audio_codec` produces for `data` with a fresh decoder.
pub uninterp spec fn decoded_of(codec: CodecType, data: Seq<u8>) -> Seq<i16>;

/// Relies on audio_codec::create_encoder and Encoder::encode: each call
/// builds a fresh encoder, so the bytes depend on codec and samples alone;
/// the G.711 encoders write exactly one byte per sample.
#[verifier::external_body]
fn encode_samples(codec: CodecType, pcm: &[i16]) -> (r: Vec<u8>)
    ensures
        r@ == encoded_of(codec, pcm@),
        is_g711(codec) ==> r@.len() == pcm@.len(),
{
    let c = match codec {
        CodecType::PCMU => audio_codec::CodecType::PCMU,
        CodecType::PCMA => audio_codec::CodecType::PCMA,
        CodecType::G722 => audio_codec::CodecType::G722,
        CodecType::G729 => audio_codec::CodecType::G729,
        CodecType::Opus => audio_codec::CodecType::Opus,
        CodecType::TelephoneEvent => audio_codec::CodecType::TelephoneEvent,
    };
    audio_codec::create_encoder(c).encode(pcm)
}

/// Relies on audio_codec::create_decoder and Decoder::decode: each call
/// builds a fresh decoder, so the samples depend on codec and bytes alone;
/// the G.711 decoders write exactly one sample per byte.
#[verifier::external_body]
fn decode_bytes(codec: CodecType, data: &[u8]) -> (r: Vec<i16>)
    ensures
        r@ == decoded_of(codec, data@),
        is_g711(codec) ==> r@.len() == data@.len(),
{
    let c = match codec {
        CodecType::PCMU => audio_codec::CodecType::PCMU,
        CodecType::PCMA => audio_codec::CodecType::PCMA,
        CodecType::G722 => audio_codec::CodecType::G722,
        CodecType::G729 => audio_codec::CodecType::G729,
        CodecType::Opus => audio_codec::CodecType::Opus,
        CodecType::TelephoneEvent => audio_codec::CodecType::TelephoneEvent,
    };
    audio_codec::create_decoder(c).decode(data)
}

/// Codec helpers: payload types, clock rates, and encode/decode.
pub trait CodecTypeExt: Sized {
    /// The codec a static payload type selects.
    fn from_payload_type(pt: u8) -> Option<Self>;

    /// The payload type announced for this codec.
    fn to_payload_type(&self) -> u8;

    /// The default RTP clock rate of this codec, in Hz.
    fn default_clock_rate(&self) -> u32;

    /// Encode 16-bit PCM samples.
    fn encode(&self, pcm: &[i16]) -> Vec<u8>;

    /// Decode a payload to 16-bit PCM samples.
    fn decode(&self, data: &[u8]) -> Vec<i16>;
}

impl CodecTypeExt for CodecType {
    fn from_payload_type(pt: u8) -> (r: Option<CodecType>)
        ensures
            r == codec_of_payload_type(pt),
    {
        match pt {
            0 => Some(CodecType::PCMU),
            8 => Some(CodecType::PCMA),
            9 => Some(CodecType::G722),
            18 => Some(CodecType::G729),
            111 => Some(CodecType::Opus),
            _ => None,
        }
    }

    fn to_payload_type(&self) -> (r: u8)
        ensures
            r == payload_type_of(*self),
    {
        match self {
            CodecType::PCMU => 0,
            CodecType::PCMA => 8,
            CodecType::G722 => 9,
            CodecType::G729 => 18,
            CodecType::Opus => 111,
            CodecType::TelephoneEvent => 101,
        }
    }

    fn default_clock_rate(&self) -> (r: u32)
        ensures
            r == clock_rate_of(*self),
    {
        match self {
            CodecType::PCMU | CodecType::PCMA | CodecType::G729 | CodecType::TelephoneEvent => 8000,
            CodecType::G722 => 16000,
            CodecType::Opus => 48000,
        }
    }

    fn encode(&self, pcm: &[i16]) -> (r: Vec<u8>)
        ensures
            r@ == encoded_of(*self, pcm@),
            is_g711(*self) ==> r@.len() == pcm@.len(),
    {
        encode_samples(*self, pcm)
    }

    fn decode(&self, data: &[u8]) -> (r: Vec<i16>)
        ensures
            r@ == decoded_of(*self, data@),
            is_g711(*self) ==> r@.len() == data@.len(),
    {
        decode_bytes(*self, data)
    }
}

/// Parameters negotiated from an SDP offer or answer.
#[derive(Debug, Clone, Copy, PartialEq, Eq, Structural)]
pub struct NegotiatedCodec {
    pub codec: CodecType,
    pub payload_type: u8,
    pub clock_rate: u32,
    pub ptime_ms: u32,
    /// Payload type of RFC 4733 telephone events, when the SDP maps one.
    pub telephone_event_pt: Option<u8>,
}

impl NegotiatedCodec {
    /// Samples per frame, `clock_rate * ptime_ms / 1000`.
    pub open spec fn frame_samples_spec(&self) -> int {
        self.clock_rate as int * self.ptime_ms as int / 1000
    }

    /// Samples per frame = clock_rate * ptime_ms / 1000.
    pub fn frame_samples(&self) -> (r: usize)
        requires
            self.frame_samples_spec() <= usize::MAX,
        ensures
            r == self.frame_samples_spec(),
    {
        let a = self.clock_rate as u64;
        let b = self.ptime_ms as u64;
        assert(a * b <= u32::MAX as int * u32::MAX as int) by (nonlinear_arith)
            requires
                a <= u32::MAX,
                b <= u32::MAX,
        ;
        let n = a * b / 1000;
        n as usize
    }
}

impl Default for NegotiatedCodec {
    /// PCMU at 8 kHz with 20 ms frames: what applies until SDP says otherwise.
    fn default() -> (r: NegotiatedCodec)
        ensures
            r == default_negotiated(),
    {
        NegotiatedCodec {
            codec: CodecType::PCMU,
            payload_type: 0,
            clock_rate: 8000,
            ptime_ms: 20,
            telephone_event_pt: None,
        }
    }
}

pub open spec fn default_negotiated() -> NegotiatedCodec {
    NegotiatedCodec {
        codec: CodecType::PCMU,
        payload_type: 0,
        clock_rate: 8000,
        ptime_ms: 20,
        telephone_event_pt: None,
    }
}

/// What a scan of SDP lines has gathered so far.
#[derive(Clone, Copy)]
pub struct SdpScan {
    pub result: NegotiatedCodec,
    pub in_audio: bool,
    pub media_pt: Option<u8>,
}

pub open spec fn ascii_upper(c: char) -> char {
    if 'a' <= c <= 'z' {
        ((c as u8) - 32) as char
    } else {
        c
    }
}

/// `s` equals the upper-case ASCII word `t` when ASCII letters are folded.
pub open spec fn same_ignoring_case(s: Seq<char>, t: Seq<char>) -> bool {
    s.len() == t.len() && forall|i: int| 0 <= i < s.len() ==> ascii_upper(#[trigger] s[i]) == t[i]
}

/// The codec an rtpmap encoding name stands for.
pub open spec fn codec_named(name: Seq<char>) -> Option<CodecType> {
    if same_ignoring_case(name, "PCMU"@) {
        Some(CodecType::PCMU)
    } else if same_ignoring_case(name, "PCMA"@) {
        Some(CodecType::PCMA)
    } else if same_ignoring_case(name, "G722"@) {
        Some(CodecType::G722)
    } else if same_ignoring_case(name, "G729"@) {
        Some(CodecType::G729)
    } else if same_ignoring_case(name, "OPUS"@) {
        Some(CodecType::Opus)
    } else {
        None
    }
}

/// Index of the first `c` in `s`, or `s.len()` when there is none.
pub open spec fn index_of(s: Seq<char>, c: char) -> nat
    decreases s.len(),
{
    if s.len() == 0 {
        0
    } else if s[0] == c {
        0
    } else {
        1 + index_of(s.drop_first(), c)
    }
}

proof fn lemma_index_of(s: Seq<char>, c: char, k: int)
    requires
        0 <= k <= s.len(),
        k < s.len() ==> s[k] == c,
        forall|j: int| 0 <= j < k ==> s[j] != c,
    ensures
        index_of(s, c) == k,
    decreases k,
{
    if k > 0 {
        assert forall|j: int| 0 <= j < k - 1 implies s.drop_first()[j] != c by {
            assert(s.drop_first()[j] == s[j + 1]);
        }
        lemma_index_of(s.drop_first(), c, k - 1);
    }
}

/// The first of `s[from..to]` equal to `c`, or `to`.
fn find_char(s: &Vec<char>, from: usize, to: usize, c: char) -> (r: usize)
    requires
        from <= to <= s@.len(),
    ensures
        from <= r <= to,
        r - from == index_of(s@.subrange(from as int, to as int), c),
{
    let mut i = from;
    while i < to && s[i] != c
        invariant
            from <= i <= to <= s@.len(),
            forall|j: int| from <= j < i ==> s@[j] != c,
        decreases to - i,
    {
        i = i + 1;
    }
    proof {
        let sub = s@.subrange(from as int, to as int);
        assert forall|j: int| 0 <= j < i - from implies sub[j] != c by {
            assert(sub[j] == s@[from + j]);
        }
        lemma_index_of(sub, c, i - from);
    }
    i
}

/// `s[from..to]` equals `t` (an upper-case ASCII word) when letters are folded.
fn matches_ignoring_case(s: &Vec<char>, from: usize, to: usize, t: &str) -> (r: bool)
    requires
        from <= to <= s@.len(),
    ensures
        r == same_ignoring_case(s@.subrange(from as int, to as int), t@),
{
    let n = t.unicode_len();
    if to - from != n {
        return false;
    }
    let ghost sub = s@.subrange(from as int, to as int);
    let mut i: usize = 0;
    while i < n
        invariant
            n == t@.len(),
            to - from == n,
            from <= to <= s@.len(),
            sub == s@.subrange(from as int, to as int),
            i <= n,
            forall|j: int| 0 <= j < i ==> ascii_upper(#[trigger] sub[j]) == t@[j],
        decreases n - i,
    {
        let c = s[from + i];
        let u = if 'a' <= c && c <= 'z' {
            ((c as u8) - 32) as char
        } else {
            c
        };
        assert(sub[i as int] == c);
        if u != t.get_char(i) {
            return false;
        }
        i = i + 1;
    }
    true
}

fn codec_named_in(s: &Vec<char>, from: usize, to: usize) -> (r: Option<CodecType>)
    requires
        from <= to <= s@.len(),
    ensures
        r == codec_named(s@.subrange(from as int, to as int)),
{
    if matches_ignoring_case(s, from, to, "PCMU") {
        Some(CodecType::PCMU)
    } else if matches_ignoring_case(s, from, to, "PCMA") {
        Some(CodecType::PCMA)
    } else if matches_ignoring_case(s, from, to, "G722") {
        Some(CodecType::G722)
    } else if matches_ignoring_case(s, from, to, "G729") {
        Some(CodecType::G729)
    } else if matches_ignoring_case(s, from, to, "OPUS") {
        Some(CodecType::Opus)
    } else {
        None
    }
}

/// The effect of the text after `a=rtpmap:` on the scan: `<pt> <name>[/<rate>[/...]]`.
/// A codec counts only when its payload type is the first one of the m= line;
/// a telephone-event mapping records its payload type.
pub open spec fn rtpmap_step(st: SdpScan, rest: Seq<char>) -> SdpScan {
    let k = index_of(rest, ' ') as int;
    if k >= rest.len() {
        st
    } else {
        match parse_bounded(rest.subrange(0, k), 255) {
            None => st,
            Some(pt) => {
                let enc = rest.subrange(k + 1, rest.len() as int);
                let j = index_of(enc, '/') as int;
                let name = enc.subrange(0, j);
                let st1 = if same_ignoring_case(name, "TELEPHONE-EVENT"@) {
                    SdpScan { result: NegotiatedCodec { telephone_event_pt: Some(pt as u8), ..st.result }, ..st }
                } else {
                    st
                };
                match codec_named(name) {
                    Some(c) => if st1.media_pt == Some(pt as u8) {
                        let rate = if j < enc.len() {
                            let tail = enc.subrange(j + 1, enc.len() as int);
                            parse_bounded(tail.subrange(0, index_of(tail, '/') as int), u32::MAX as nat)
                        } else {
                            None
                        };
                        let r = NegotiatedCodec { codec: c, payload_type: pt as u8, ..st1.result };
                        SdpScan {
                            result: match rate {
                                Some(v) => NegotiatedCodec { clock_rate: v as u32, ..r },
                                None => r,
                            },
                            ..st1
                        }
                    } else {
                        st1
                    },
                    None => st1,
                }
            },
        }
    }
}

/// The effect of the text after `a=ptime:`: a number in 1..=200 sets ptime.
pub open spec fn ptime_step(st: SdpScan, val: Seq<char>) -> SdpScan {
    match parse_bounded(trim(val), u32::MAX as nat) {
        Some(p) => if 0 < p <= 200 {
            SdpScan { result: NegotiatedCodec { ptime_ms: p as u32, ..st.result }, ..st }
        } else {
            st
        },
        None => st,
    }
}

/// The effect of one SDP line on the scan.
pub open spec fn scan_line(st: SdpScan, raw: Seq<char>) -> SdpScan {
    let line = trim(raw);
    let st1 = if starts_with(line, "m=audio"@) {
        let toks = tokens(line);
        let pt = if toks.len() >= 4 {
            parse_bounded(toks[3], 255)
        } else {
            None
        };
        SdpScan {
            in_audio: true,
            media_pt: match pt {
                Some(v) => Some(v as u8),
                None => st.media_pt,
            },
            ..st
        }
    } else if starts_with(line, "m="@) {
        SdpScan { in_audio: false, ..st }
    } else {
        st
    };
    if !st1.in_audio {
        st1
    } else {
        let st2 = if starts_with(line, "a=rtpmap:"@) {
            rtpmap_step(st1, after(line, "a=rtpmap:"@))
        } else {
            st1
        };
        if starts_with(line, "a=ptime:"@) {
            ptime_step(st2, after(line, "a=ptime:"@))
        } else {
            st2
        }
    }
}

/// The scan after reading all of `ls`.
pub open spec fn scan_lines(ls: Seq<Seq<char>>) -> SdpScan
    decreases ls.len(),
{
    if ls.len() == 0 {
        SdpScan { result: default_negotiated(), in_audio: false, media_pt: None }
    } else {
        scan_line(scan_lines(ls.drop_last()), ls.last())
    }
}

/// When no rtpmap settled the m= line's payload type, a static payload
/// type decides the codec and its default clock rate.
pub open spec fn settle(st: SdpScan) -> NegotiatedCodec {
    match st.media_pt {
        Some(m) => if st.result.payload_type != m && codec_of_payload_type(m) is Some {
            let c = codec_of_payload_type(m)->0;
            NegotiatedCodec { codec: c, payload_type: m, clock_rate: clock_rate_of(c), ..st.result }
        } else {
            st.result
        },
        None => st.result,
    }
}

/// The codec parameters that an SDP text negotiates.
pub open spec fn negotiated_of(sdp: Seq<char>) -> NegotiatedCodec {
    settle(scan_lines(lines(sdp)))
}

fn rtpmap_apply(st: &mut SdpScan, line: &Vec<char>, from: usize)
    requires
        from <= line@.len(),
    ensures
        *final(st) == rtpmap_step(*old(st), line@.subrange(from as int, line@.len() as int)),
{
    let ghost rest = line@.subrange(from as int, line@.len() as int);
    let n = line.len();
    let sp = find_char(line, from, n, ' ');
    if sp >= n {
        return;
    }
    assert(line@.subrange(from as int, sp as int) =~= rest.subrange(0, sp - from));
    let pt = match parse_number(line, from, sp, 255) {
        None => return,
        Some(v) => v as u8,
    };
    let ghost enc = rest.subrange(sp - from + 1, rest.len() as int);
    assert(enc =~= line@.subrange(sp + 1, n as int));
    let slash = find_char(line, sp + 1, n, '/');
    assert(line@.subrange(sp + 1, slash as int) =~= enc.subrange(0, slash - sp - 1));
    if matches_ignoring_case(line, sp + 1, slash, "TELEPHONE-EVENT") {
        st.result.telephone_event_pt = Some(pt);
    }
    match codec_named_in(line, sp + 1, slash) {
        Some(c) => {
            if st.media_pt == Some(pt) {
                st.result.codec = c;
                st.result.payload_type = pt;
                if slash < n {
                    let ghost tail = enc.subrange(slash - sp, enc.len() as int);
                    assert(tail =~= line@.subrange(slash + 1, n as int));
                    let end = find_char(line, slash + 1, n, '/');
                    assert(line@.subrange(slash + 1, end as int) =~= tail.subrange(
                        0,
                        end - slash - 1,
                    ));
                    match parse_number(line, slash + 1, end, 0xFFFF_FFFF) {
                        Some(rate) => {
                            st.result.clock_rate = rate;
                        },
                        None => {},
                    }
                }
            }
        },
        None => {},
    }
}

fn scan_apply(st: &mut SdpScan, raw: &Vec<char>)
    ensures
        *final(st) == scan_line(*old(st), raw@),
{
    let line = trimmed(raw);
    let n = line.len();
    if has_prefix(&line, "m=audio") {
        st.in_audio = true;
        let toks = split_tokens(&line);
        if toks.len() >= 4 {
            let t = &toks[3];
            assert(views(toks@)[3] == t@);
            match parse_number(t, 0, t.len(), 255) {
                Some(v) => {
                    st.media_pt = Some(v as u8);
                },
                None => {},
            }
            assert(t@.subrange(0, t@.len() as int) =~= t@);
        }
    } else if has_prefix(&line, "m=") {
        st.in_audio = false;
    }
    if !st.in_audio {
        return;
    }
    if has_prefix(&line, "a=rtpmap:") {
        proof {
            reveal_strlit("a=rtpmap:");
        }
        rtpmap_apply(st, &line, 9);
    }
    if has_prefix(&line, "a=ptime:") {
        proof {
            reveal_strlit("a=ptime:");
        }
        let mut val: Vec<char> = Vec::new();
        let mut i: usize = 8;
        while i < n
            invariant
                8 <= i <= n,
                n == line@.len(),
                val@ == line@.subrange(8, i as int),
            decreases n - i,
        {
            val.push(line[i]);
            assert(val@ =~= line@.subrange(8, i + 1));
            i = i + 1;
        }
        let v = trimmed(&val);
        match parse_number(&v, 0, v.len(), 0xFFFF_FFFF) {
            Some(p) => {
                if 0 < p && p <= 200 {
                    st.result.ptime_ms = p;
                }
            },
            None => {},
        }
        assert(v@.subrange(0, v@.len() as int) =~= v@);
    }
}

/// Parse the negotiated codec from SDP text: the first payload type of the
/// m=audio line, its rtpmap codec and clock rate, the ptime, and the
/// telephone-event payload type.
pub fn parse_negotiated_codec(sdp: &str) -> (r: NegotiatedCodec)
    ensures
        r == negotiated_of(sdp@),
{
    let text = chars_of(sdp);
    let ls = split_lines(&text);
    let mut st = SdpScan { result: NegotiatedCodec::default(), in_audio: false, media_pt: None };
    let mut i: usize = 0;
    while i < ls.len()
        invariant
            i <= ls@.len(),
            st == scan_lines(views(ls@.subrange(0, i as int))),
        decreases ls@.len() - i,
    {
        assert(views(ls@.subrange(0, i + 1)).drop_last() =~= views(ls@.subrange(0, i as int)));
        scan_apply(&mut st, &ls[i]);
        i = i + 1;
    }
    assert(ls@.subrange(0, ls@.len() as int) =~= ls@);
    let mut r = st.result;
    match st.media_pt {
        Some(m) => {
            if r.payload_type != m {
                match CodecType::from_payload_type(m) {
                    Some(c) => {
                        r.codec = c;
                        r.payload_type = m;
                        r.clock_rate = c.default_clock_rate();
                    },
                    None => {},
                }
            }
        },
        None => {},
    }
    r
}

} // verus!
