//! SDP rewriting for peers without ICE, and detection of what an offer
//! declares (ICE credentials, SRTP).
use vstd::prelude::*;
use crate::text::{
    lemma_decimal_no_newline, lemma_join_spaces_no_newline, lemma_lines_no_newline,
    lemma_lines_of_sdp_text, lemma_tokens_no_space, no_newline, ends_with_crlf,
    ends_with, has_suffix,
    is_space, token_fold,
    chars_of, contains, decimal, has_prefix, has_substring, lines, push_chars, push_decimal,
    push_joined_spaces, push_str, join_spaces, copy_chars, sdp_text, sdp_text_of, split_lines, split_tokens,
    starts_with, tokens, trim, trimmed, views,
};

verus! {

/// A line that only matters to an ICE peer: `a=ice-*`, `a=candidate:`,
/// `a=end-of-candidates` and `a=rtcp-mux`.
pub open spec fn is_ice_line(l: Seq<char>) -> bool {
    starts_with(l, "a=ice-"@) || starts_with(l, "a=candidate:"@) || starts_with(
        l,
        "a=end-of-candidates"@,
    ) || starts_with(l, "a=rtcp-mux"@)
}

fn ice_line(l: &Vec<char>) -> (r: bool)
    ensures
        r == is_ice_line(l@),
{
    has_prefix(l, "a=ice-") || has_prefix(l, "a=candidate:") || has_prefix(
        l,
        "a=end-of-candidates",
    ) || has_prefix(l, "a=rtcp-mux")
}

/// The first five words of an `o=` line, then the public address.
pub open spec fn origin_with(t: Seq<Seq<char>>, ip: Seq<char>) -> Seq<char> {
    join_spaces(t.subrange(0, 5)) + seq![' '] + ip
}

/// `m=audio <port>` and the words of the media line from the third on.
pub open spec fn media_with(t: Seq<Seq<char>>, port: u16) -> Seq<char> {
    "m=audio "@ + decimal(port as nat) + seq![' '] + join_spaces(t.subrange(2, t.len() as int))
}

/// One answer line for a peer without ICE: addresses replaced by the public
/// address, direction made sendrecv, ICE lines dropped (`None`).
pub open spec fn public_line(l: Seq<char>, ip: Seq<char>, port: u16) -> Option<Seq<char>> {
    if starts_with(l, "c=IN IP4"@) {
        Some("c=IN IP4 "@ + ip)
    } else if starts_with(l, "o="@) {
        if tokens(l).len() >= 6 {
            Some(origin_with(tokens(l), ip))
        } else {
            Some(l)
        }
    } else if starts_with(l, "m=audio"@) {
        if tokens(l).len() >= 3 {
            Some(media_with(tokens(l), port))
        } else {
            Some(l)
        }
    } else if starts_with(l, "a=sendonly"@) {
        Some("a=sendrecv"@)
    } else if is_ice_line(l) {
        None
    } else {
        Some(l)
    }
}

/// One answer line when no public address is known: ICE lines dropped,
/// sendonly made sendrecv.
pub open spec fn stripped_line(l: Seq<char>) -> Option<Seq<char>> {
    if is_ice_line(l) {
        None
    } else if starts_with(l, "a=sendonly"@) {
        Some("a=sendrecv"@)
    } else {
        Some(l)
    }
}

/// The lines that the public-address rewrite keeps, in order.
pub open spec fn public_lines(ls: Seq<Seq<char>>, ip: Seq<char>, port: u16) -> Seq<Seq<char>>
    decreases ls.len(),
{
    if ls.len() == 0 {
        seq![]
    } else {
        let prev = public_lines(ls.drop_last(), ip, port);
        match public_line(ls.last(), ip, port) {
            Some(l) => prev.push(l),
            None => prev,
        }
    }
}

/// The lines that the ICE strip keeps, in order.
pub open spec fn stripped_lines(ls: Seq<Seq<char>>) -> Seq<Seq<char>>
    decreases ls.len(),
{
    if ls.len() == 0 {
        seq![]
    } else {
        let prev = stripped_lines(ls.drop_last());
        match stripped_line(ls.last()) {
            Some(l) => prev.push(l),
            None => prev,
        }
    }
}

fn public_line_of(l: &Vec<char>, ip: &Vec<char>, port: u16) -> (r: Option<Vec<char>>)
    ensures
        r matches Some(v) ==> public_line(l@, ip@, port) == Some(v@),
        r is None ==> public_line(l@, ip@, port) is None,
{
    if has_prefix(l, "c=IN IP4") {
        let mut out: Vec<char> = Vec::new();
        push_str(&mut out, "c=IN IP4 ");
        push_chars(&mut out, ip);
        Some(out)
    } else if has_prefix(l, "o=") {
        let t = split_tokens(l);
        if t.len() >= 6 {
            let mut out: Vec<char> = Vec::new();
            push_joined_spaces(&mut out, &t, 0, 5);
            out.push(' ');
            push_chars(&mut out, ip);
            assert(views(t@.subrange(0, 5)) =~= views(t@).subrange(0, 5));
            assert(out@ =~= origin_with(tokens(l@), ip@));
            Some(out)
        } else {
            Some(copy_chars(l))
        }
    } else if has_prefix(l, "m=audio") {
        let t = split_tokens(l);
        if t.len() >= 3 {
            let mut out: Vec<char> = Vec::new();
            push_str(&mut out, "m=audio ");
            push_decimal(&mut out, port as u32);
            out.push(' ');
            push_joined_spaces(&mut out, &t, 2, t.len());
            assert(views(t@.subrange(2, t@.len() as int)) =~= views(t@).subrange(
                2,
                t@.len() as int,
            ));
            assert(out@ =~= media_with(tokens(l@), port));
            Some(out)
        } else {
            Some(copy_chars(l))
        }
    } else if has_prefix(l, "a=sendonly") {
        let mut out: Vec<char> = Vec::new();
        push_str(&mut out, "a=sendrecv");
        assert(out@ =~= "a=sendrecv"@);
        Some(out)
    } else if ice_line(l) {
        None
    } else {
        Some(copy_chars(l))
    }
}

fn stripped_line_of(l: &Vec<char>) -> (r: Option<Vec<char>>)
    ensures
        r matches Some(v) ==> stripped_line(l@) == Some(v@),
        r is None ==> stripped_line(l@) is None,
{
    if ice_line(l) {
        None
    } else if has_prefix(l, "a=sendonly") {
        let mut out: Vec<char> = Vec::new();
        push_str(&mut out, "a=sendrecv");
        assert(out@ =~= "a=sendrecv"@);
        Some(out)
    } else {
        Some(copy_chars(l))
    }
}

/// Rewrite an SDP answer for a peer without ICE: `c=` and `o=` carry the
/// public IP, `m=audio` the public port, `a=sendonly` becomes `a=sendrecv`,
/// and ICE candidates, credentials and rtcp-mux are removed.
pub fn replace_with_public_address(sdp: &str, public_ip: &str, public_port: u16) -> (r: String)
    ensures
        r@ == sdp_text(public_lines(lines(sdp@), public_ip@, public_port)),
{
    let text = chars_of(sdp);
    let ip = chars_of(public_ip);
    let ls = split_lines(&text);
    let mut out: Vec<Vec<char>> = Vec::new();
    let mut i: usize = 0;
    while i < ls.len()
        invariant
            i <= ls@.len(),
            views(out@) == public_lines(views(ls@.subrange(0, i as int)), ip@, public_port),
        decreases ls@.len() - i,
    {
        assert(views(ls@.subrange(0, i + 1)).drop_last() =~= views(ls@.subrange(0, i as int)));
        match public_line_of(&ls[i], &ip, public_port) {
            Some(l) => {
                let ghost before = views(out@);
                out.push(l);
                assert(views(out@) =~= before.push(l@));
            },
            None => {},
        }
        i = i + 1;
    }
    assert(ls@.subrange(0, ls@.len() as int) =~= ls@);
    sdp_text_of(&out)
}

/// Strip ICE lines from an SDP answer when no public address is known,
/// and make `a=sendonly` into `a=sendrecv`.
pub fn strip_ice_attributes(sdp: &str) -> (r: String)
    ensures
        r@ == sdp_text(stripped_lines(lines(sdp@))),
{
    let text = chars_of(sdp);
    let ls = split_lines(&text);
    let mut out: Vec<Vec<char>> = Vec::new();
    let mut i: usize = 0;
    while i < ls.len()
        invariant
            i <= ls@.len(),
            views(out@) == stripped_lines(views(ls@.subrange(0, i as int))),
        decreases ls@.len() - i,
    {
        assert(views(ls@.subrange(0, i + 1)).drop_last() =~= views(ls@.subrange(0, i as int)));
        match stripped_line_of(&ls[i]) {
            Some(l) => {
                let ghost before = views(out@);
                out.push(l);
                assert(views(out@) =~= before.push(l@));
            },
            None => {},
        }
        i = i + 1;
    }
    assert(ls@.subrange(0, ls@.len() as int) =~= ls@);
    sdp_text_of(&out)
}

/// Index of the first `m=audio` line, or the number of lines.
pub open spec fn first_audio_line(ls: Seq<Seq<char>>) -> nat
    decreases ls.len(),
{
    if ls.len() == 0 {
        0
    } else if starts_with(ls[0], "m=audio"@) {
        0
    } else {
        1 + first_audio_line(ls.drop_first())
    }
}

proof fn lemma_first_audio_line(ls: Seq<Seq<char>>, k: int)
    requires
        0 <= k <= ls.len(),
        k < ls.len() ==> starts_with(ls[k], "m=audio"@),
        forall|j: int| 0 <= j < k ==> !starts_with(#[trigger] ls[j], "m=audio"@),
    ensures
        first_audio_line(ls) == k,
    decreases k,
{
    if k > 0 {
        assert forall|j: int| 0 <= j < k - 1 implies !starts_with(
            #[trigger] ls.drop_first()[j],
            "m=audio"@,
        ) by {
            assert(ls.drop_first()[j] == ls[j + 1]);
        }
        lemma_first_audio_line(ls.drop_first(), k - 1);
    }
}

/// The placeholder ICE credentials given to a peer-connection library
/// that gathers candidates only when the remote offer has them.
pub open spec fn placeholder_ufrag() -> Seq<char> {
    "a=ice-ufrag:fake"@
}

pub open spec fn placeholder_pwd() -> Seq<char> {
    "a=ice-pwd:fakefakefakefakefakefake"@
}

/// The lines with the placeholder credentials right after the first
/// `m=audio` line (unchanged when there is none).
pub open spec fn injected_lines(ls: Seq<Seq<char>>) -> Seq<Seq<char>> {
    let k = first_audio_line(ls) as int;
    if k < ls.len() {
        ls.subrange(0, k + 1) + seq![placeholder_ufrag(), placeholder_pwd()] + ls.subrange(
            k + 1,
            ls.len() as int,
        )
    } else {
        ls
    }
}

/// Add placeholder `a=ice-ufrag`/`a=ice-pwd` lines after the `m=audio`
/// line of an offer from a peer without ICE.
pub fn inject_ice_attributes(sdp: &str) -> (r: String)
    ensures
        r@ == sdp_text(injected_lines(lines(sdp@))),
{
    let text = chars_of(sdp);
    let ls = split_lines(&text);
    let mut k: usize = 0;
    while k < ls.len() && !has_prefix(&ls[k], "m=audio")
        invariant
            k <= ls@.len(),
            forall|j: int| 0 <= j < k ==> !starts_with(#[trigger] views(ls@)[j], "m=audio"@),
        decreases ls@.len() - k,
    {
        k = k + 1;
    }
    proof {
        lemma_first_audio_line(views(ls@), k as int);
    }
    let mut out: Vec<Vec<char>> = Vec::new();
    let mut i: usize = 0;
    while i < ls.len()
        invariant
            i <= ls@.len(),
            k <= ls@.len(),
            k == first_audio_line(views(ls@)),
            views(out@) == (if k < i {
                views(ls@).subrange(0, k + 1) + seq![placeholder_ufrag(), placeholder_pwd()]
                    + views(ls@).subrange(k + 1, i as int)
            } else {
                views(ls@).subrange(0, i as int)
            }),
        decreases ls@.len() - i,
    {
        let ghost before = views(out@);
        out.push(copy_chars(&ls[i]));
        assert(views(out@) =~= before.push(ls@[i as int]@));
        if i == k {
            let ghost mid = views(out@);
            let mut u: Vec<char> = Vec::new();
            push_str(&mut u, "a=ice-ufrag:fake");
            assert(u@ =~= placeholder_ufrag());
            out.push(u);
            let mut w: Vec<char> = Vec::new();
            push_str(&mut w, "a=ice-pwd:fakefakefakefakefakefake");
            assert(w@ =~= placeholder_pwd());
            out.push(w);
            assert(views(out@) =~= mid.push(placeholder_ufrag()).push(placeholder_pwd()));
        }
        proof {
            assert(views(ls@)[i as int] == ls@[i as int]@);
            if k < i {
                assert(views(out@) =~= views(ls@).subrange(0, k + 1) + seq![
                    placeholder_ufrag(),
                    placeholder_pwd(),
                ] + views(ls@).subrange(k + 1, i + 1));
            } else if i == k {
                assert(views(out@) =~= views(ls@).subrange(0, k + 1) + seq![
                    placeholder_ufrag(),
                    placeholder_pwd(),
                ] + views(ls@).subrange(k + 1, i + 1));
            } else {
                assert(views(out@) =~= views(ls@).subrange(0, i + 1));
            }
        }
        i = i + 1;
    }
    assert(views(ls@).subrange(0, ls@.len() as int) =~= views(ls@));
    sdp_text_of(&out)
}

/// The SDP carries ICE credentials (`a=ice-ufrag` and `a=ice-pwd`).
pub open spec fn has_ice(sdp: Seq<char>) -> bool {
    contains(sdp, "a=ice-ufrag"@) && contains(sdp, "a=ice-pwd"@)
}

pub fn has_ice_credentials(sdp: &str) -> (r: bool)
    ensures
        r == has_ice(sdp@),
{
    let text = chars_of(sdp);
    has_substring(&text, "a=ice-ufrag") && has_substring(&text, "a=ice-pwd")
}

/// A line that declares SRTP: an SDES `a=crypto:` attribute, a DTLS
/// `a=fingerprint:` attribute, or a media line whose protocol ends in
/// `SAVP` or `SAVPF` (`RTP/SAVP`, `UDP/TLS/RTP/SAVPF`).
pub open spec fn srtp_line(l: Seq<char>) -> bool {
    let t = trim(l);
    starts_with(t, "a=crypto:"@) || starts_with(t, "a=fingerprint:"@) || (starts_with(t, "m="@)
        && tokens(t).len() >= 3 && (ends_with(tokens(t)[2], "SAVP"@) || ends_with(
        tokens(t)[2],
        "SAVPF"@,
    )))
}

/// The SDP declares SRTP on some line.
pub open spec fn srtp_declared(sdp: Seq<char>) -> bool {
    exists|i: int| 0 <= i < lines(sdp).len() && srtp_line(#[trigger] lines(sdp)[i])
}

fn srtp_line_of(l: &Vec<char>) -> (r: bool)
    ensures
        r == srtp_line(l@),
{
    let t = trimmed(l);
    if has_prefix(&t, "a=crypto:") || has_prefix(&t, "a=fingerprint:") {
        return true;
    }
    if has_prefix(&t, "m=") {
        let w = split_tokens(&t);
        if w.len() >= 3 {
            assert(views(w@)[2] == w@[2]@);
            return has_suffix(&w[2], "SAVP") || has_suffix(&w[2], "SAVPF");
        }
    }
    false
}

/// Whether an SDP declares SRTP (crypto, fingerprint, or a SAVP/SAVPF profile).
pub fn detect_srtp(sdp: &str) -> (r: bool)
    ensures
        r == srtp_declared(sdp@),
{
    let text = chars_of(sdp);
    let ls = split_lines(&text);
    let mut i: usize = 0;
    while i < ls.len()
        invariant
            i <= ls@.len(),
            views(ls@) == lines(sdp@),
            forall|j: int| 0 <= j < i ==> !srtp_line(#[trigger] lines(sdp@)[j]),
        decreases ls@.len() - i,
    {
        if srtp_line_of(&ls[i]) {
            assert(lines(sdp@)[i as int] == ls@[i as int]@);
            return true;
        }
        assert(lines(sdp@)[i as int] == ls@[i as int]@);
        i = i + 1;
    }
    false
}

/// How media is carried on a call.
#[derive(Debug, Clone, Copy, PartialEq, Eq, Structural)]
pub enum TransportMode {
    Rtp,
    Srtp,
}

/// The mode of an inbound session: SRTP exactly when the offer declares it.
pub fn inbound_transport_mode(offer: &str) -> (r: TransportMode)
    ensures
        r == (if srtp_declared(offer@) {
            TransportMode::Srtp
        } else {
            TransportMode::Rtp
        }),
{
    if detect_srtp(offer) {
        TransportMode::Srtp
    } else {
        TransportMode::Rtp
    }
}

/// The mode of an outbound session: SRTP when preferred.
pub fn outbound_transport_mode(prefer_srtp: bool) -> (r: TransportMode)
    ensures
        r == (if prefer_srtp {
            TransportMode::Srtp
        } else {
            TransportMode::Rtp
        }),
{
    if prefer_srtp {
        TransportMode::Srtp
    } else {
        TransportMode::Rtp
    }
}

/// The answer an inbound call sends: unchanged for an ICE peer; for a peer
/// without ICE, rewritten to the public address when one was gathered, and
/// stripped of ICE lines otherwise.
pub open spec fn answer_for(
    answer: Seq<char>,
    remote_has_ice: bool,
    public_addr: Option<(Seq<char>, u16)>,
) -> Seq<char> {
    if remote_has_ice {
        answer
    } else {
        match public_addr {
            Some((ip, port)) => sdp_text(public_lines(lines(answer), ip, port)),
            None => sdp_text(stripped_lines(lines(answer))),
        }
    }
}

pub fn answer_for_peer(answer: &str, remote_has_ice: bool, public_addr: &Option<(String, u16)>) -> (r: String)
    ensures
        r@ == answer_for(
            answer@,
            remote_has_ice,
            match public_addr {
                Some(p) => Some((p.0@, p.1)),
                None => None,
            },
        ),
{
    if remote_has_ice {
        answer.to_owned()
    } else {
        match public_addr {
            Some(p) => replace_with_public_address(answer, p.0.as_str(), p.1),
            None => strip_ice_attributes(answer),
        }
    }
}

proof fn lemma_token_fold_head(s: Seq<char>, n: int)
    requires
        1 <= n <= s.len(),
        !is_space(s[0]),
    ensures
        ({
            let (d, c) = token_fold(s.subrange(0, n));
            (d.len() > 0 && d[0].len() > 0 && d[0][0] == s[0]) || (d.len() == 0 && c.len() > 0
                && c[0] == s[0])
        }),
    decreases n,
{
    let p = s.subrange(0, n);
    assert(p.last() == s[n - 1]);
    if n == 1 {
        assert(p.drop_last() =~= Seq::<char>::empty());
        assert(token_fold(p.drop_last()) == (Seq::<Seq<char>>::empty(), Seq::<char>::empty()));
        let (d, c) = token_fold(p);
        assert(d.len() == 0 && c =~= seq![s[0]]);
    } else {
        lemma_token_fold_head(s, n - 1);
        assert(p.drop_last() =~= s.subrange(0, n - 1));
        let (d0, c0) = token_fold(s.subrange(0, n - 1));
        let (d, c) = token_fold(p);
        if is_space(p.last()) {
            if c0.len() > 0 {
                assert(d == d0.push(c0));
                assert(d[0] == (if d0.len() > 0 { d0[0] } else { c0 }));
            }
        } else {
            assert(c == c0.push(p.last()));
            assert(d == d0);
        }
    }
}

/// A text that begins with a non-space character begins with its first word.
proof fn lemma_first_token(s: Seq<char>)
    requires
        s.len() > 0,
        !is_space(s[0]),
    ensures
        tokens(s).len() > 0,
        tokens(s)[0].len() > 0,
        tokens(s)[0][0] == s[0],
{
    lemma_token_fold_head(s, s.len() as int);
    assert(s.subrange(0, s.len() as int) =~= s);
}

proof fn lemma_join_head(ws: Seq<Seq<char>>)
    requires
        ws.len() > 0,
        ws[0].len() > 0,
    ensures
        join_spaces(ws).len() > 0,
        join_spaces(ws)[0] == ws[0][0],
    decreases ws.len(),
{
    if ws.len() > 1 {
        lemma_join_head(ws.drop_last());
    }
}

proof fn lemma_head_not_ice(o: Seq<char>)
    requires
        o.len() > 0,
        o[0] != 'a',
    ensures
        !is_ice_line(o),
        !starts_with(o, "a=sendonly"@),
{
    reveal_strlit("a=sendonly");
    if starts_with(o, "a=sendonly"@) {
        assert(o.subrange(0, 10)[0] == o[0]);
    }
    reveal_strlit("a=ice-");
    reveal_strlit("a=candidate:");
    reveal_strlit("a=end-of-candidates");
    reveal_strlit("a=rtcp-mux");
    assert(!starts_with(o, "a=ice-"@) && !starts_with(o, "a=candidate:"@)) by {
        if starts_with(o, "a=ice-"@) {
            assert(o.subrange(0, 6)[0] == o[0]);
        }
        if starts_with(o, "a=candidate:"@) {
            assert(o.subrange(0, 12)[0] == o[0]);
        }
    }
    assert(!starts_with(o, "a=end-of-candidates"@) && !starts_with(o, "a=rtcp-mux"@)) by {
        if starts_with(o, "a=end-of-candidates"@) {
            assert(o.subrange(0, 19)[0] == o[0]);
        }
        if starts_with(o, "a=rtcp-mux"@) {
            assert(o.subrange(0, 10)[0] == o[0]);
        }
    }
}

proof fn lemma_sendrecv_not_ice()
    ensures
        !is_ice_line("a=sendrecv"@),
        !starts_with("a=sendrecv"@, "a=sendonly"@),
{
    let o = "a=sendrecv"@;
    reveal_strlit("a=sendonly");
    reveal_strlit("a=sendrecv");
    reveal_strlit("a=ice-");
    reveal_strlit("a=candidate:");
    reveal_strlit("a=end-of-candidates");
    reveal_strlit("a=rtcp-mux");
    assert(o.subrange(0, 6)[2] != "a=ice-"@[2]);
    assert(o.subrange(0, 10)[2] != "a=rtcp-mux"@[2]);
    assert(!starts_with(o, "a=candidate:"@));
    assert(!starts_with(o, "a=end-of-candidates"@));
    assert(o.subrange(0, 10)[6] != "a=sendonly"@[6]);
}

proof fn lemma_public_line_not_ice(l: Seq<char>, ip: Seq<char>, port: u16)
    ensures
        public_line(l, ip, port) matches Some(o) ==> !is_ice_line(o) && !starts_with(o, "a=sendonly"@),
{
    reveal_strlit("c=IN IP4");
    reveal_strlit("c=IN IP4 ");
    reveal_strlit("o=");
    reveal_strlit("m=audio");
    reveal_strlit("m=audio ");
    reveal_strlit("a=sendonly");
    if starts_with(l, "c=IN IP4"@) {
        lemma_head_not_ice("c=IN IP4 "@ + ip);
    } else if starts_with(l, "o="@) {
        assert(l.subrange(0, 2)[0] == l[0]);
        if tokens(l).len() >= 6 {
            lemma_first_token(l);
            let t = tokens(l);
            assert(t.subrange(0, 5)[0] == t[0]);
            lemma_join_head(t.subrange(0, 5));
            lemma_head_not_ice(origin_with(t, ip));
        } else {
            lemma_head_not_ice(l);
        }
    } else if starts_with(l, "m=audio"@) {
        assert(l.subrange(0, 7)[0] == l[0]);
        if tokens(l).len() >= 3 {
            lemma_head_not_ice(media_with(tokens(l), port));
        } else {
            lemma_head_not_ice(l);
        }
    } else if starts_with(l, "a=sendonly"@) {
        lemma_sendrecv_not_ice();
    }
}

/// An answer rewritten for a peer without ICE keeps no ICE candidate,
/// credential, end-of-candidates or rtcp-mux line.
pub proof fn lemma_public_answer_has_no_ice(ls: Seq<Seq<char>>, ip: Seq<char>, port: u16)
    ensures
        forall|k: int|
            0 <= k < public_lines(ls, ip, port).len() ==> !is_ice_line(
                #[trigger] public_lines(ls, ip, port)[k],
            ),
    decreases ls.len(),
{
    if ls.len() > 0 {
        lemma_public_answer_has_no_ice(ls.drop_last(), ip, port);
        lemma_public_line_not_ice(ls.last(), ip, port);
        let prev = public_lines(ls.drop_last(), ip, port);
        let all = public_lines(ls, ip, port);
        assert forall|k: int| 0 <= k < all.len() implies !is_ice_line(#[trigger] all[k]) by {
            if k < prev.len() {
                assert(all[k] == prev[k]);
            }
        }
    }
}

/// In an answer rewritten for a peer without ICE, the connection line holds
/// the public IP, an origin line of six or more fields ends with it, and
/// the audio media line announces the public port.
pub proof fn lemma_public_answer_addresses(l: Seq<char>, ip: Seq<char>, port: u16)
    ensures
        starts_with(l, "c=IN IP4"@) ==> public_line(l, ip, port) == Some("c=IN IP4 "@ + ip),
        !starts_with(l, "c=IN IP4"@) && starts_with(l, "o="@) && tokens(l).len() >= 6
            ==> (public_line(l, ip, port) matches Some(o) && o.len() > ip.len() && o.subrange(
            o.len() - ip.len() - 1,
            o.len() as int,
        ) == seq![' '] + ip),
        !starts_with(l, "c=IN IP4"@) && !starts_with(l, "o="@) && starts_with(l, "m=audio"@)
            && tokens(l).len() >= 3 ==> (public_line(l, ip, port) matches Some(o) && starts_with(
            o,
            "m=audio "@ + decimal(port as nat) + seq![' '],
        )),
{
    if !starts_with(l, "c=IN IP4"@) && starts_with(l, "o="@) && tokens(l).len() >= 6 {
        let o = origin_with(tokens(l), ip);
        assert(o.subrange(o.len() - ip.len() - 1, o.len() as int) =~= seq![' '] + ip);
    }
    if !starts_with(l, "c=IN IP4"@) && !starts_with(l, "o="@) && starts_with(l, "m=audio"@)
        && tokens(l).len() >= 3 {
        let o = media_with(tokens(l), port);
        let p = "m=audio "@ + decimal(port as nat) + seq![' '];
        assert(o.subrange(0, p.len() as int) =~= p);
    }
}

/// An answer stripped for a peer without ICE keeps no ICE line either.
pub proof fn lemma_stripped_answer_has_no_ice(ls: Seq<Seq<char>>)
    ensures
        forall|k: int|
            0 <= k < stripped_lines(ls).len() ==> !is_ice_line(#[trigger] stripped_lines(ls)[k]),
    decreases ls.len(),
{
    if ls.len() > 0 {
        lemma_stripped_answer_has_no_ice(ls.drop_last());
        if !is_ice_line(ls.last()) && starts_with(ls.last(), "a=sendonly"@) {
            lemma_sendrecv_not_ice();
        }
        let prev = stripped_lines(ls.drop_last());
        let all = stripped_lines(ls);
        assert forall|k: int| 0 <= k < all.len() implies !is_ice_line(#[trigger] all[k]) by {
            if k < prev.len() {
                assert(all[k] == prev[k]);
            }
        }
    }
}

proof fn lemma_public_line_no_newline(l: Seq<char>, ip: Seq<char>, port: u16)
    requires
        no_newline(l),
        no_newline(ip),
    ensures
        public_line(l, ip, port) matches Some(o) ==> no_newline(o),
{
    reveal_strlit("c=IN IP4 ");
    reveal_strlit("m=audio ");
    reveal_strlit("a=sendrecv");
    lemma_tokens_no_space(l);
    let t = tokens(l);
    if t.len() >= 6 {
        assert forall|k: int| 0 <= k < t.subrange(0, 5).len() implies no_newline(
            #[trigger] t.subrange(0, 5)[k],
        ) by {
            assert(t.subrange(0, 5)[k] == t[k]);
        }
        lemma_join_spaces_no_newline(t.subrange(0, 5));
        let o = origin_with(t, ip);
        let j = join_spaces(t.subrange(0, 5));
        assert forall|i: int| 0 <= i < o.len() implies o[i] != '\n' by {
            if i < j.len() {
                assert(o[i] == j[i]);
            } else if i > j.len() {
                assert(o[i] == ip[i - j.len() - 1]);
            }
        }
    }
    if t.len() >= 3 {
        assert forall|k: int| 0 <= k < t.subrange(2, t.len() as int).len() implies no_newline(
            #[trigger] t.subrange(2, t.len() as int)[k],
        ) by {
            assert(t.subrange(2, t.len() as int)[k] == t[k + 2]);
        }
        lemma_join_spaces_no_newline(t.subrange(2, t.len() as int));
        lemma_decimal_no_newline(port as nat);
        let a = "m=audio "@ + decimal(port as nat) + seq![' '];
        let j = join_spaces(t.subrange(2, t.len() as int));
        assert(no_newline(a)) by {
            assert forall|i: int| 0 <= i < a.len() implies a[i] != '\n' by {
                if i >= 8 && i < 8 + decimal(port as nat).len() {
                    assert(a[i] == decimal(port as nat)[i - 8]);
                }
            }
        }
        let o = media_with(t, port);
        assert(o =~= a + j);
        assert forall|i: int| 0 <= i < o.len() implies o[i] != '\n' by {
            if i < a.len() {
                assert(o[i] == a[i]);
            } else {
                assert(o[i] == j[i - a.len()]);
            }
        }
    }
    let c = "c=IN IP4 "@ + ip;
    assert forall|i: int| 0 <= i < c.len() implies c[i] != '\n' by {
        if i >= 9 {
            assert(c[i] == ip[i - 9]);
        }
    }
}

proof fn lemma_public_lines_facts(ls: Seq<Seq<char>>, ip: Seq<char>, port: u16)
    requires
        forall|k: int| 0 <= k < ls.len() ==> no_newline(#[trigger] ls[k]),
        no_newline(ip),
    ensures
        forall|k: int| 0 <= k < public_lines(ls, ip, port).len() ==> no_newline(
            #[trigger] public_lines(ls, ip, port)[k],
        ) && !is_ice_line(public_lines(ls, ip, port)[k]) && !starts_with(
            public_lines(ls, ip, port)[k],
            "a=sendonly"@,
        ),
    decreases ls.len(),
{
    if ls.len() > 0 {
        let p = ls.drop_last();
        assert forall|k: int| 0 <= k < p.len() implies no_newline(#[trigger] p[k]) by {
            assert(p[k] == ls[k]);
        }
        lemma_public_lines_facts(p, ip, port);
        assert(no_newline(ls[ls.len() - 1]));
        lemma_public_line_no_newline(ls.last(), ip, port);
        lemma_public_line_not_ice(ls.last(), ip, port);
        let prev = public_lines(p, ip, port);
        let all = public_lines(ls, ip, port);
        assert forall|k: int| 0 <= k < all.len() implies no_newline(#[trigger] all[k]) && !is_ice_line(
            all[k],
        ) && !starts_with(all[k], "a=sendonly"@) by {
            if k < prev.len() {
                assert(all[k] == prev[k]);
            }
        }
    }
}

proof fn lemma_stripped_lines_facts(ls: Seq<Seq<char>>)
    requires
        forall|k: int| 0 <= k < ls.len() ==> no_newline(#[trigger] ls[k]),
    ensures
        forall|k: int| 0 <= k < stripped_lines(ls).len() ==> no_newline(
            #[trigger] stripped_lines(ls)[k],
        ) && !is_ice_line(stripped_lines(ls)[k]) && !starts_with(stripped_lines(ls)[k], "a=sendonly"@),
    decreases ls.len(),
{
    if ls.len() > 0 {
        let p = ls.drop_last();
        assert forall|k: int| 0 <= k < p.len() implies no_newline(#[trigger] p[k]) by {
            assert(p[k] == ls[k]);
        }
        lemma_stripped_lines_facts(p);
        assert(no_newline(ls[ls.len() - 1]));
        reveal_strlit("a=sendrecv");
        if !is_ice_line(ls.last()) && starts_with(ls.last(), "a=sendonly"@) {
            lemma_sendrecv_not_ice();
        }
        let prev = stripped_lines(p);
        let all = stripped_lines(ls);
        assert forall|k: int| 0 <= k < all.len() implies no_newline(#[trigger] all[k]) && !is_ice_line(
            all[k],
        ) && !starts_with(all[k], "a=sendonly"@) by {
            if k < prev.len() {
                assert(all[k] == prev[k]);
            }
        }
    }
}

/// Read back line by line, an answer rewritten for a peer without ICE
/// (public IP without line feeds) is exactly the rewritten lines, in the
/// order of the input (one empty line when nothing is kept), ends with
/// CRLF, and holds no ICE line and no `a=sendonly` line.
pub proof fn lemma_public_answer_text(sdp: Seq<char>, ip: Seq<char>, port: u16)
    requires
        no_newline(ip),
    ensures
        ({
            let out = public_lines(lines(sdp), ip, port);
            let text = sdp_text(out);
            &&& out.len() > 0 ==> lines(text) == out
            &&& ends_with_crlf(text)
            &&& forall|k: int|
                0 <= k < lines(text).len() ==> !is_ice_line(#[trigger] lines(text)[k])
                    && !starts_with(lines(text)[k], "a=sendonly"@)
        }),
{
    lemma_lines_no_newline(sdp);
    lemma_public_lines_facts(lines(sdp), ip, port);
    let out = public_lines(lines(sdp), ip, port);
    lemma_lines_of_sdp_text(out);
    lemma_no_ice_in_empty_line();
    lemma_sdp_text_crlf(out);
}

/// The same for an answer stripped of ICE lines when no public address is known.
pub proof fn lemma_stripped_answer_text(sdp: Seq<char>)
    ensures
        ({
            let out = stripped_lines(lines(sdp));
            let text = sdp_text(out);
            &&& out.len() > 0 ==> lines(text) == out
            &&& ends_with_crlf(text)
            &&& forall|k: int|
                0 <= k < lines(text).len() ==> !is_ice_line(#[trigger] lines(text)[k])
                    && !starts_with(lines(text)[k], "a=sendonly"@)
        }),
{
    lemma_lines_no_newline(sdp);
    lemma_stripped_lines_facts(lines(sdp));
    let out = stripped_lines(lines(sdp));
    lemma_lines_of_sdp_text(out);
    lemma_no_ice_in_empty_line();
    lemma_sdp_text_crlf(out);
}

proof fn lemma_no_ice_in_empty_line()
    ensures
        !is_ice_line(Seq::<char>::empty()),
        !starts_with(Seq::<char>::empty(), "a=sendonly"@),
{
    reveal_strlit("a=ice-");
    reveal_strlit("a=candidate:");
    reveal_strlit("a=end-of-candidates");
    reveal_strlit("a=rtcp-mux");
    reveal_strlit("a=sendonly");
}

proof fn lemma_sdp_text_crlf(ls: Seq<Seq<char>>)
    ensures
        ends_with_crlf(sdp_text(ls)),
{
    if ls.len() > 0 {
        let t = sdp_text(ls);
        assert(t.subrange(t.len() - 2, t.len() as int) =~= seq!['\r', '\n']);
    } else {
        assert(sdp_text(ls).subrange(0, 2) =~= seq!['\r', '\n']);
    }
}

/// The answer an inbound call sends to a peer without ICE (public IP
/// without line feeds), read back line by line, holds no ICE line and no
/// `a=sendonly` line, whether or not a public address was found; with one,
/// its lines are the rewritten offer lines.
pub proof fn lemma_inbound_answer_text(answer: Seq<char>, public_addr: Option<(Seq<char>, u16)>)
    requires
        public_addr matches Some(a) ==> no_newline(a.0),
    ensures
        forall|k: int|
            0 <= k < lines(answer_for(answer, false, public_addr)).len() ==> !is_ice_line(
                #[trigger] lines(answer_for(answer, false, public_addr))[k],
            ) && !starts_with(lines(answer_for(answer, false, public_addr))[k], "a=sendonly"@),
        public_addr matches Some(a) ==> (public_lines(lines(answer), a.0, a.1).len() > 0 ==> lines(
            answer_for(answer, false, public_addr),
        ) == public_lines(lines(answer), a.0, a.1)),
{
    match public_addr {
        Some((ip, port)) => lemma_public_answer_text(answer, ip, port),
        None => lemma_stripped_answer_text(answer),
    }
}

} // verus!
