//! Character-level text helpers over `Vec<char>`, each specified by a
//! spec function on `Seq<char>`: line splitting, whitespace, tokens,
//! decimal numbers and prefixes.
use vstd::prelude::*;

verus! {

/// The characters of `s`, in order.
pub fn chars_of(s: &str) -> (r: Vec<char>)
    ensures
        r@ == s@,
{
    let mut v: Vec<char> = Vec::new();
    for c in it: s.chars()
        invariant
            it.seq() == s@,
            v@.len() == it.index(),
            v@ == s@.subrange(0, v@.len() as int),
    {
        v.push(c);
        assert(v@ =~= s@.subrange(0, v@.len() as int));
    }
    assert(v@ =~= s@);
    v
}

/// Relies on FromIterator<&char> for String: collecting characters yields a
/// string of exactly those characters, in order.
#[verifier::external_body]
pub fn string_of(v: &Vec<char>) -> (r: String)
    ensures
        r@ == v@,
{
    v.iter().collect()
}

/// Unicode White_Space, the set `char::is_whitespace` tests.
pub open spec fn is_space(c: char) -> bool {
    let u = c as u32;
    (9 <= u <= 13) || u == 32 || u == 0x85 || u == 0xA0 || u == 0x1680 || (0x2000 <= u <= 0x200A)
        || u == 0x2028 || u == 0x2029 || u == 0x202F || u == 0x205F || u == 0x3000
}

pub fn space(c: char) -> (r: bool)
    ensures
        r == is_space(c),
{
    let u = c as u32;
    (9 <= u && u <= 13) || u == 32 || u == 0x85 || u == 0xA0 || u == 0x1680 || (0x2000 <= u && u
        <= 0x200A) || u == 0x2028 || u == 0x2029 || u == 0x202F || u == 0x205F || u == 0x3000
}

/// `s` begins with `p`.
pub open spec fn starts_with(s: Seq<char>, p: Seq<char>) -> bool {
    p.len() <= s.len() && s.subrange(0, p.len() as int) == p
}

/// What follows the prefix `p` in `s` (meaningful when `starts_with(s, p)`).
pub open spec fn after(s: Seq<char>, p: Seq<char>) -> Seq<char> {
    s.subrange(p.len() as int, s.len() as int)
}

/// `s` ends with `p`.
pub open spec fn ends_with(s: Seq<char>, p: Seq<char>) -> bool {
    p.len() <= s.len() && s.subrange(s.len() - p.len(), s.len() as int) == p
}

pub fn has_suffix(s: &Vec<char>, p: &str) -> (r: bool)
    ensures
        r == ends_with(s@, p@),
{
    let n = p.unicode_len();
    if n > s.len() {
        return false;
    }
    let off = s.len() - n;
    let mut i: usize = 0;
    while i < n
        invariant
            n == p@.len(),
            off + n == s.len(),
            i <= n,
            forall|j: int| 0 <= j < i ==> s@[off + j] == p@[j],
        decreases n - i,
    {
        if s[off + i] != p.get_char(i) {
            assert(s@.subrange(off as int, s@.len() as int)[i as int] != p@[i as int]);
            return false;
        }
        i = i + 1;
    }
    assert(s@.subrange(off as int, s@.len() as int) =~= p@);
    true
}

/// `s` holds `p` somewhere.
pub open spec fn contains(s: Seq<char>, p: Seq<char>) -> bool {
    exists|i: int| 0 <= i && i + p.len() <= s.len() && #[trigger] s.subrange(i, i + p.len()) == p
}

pub fn has_prefix(s: &Vec<char>, p: &str) -> (r: bool)
    ensures
        r == starts_with(s@, p@),
{
    let n = p.unicode_len();
    if n > s.len() {
        return false;
    }
    let mut i: usize = 0;
    while i < n
        invariant
            n == p@.len(),
            n <= s@.len(),
            i <= n,
            s@.subrange(0, i as int) == p@.subrange(0, i as int),
        decreases n - i,
    {
        if s[i] != p.get_char(i) {
            assert(s@.subrange(0, n as int)[i as int] != p@[i as int]);
            return false;
        }
        assert(s@.subrange(0, i + 1) =~= s@.subrange(0, i as int).push(s@[i as int]));
        assert(p@.subrange(0, i + 1) =~= p@.subrange(0, i as int).push(p@[i as int]));
        i = i + 1;
    }
    assert(p@.subrange(0, n as int) =~= p@);
    true
}

pub fn has_substring(s: &Vec<char>, p: &str) -> (r: bool)
    ensures
        r == contains(s@, p@),
{
    let n = p.unicode_len();
    if n > s.len() {
        return false;
    }
    if n == 0 {
        assert(s@.subrange(0, 0 + p@.len() as int) =~= p@);
        return true;
    }
    let last = s.len() - n;
    let mut start: usize = 0;
    while start <= last
        invariant
            n == p@.len(),
            n <= s@.len(),
            n > 0,
            last + n == s.len(),
            start <= last + 1,
            forall|j: int| 0 <= j < start ==> #[trigger] s@.subrange(j, j + n) != p@,
        decreases last + 1 - start,
    {
        let mut i: usize = 0;
        let mut same = true;
        while i < n
            invariant
                n == p@.len(),
                start + n <= s.len(),
                i <= n,
                same ==> s@.subrange(start as int, start + i) == p@.subrange(0, i as int),
                !same ==> s@.subrange(start as int, start + n) != p@,
            decreases n - i,
        {
            if same {
                if s[start + i] != p.get_char(i) {
                    assert(s@.subrange(start as int, start + n)[i as int] != p@[i as int]);
                    same = false;
                } else {
                    assert(s@.subrange(start as int, start + i + 1) =~= s@.subrange(
                        start as int,
                        start + i,
                    ).push(s@[start + i]));
                    assert(p@.subrange(0, i + 1) =~= p@.subrange(0, i as int).push(p@[i as int]));
                }
            }
            i = i + 1;
        }
        if same {
            assert(p@.subrange(0, n as int) =~= p@);
            assert(s@.subrange(start as int, start + p@.len()) == p@);
            return true;
        }
        start = start + 1;
    }
    assert forall|j: int| 0 <= j && j + p@.len() <= s@.len() implies #[trigger] s@.subrange(
        j,
        j + p@.len(),
    ) != p@ by {}
    false
}

/// `s` without its leading whitespace.
pub open spec fn trim_start(s: Seq<char>) -> Seq<char>
    decreases s.len(),
{
    if s.len() > 0 && is_space(s[0]) {
        trim_start(s.drop_first())
    } else {
        s
    }
}

/// `s` without its trailing whitespace.
pub open spec fn trim_end(s: Seq<char>) -> Seq<char>
    decreases s.len(),
{
    if s.len() > 0 && is_space(s.last()) {
        trim_end(s.drop_last())
    } else {
        s
    }
}

/// `s` without leading and trailing whitespace, as `str::trim`.
pub open spec fn trim(s: Seq<char>) -> Seq<char> {
    trim_end(trim_start(s))
}

pub fn trimmed(s: &Vec<char>) -> (r: Vec<char>)
    ensures
        r@ == trim(s@),
{
    let n = s.len();
    let mut a: usize = 0;
    assert(s@.subrange(0, n as int) =~= s@);
    while a < n && space(s[a])
        invariant
            n == s@.len(),
            a <= n,
            trim_start(s@) == trim_start(s@.subrange(a as int, n as int)),
        decreases n - a,
    {
        assert(s@.subrange(a + 1, n as int) =~= s@.subrange(a as int, n as int).drop_first());
        a = a + 1;
    }
    assert(trim_start(s@.subrange(a as int, n as int)) == s@.subrange(a as int, n as int));
    let mut b: usize = n;
    while b > a && space(s[b - 1])
        invariant
            n == s@.len(),
            a <= b <= n,
            trim(s@) == trim_end(s@.subrange(a as int, b as int)),
        decreases b,
    {
        assert(s@.subrange(a as int, b - 1) =~= s@.subrange(a as int, b as int).drop_last());
        b = b - 1;
    }
    let mut r: Vec<char> = Vec::new();
    let mut i: usize = a;
    while i < b
        invariant
            a <= i <= b <= n,
            n == s@.len(),
            r@ == s@.subrange(a as int, i as int),
        decreases b - i,
    {
        r.push(s[i]);
        assert(r@ =~= s@.subrange(a as int, i + 1));
        i = i + 1;
    }
    r
}

/// The lines of `s` as `str::lines` gives them: split at `\n`, a `\r` just
/// before a `\n` dropped, and no empty line after a final `\n`.
pub open spec fn lines(s: Seq<char>) -> Seq<Seq<char>> {
    let (done, cur) = line_fold(s);
    if cur.len() > 0 {
        done.push(cur)
    } else {
        done
    }
}

/// Lines completed so far, and the line being read, after reading `s`.
pub open spec fn line_fold(s: Seq<char>) -> (Seq<Seq<char>>, Seq<char>)
    decreases s.len(),
{
    if s.len() == 0 {
        (seq![], seq![])
    } else {
        let (done, cur) = line_fold(s.drop_last());
        if s.last() == '\n' {
            (done.push(strip_cr(cur)), seq![])
        } else {
            (done, cur.push(s.last()))
        }
    }
}

/// `s` without one final `\r`.
pub open spec fn strip_cr(s: Seq<char>) -> Seq<char> {
    if s.len() > 0 && s.last() == '\r' {
        s.drop_last()
    } else {
        s
    }
}

pub open spec fn views(v: Seq<Vec<char>>) -> Seq<Seq<char>> {
    v.map_values(|x: Vec<char>| x@)
}

pub fn split_lines(s: &Vec<char>) -> (r: Vec<Vec<char>>)
    ensures
        views(r@) == lines(s@),
{
    let mut done: Vec<Vec<char>> = Vec::new();
    let mut cur: Vec<char> = Vec::new();
    let mut i: usize = 0;
    while i < s.len()
        invariant
            i <= s@.len(),
            line_fold(s@.subrange(0, i as int)) == (views(done@), cur@),
        decreases s@.len() - i,
    {
        assert(s@.subrange(0, i + 1).drop_last() =~= s@.subrange(0, i as int));
        if s[i] == '\n' {
            let ghost d0 = views(done@);
            let ghost c0 = cur@;
            let mut line = cur;
            if line.len() > 0 && line[line.len() - 1] == '\r' {
                line.pop();
            }
            assert(line@ =~= strip_cr(c0));
            done.push(line);
            cur = Vec::new();
            assert(views(done@) =~= d0.push(strip_cr(c0)));
            assert(cur@ =~= Seq::<char>::empty());
        } else {
            cur.push(s[i]);
        }
        i = i + 1;
    }
    assert(s@.subrange(0, s@.len() as int) =~= s@);
    if cur.len() > 0 {
        done.push(cur);
    }
    assert(views(done@) =~= lines(s@));
    done
}

/// The whitespace-separated words of `s`, as `str::split_whitespace`.
pub open spec fn tokens(s: Seq<char>) -> Seq<Seq<char>> {
    let (done, cur) = token_fold(s);
    if cur.len() > 0 {
        done.push(cur)
    } else {
        done
    }
}

/// Words completed so far, and the word being read, after reading `s`.
pub open spec fn token_fold(s: Seq<char>) -> (Seq<Seq<char>>, Seq<char>)
    decreases s.len(),
{
    if s.len() == 0 {
        (seq![], seq![])
    } else {
        let (done, cur) = token_fold(s.drop_last());
        if is_space(s.last()) {
            if cur.len() > 0 {
                (done.push(cur), seq![])
            } else {
                (done, cur)
            }
        } else {
            (done, cur.push(s.last()))
        }
    }
}

pub fn split_tokens(s: &Vec<char>) -> (r: Vec<Vec<char>>)
    ensures
        views(r@) == tokens(s@),
{
    let mut done: Vec<Vec<char>> = Vec::new();
    let mut cur: Vec<char> = Vec::new();
    let mut i: usize = 0;
    while i < s.len()
        invariant
            i <= s@.len(),
            token_fold(s@.subrange(0, i as int)) == (views(done@), cur@),
        decreases s@.len() - i,
    {
        assert(s@.subrange(0, i + 1).drop_last() =~= s@.subrange(0, i as int));
        if space(s[i]) {
            if cur.len() > 0 {
                let ghost d0 = views(done@);
                let ghost c0 = cur@;
                done.push(cur);
                cur = Vec::new();
                assert(views(done@) =~= d0.push(c0));
                assert(cur@ =~= Seq::<char>::empty());
            }
        } else {
            cur.push(s[i]);
        }
        i = i + 1;
    }
    assert(s@.subrange(0, s@.len() as int) =~= s@);
    if cur.len() > 0 {
        done.push(cur);
    }
    assert(views(done@) =~= tokens(s@));
    done
}

pub open spec fn is_digit(c: char) -> bool {
    '0' <= c <= '9'
}

/// The value of a string of decimal digits.
pub open spec fn digits_value(s: Seq<char>) -> nat
    decreases s.len(),
{
    if s.len() == 0 {
        0
    } else {
        digits_value(s.drop_last()) * 10 + (s.last() as nat - '0' as nat) as nat
    }
}

/// An unsigned decimal as `str::parse` reads one: an optional `+`, then at
/// least one ASCII digit and nothing else.
pub open spec fn parse_unsigned(s: Seq<char>) -> Option<nat> {
    if all_digits(unsigned_body(s)) {
        Some(digits_value(unsigned_body(s)))
    } else {
        None
    }
}

/// `s` without one leading `+`.
pub open spec fn unsigned_body(s: Seq<char>) -> Seq<char> {
    if s.len() > 0 && s[0] == '+' {
        s.drop_first()
    } else {
        s
    }
}

/// `d` is a non-empty string of ASCII digits.
pub open spec fn all_digits(d: Seq<char>) -> bool {
    d.len() > 0 && forall|i: int| 0 <= i < d.len() ==> is_digit(#[trigger] d[i])
}

/// `s` read as an unsigned number no larger than `max`.
pub open spec fn parse_bounded(s: Seq<char>, max: nat) -> Option<nat> {
    match parse_unsigned(s) {
        Some(v) => if v <= max {
            Some(v)
        } else {
            None
        },
        None => None,
    }
}

proof fn lemma_digits_monotone(s: Seq<char>)
    requires
        forall|i: int| 0 <= i < s.len() ==> is_digit(#[trigger] s[i]),
    ensures
        s.len() > 0 ==> digits_value(s) >= digits_value(s.drop_last()),
{
}

/// Reads `s[from..to]` as an unsigned number no larger than `max`.
pub fn parse_number(s: &Vec<char>, from: usize, to: usize, max: u32) -> (r: Option<u32>)
    requires
        from <= to <= s@.len(),
    ensures
        r matches Some(v) ==> parse_bounded(s@.subrange(from as int, to as int), max as nat) == Some(
            v as nat,
        ),
        r is None ==> parse_bounded(s@.subrange(from as int, to as int), max as nat) is None,
{
    let ghost whole = s@.subrange(from as int, to as int);
    let mut a = from;
    if a < to && s[a] == '+' {
        a = a + 1;
    }
    let ghost d = s@.subrange(a as int, to as int);
    assert(d =~= unsigned_body(whole));
    if a == to {
        return None;
    }
    let mut v: u32 = 0;
    let mut i = a;
    while i < to
        invariant
            from <= a <= i <= to <= s@.len(),
            d == s@.subrange(a as int, to as int),
            whole == s@.subrange(from as int, to as int),
            d == unsigned_body(whole),
            forall|k: int| a <= k < i ==> is_digit(#[trigger] s@[k]),
            v as nat == digits_value(s@.subrange(a as int, i as int)),
            v <= max,
        decreases to - i,
    {
        let c = s[i];
        if !('0' <= c && c <= '9') {
            assert(d[i - a] == s@[i as int]);
            assert(!is_digit(d[i - a]));
            assert(!all_digits(d));
            return None;
        }
        let digit = (c as u32) - ('0' as u32);
        assert(s@.subrange(a as int, i + 1).drop_last() =~= s@.subrange(a as int, i as int));
        if digit > max || v > (max - digit) / 10 {
            proof {
                assert(v * 10 + digit > max) by (nonlinear_arith)
                    requires
                        digit > max || v > (max - digit) / 10,
                        digit <= 9,
                ;
                let pre = s@.subrange(a as int, i + 1);
                assert(digits_value(pre) == v * 10 + digit);
                if all_digits(d) {
                    assert forall|m: int| a <= m < to implies is_digit(#[trigger] s@[m]) by {
                        assert(d[m - a] == s@[m]);
                    }
                    lemma_prefix_grows(s@, a as int, i + 1, to as int);
                    assert(d =~= s@.subrange(a as int, to as int));
                    assert(digits_value(d) > max);
                }
                assert(parse_bounded(whole, max as nat) is None);
            }
            return None;
        }
        assert(v * 10 + digit <= max) by (nonlinear_arith)
            requires
                digit <= max,
                v <= (max - digit) / 10,
        ;
        v = v * 10 + digit;
        i = i + 1;
    }
    assert(d =~= s@.subrange(a as int, i as int));
    Some(v)
}

proof fn lemma_prefix_grows(s: Seq<char>, a: int, j: int, k: int)
    requires
        0 <= a <= j <= k <= s.len(),
        forall|m: int| a <= m < k ==> is_digit(#[trigger] s[m]),
    ensures
        digits_value(s.subrange(a, k)) >= digits_value(s.subrange(a, j)),
    decreases k - j,
{
    if k > j {
        lemma_prefix_grows(s, a, j, k - 1);
        assert(s.subrange(a, k).drop_last() =~= s.subrange(a, k - 1));
    }
}

/// The decimal digits of `n`, without leading zeros.
pub open spec fn decimal(n: nat) -> Seq<char>
    decreases n,
{
    if n < 10 {
        seq![digit_char(n)]
    } else {
        decimal(n / 10).push(digit_char(n % 10))
    }
}

pub open spec fn digit_char(d: nat) -> char {
    ((d + '0' as nat) as u32) as char
}

/// Appends the decimal digits of `n` to `out`.
pub fn push_decimal(out: &mut Vec<char>, n: u32)
    ensures
        final(out)@ == old(out)@ + decimal(n as nat),
    decreases n,
{
    if n >= 10 {
        push_decimal(out, n / 10);
    }
    let d = (n % 10) as u8;
    let c = (48u8 + d) as char;
    assert(c == digit_char((n % 10) as nat));
    out.push(c);
}

/// Appends the characters of `p` to `out`.
pub fn push_str(out: &mut Vec<char>, p: &str)
    ensures
        final(out)@ == old(out)@ + p@,
{
    let n = p.unicode_len();
    let ghost o = out@;
    let mut i: usize = 0;
    while i < n
        invariant
            n == p@.len(),
            i <= n,
            out@ == o + p@.subrange(0, i as int),
        decreases n - i,
    {
        out.push(p.get_char(i));
        assert(p@.subrange(0, i + 1) =~= p@.subrange(0, i as int).push(p@[i as int]));
        i = i + 1;
    }
    assert(p@.subrange(0, n as int) =~= p@);
}

/// Appends the characters of `v` to `out`.
pub fn push_chars(out: &mut Vec<char>, v: &Vec<char>)
    ensures
        final(out)@ == old(out)@ + v@,
{
    let ghost o = out@;
    let mut i: usize = 0;
    while i < v.len()
        invariant
            i <= v@.len(),
            out@ == o + v@.subrange(0, i as int),
        decreases v@.len() - i,
    {
        out.push(v[i]);
        assert(v@.subrange(0, i + 1) =~= v@.subrange(0, i as int).push(v@[i as int]));
        i = i + 1;
    }
    assert(v@.subrange(0, v@.len() as int) =~= v@);
}

/// Lines joined with CRLF, each line followed by one.
pub open spec fn join_crlf(ls: Seq<Seq<char>>) -> Seq<char>
    decreases ls.len(),
{
    if ls.len() == 0 {
        seq![]
    } else {
        join_crlf(ls.drop_last()) + ls.last() + seq!['\r', '\n']
    }
}

pub fn joined_crlf(ls: &Vec<Vec<char>>) -> (r: Vec<char>)
    ensures
        r@ == join_crlf(views(ls@)),
{
    let mut out: Vec<char> = Vec::new();
    let mut i: usize = 0;
    while i < ls.len()
        invariant
            i <= ls@.len(),
            out@ == join_crlf(views(ls@.subrange(0, i as int))),
        decreases ls@.len() - i,
    {
        assert(views(ls@.subrange(0, i + 1)).drop_last() =~= views(ls@.subrange(0, i as int)));
        push_chars(&mut out, &ls[i]);
        out.push('\r');
        out.push('\n');
        assert(out@ =~= join_crlf(views(ls@.subrange(0, i as int))) + ls@[i as int]@ + seq![
            '\r',
            '\n',
        ]);
        i = i + 1;
    }
    assert(ls@.subrange(0, ls@.len() as int) =~= ls@);
    out
}

/// SDP text from lines: each line followed by CRLF, and a lone CRLF when
/// there are no lines.
pub open spec fn sdp_text(ls: Seq<Seq<char>>) -> Seq<char> {
    if ls.len() == 0 {
        seq!['\r', '\n']
    } else {
        join_crlf(ls)
    }
}

pub fn sdp_text_of(ls: &Vec<Vec<char>>) -> (r: String)
    ensures
        r@ == sdp_text(views(ls@)),
{
    if ls.len() == 0 {
        let v: Vec<char> = vec!['\r', '\n'];
        assert(v@ =~= seq!['\r', '\n']);
        string_of(&v)
    } else {
        let v = joined_crlf(ls);
        string_of(&v)
    }
}

/// Words joined by single spaces.
pub open spec fn join_spaces(ws: Seq<Seq<char>>) -> Seq<char>
    decreases ws.len(),
{
    if ws.len() == 0 {
        seq![]
    } else if ws.len() == 1 {
        ws[0]
    } else {
        join_spaces(ws.drop_last()) + seq![' '] + ws.last()
    }
}

pub fn push_joined_spaces(out: &mut Vec<char>, ws: &Vec<Vec<char>>, from: usize, to: usize)
    requires
        from <= to <= ws@.len(),
    ensures
        final(out)@ == old(out)@ + join_spaces(views(ws@.subrange(from as int, to as int))),
{
    let ghost o = out@;
    let mut i = from;
    while i < to
        invariant
            from <= i <= to <= ws@.len(),
            out@ == o + join_spaces(views(ws@.subrange(from as int, i as int))),
        decreases to - i,
    {
        let ghost before = views(ws@.subrange(from as int, i as int));
        assert(views(ws@.subrange(from as int, i + 1)).drop_last() =~= before);
        if i > from {
            out.push(' ');
        }
        push_chars(out, &ws[i]);
        proof {
            let now = views(ws@.subrange(from as int, i + 1));
            assert(now.last() == ws@[i as int]@);
            if i == from {
                assert(now.len() == 1);
                assert(out@ =~= o + join_spaces(now));
            } else {
                assert(out@ =~= o + join_spaces(now));
            }
        }
        i = i + 1;
    }
}

/// A copy of `v`.
pub fn copy_chars(v: &Vec<char>) -> (r: Vec<char>)
    ensures
        r@ == v@,
{
    let mut r: Vec<char> = Vec::new();
    push_chars(&mut r, v);
    assert(r@ =~= v@);
    r
}

/// `a` and `b` hold the same characters.
pub fn same_chars(a: &Vec<char>, b: &Vec<char>) -> (r: bool)
    ensures
        r == (a@ == b@),
{
    if a.len() != b.len() {
        return false;
    }
    let mut i: usize = 0;
    while i < a.len()
        invariant
            a@.len() == b@.len(),
            i <= a@.len(),
            forall|j: int| 0 <= j < i ==> a@[j] == b@[j],
        decreases a@.len() - i,
    {
        if a[i] != b[i] {
            return false;
        }
        i = i + 1;
    }
    assert(a@ =~= b@);
    true
}

/// `s` ends with CRLF.
pub open spec fn ends_with_crlf(s: Seq<char>) -> bool {
    s.len() >= 2 && s.subrange(s.len() - 2, s.len() as int) == seq!['\r', '\n']
}

/// `s` holds no line feed.
pub open spec fn no_newline(s: Seq<char>) -> bool {
    forall|i: int| 0 <= i < s.len() ==> s[i] != '\n'
}

proof fn lemma_fold_append(s: Seq<char>, t: Seq<char>)
    requires
        no_newline(t),
    ensures
        line_fold(s + t) == (line_fold(s).0, line_fold(s).1 + t),
    decreases t.len(),
{
    if t.len() == 0 {
        assert(s + t =~= s);
        assert(line_fold(s).1 + t =~= line_fold(s).1);
    } else {
        let u = t.drop_last();
        lemma_fold_append(s, u);
        assert((s + t).drop_last() =~= s + u);
        assert((s + t).last() == t.last());
        assert(t.last() == t[t.len() - 1]);
        assert(line_fold(s).1 + u + seq![t.last()] =~= line_fold(s).1 + t);
        assert((line_fold(s).1 + u).push(t.last()) =~= line_fold(s).1 + t);
    }
}

/// Reading SDP text made from lines without line feeds gives those lines back.
pub proof fn lemma_lines_of_sdp_text(ls: Seq<Seq<char>>)
    requires
        forall|k: int| 0 <= k < ls.len() ==> no_newline(#[trigger] ls[k]),
    ensures
        line_fold(join_crlf(ls)) == (ls, Seq::<char>::empty()),
        ls.len() > 0 ==> lines(sdp_text(ls)) == ls,
        ls.len() == 0 ==> lines(sdp_text(ls)) == seq![Seq::<char>::empty()],
    decreases ls.len(),
{
    if ls.len() == 0 {
        assert(join_crlf(ls) =~= Seq::<char>::empty());
        let t = seq!['\r', '\n'];
        assert(t.drop_last() =~= seq!['\r']);
        let cr = seq!['\r'];
        assert(cr.drop_last() =~= Seq::<char>::empty());
        assert(line_fold(cr.drop_last()) == (Seq::<Seq<char>>::empty(), Seq::<char>::empty()));
        assert(cr.last() == '\r');
        assert(Seq::<char>::empty().push('\r') =~= cr);
        assert(line_fold(cr) == (Seq::<Seq<char>>::empty(), cr));
        assert(strip_cr(seq!['\r']) =~= Seq::<char>::empty());
        assert(line_fold(t) == (seq![Seq::<char>::empty()], Seq::<char>::empty()));
    } else {
        let p = ls.drop_last();
        let l = ls.last();
        assert forall|k: int| 0 <= k < p.len() implies no_newline(#[trigger] p[k]) by {
            assert(p[k] == ls[k]);
        }
        lemma_lines_of_sdp_text(p);
        let j = join_crlf(p);
        assert(no_newline(ls[ls.len() - 1]));
        let lr = l.push('\r');
        assert(no_newline(lr));
        lemma_fold_append(j, lr);
        assert(Seq::<char>::empty() + lr =~= lr);
        let text = join_crlf(ls);
        assert(text =~= (j + lr).push('\n'));
        assert(text.drop_last() =~= j + lr);
        assert(strip_cr(lr) =~= l);
        assert(p.push(l) =~= ls);
    }
}

/// No line of a text contains a line feed.
pub proof fn lemma_lines_no_newline(s: Seq<char>)
    ensures
        forall|k: int| 0 <= k < lines(s).len() ==> no_newline(#[trigger] lines(s)[k]),
        forall|k: int| 0 <= k < line_fold(s).0.len() ==> no_newline(#[trigger] line_fold(s).0[k]),
        no_newline(line_fold(s).1),
    decreases s.len(),
{
    if s.len() > 0 {
        lemma_lines_no_newline(s.drop_last());
        let (d, c) = line_fold(s.drop_last());
        if s.last() == '\n' {
            assert(no_newline(strip_cr(c)));
            assert forall|k: int| 0 <= k < line_fold(s).0.len() implies no_newline(
                #[trigger] line_fold(s).0[k],
            ) by {
                if k < d.len() {
                    assert(line_fold(s).0[k] == d[k]);
                }
            }
        } else {
            assert(line_fold(s).0 == d);
        }
    }
    let (d, c) = line_fold(s);
    assert forall|k: int| 0 <= k < lines(s).len() implies no_newline(#[trigger] lines(s)[k]) by {
        if k < d.len() {
            assert(lines(s)[k] == d[k]);
        }
    }
}

/// No word of a text contains whitespace.
pub proof fn lemma_tokens_no_space(s: Seq<char>)
    ensures
        forall|k: int| 0 <= k < tokens(s).len() ==> no_newline(#[trigger] tokens(s)[k]),
        forall|k: int, i: int|
            0 <= k < token_fold(s).0.len() && 0 <= i < token_fold(s).0[k].len() ==> !is_space(
                #[trigger] token_fold(s).0[k][i],
            ),
        forall|i: int| 0 <= i < token_fold(s).1.len() ==> !is_space(#[trigger] token_fold(s).1[i]),
    decreases s.len(),
{
    if s.len() > 0 {
        lemma_tokens_no_space(s.drop_last());
        let (d, c) = token_fold(s.drop_last());
        if is_space(s.last()) {
            if c.len() > 0 {
                assert forall|k: int, i: int|
                    0 <= k < token_fold(s).0.len() && 0 <= i < token_fold(s).0[k].len() implies !is_space(
                    #[trigger] token_fold(s).0[k][i],
                ) by {
                    if k < d.len() {
                        assert(token_fold(s).0[k] == d[k]);
                    } else {
                        assert(token_fold(s).0[k] == c);
                    }
                }
            }
        } else {
            assert forall|i: int| 0 <= i < token_fold(s).1.len() implies !is_space(
                #[trigger] token_fold(s).1[i],
            ) by {
                if i < c.len() {
                    assert(token_fold(s).1[i] == c[i]);
                }
            }
        }
    }
    let (d, c) = token_fold(s);
    assert(is_space('\n'));
    assert forall|k: int| 0 <= k < tokens(s).len() implies no_newline(#[trigger] tokens(s)[k]) by {
        if k < d.len() {
            assert(tokens(s)[k] == d[k]);
            assert forall|i: int| 0 <= i < d[k].len() implies d[k][i] != '\n' by {
                assert(!is_space(token_fold(s).0[k][i]));
            }
        } else {
            assert(tokens(s)[k] == c);
            assert forall|i: int| 0 <= i < c.len() implies c[i] != '\n' by {
                assert(!is_space(token_fold(s).1[i]));
            }
        }
    }
}

/// Words without line feeds joined by spaces have none either.
pub proof fn lemma_join_spaces_no_newline(ws: Seq<Seq<char>>)
    requires
        forall|k: int| 0 <= k < ws.len() ==> no_newline(#[trigger] ws[k]),
    ensures
        no_newline(join_spaces(ws)),
    decreases ws.len(),
{
    if ws.len() > 1 {
        assert forall|k: int| 0 <= k < ws.drop_last().len() implies no_newline(
            #[trigger] ws.drop_last()[k],
        ) by {
            assert(ws.drop_last()[k] == ws[k]);
        }
        lemma_join_spaces_no_newline(ws.drop_last());
        assert(no_newline(ws[ws.len() - 1]));
    } else if ws.len() == 1 {
        assert(no_newline(ws[0]));
    }
}

/// Decimal digits hold no line feed.
pub proof fn lemma_decimal_no_newline(n: nat)
    ensures
        no_newline(decimal(n)),
    decreases n,
{
    if n >= 10 {
        lemma_decimal_no_newline(n / 10);
    }
    let c = digit_char(n % 10);
    assert(c != '\n') by {
        assert((n % 10 + '0' as nat) as u32 != 10);
    }
}

} // verus!
