//! Which ALSA capture and playback devices are worth listing: the default
//! device and `plughw` devices named by card (not by bare card number).
use vstd::prelude::*;
use crate::text::{after, chars_of, has_prefix, is_digit, same_chars, starts_with};

verus! {

/// Index of the first `,` or `:` in `s`, or its length.
pub open spec fn card_end(s: Seq<char>) -> nat
    decreases s.len(),
{
    if s.len() == 0 {
        0
    } else if s[0] == ',' || s[0] == ':' {
        0
    } else {
        1 + card_end(s.drop_first())
    }
}

proof fn lemma_card_end(s: Seq<char>, k: int)
    requires
        0 <= k <= s.len(),
        k < s.len() ==> (s[k] == ',' || s[k] == ':'),
        forall|j: int| 0 <= j < k ==> s[j] != ',' && s[j] != ':',
    ensures
        card_end(s) == k,
    decreases k,
{
    if k > 0 {
        assert forall|j: int| 0 <= j < k - 1 implies s.drop_first()[j] != ',' && s.drop_first()[j]
            != ':' by {
            assert(s.drop_first()[j] == s[j + 1]);
        }
        lemma_card_end(s.drop_first(), k - 1);
    }
}

/// The card name at the start of `s`: up to the first `,` or `:`.
pub open spec fn card_name(s: Seq<char>) -> Seq<char> {
    s.subrange(0, card_end(s) as int)
}

pub open spec fn all_ascii_digits(s: Seq<char>) -> bool {
    forall|i: int| 0 <= i < s.len() ==> is_digit(#[trigger] s[i])
}

/// `default`, or `plughw:CARD=<name>,...` / `plughw:<name>,...` where the
/// card is named rather than numbered.
pub open spec fn useful_device(id: Seq<char>) -> bool {
    if id == "default"@ {
        true
    } else if starts_with(id, "plughw:"@) {
        let rest = after(id, "plughw:"@);
        if starts_with(rest, "CARD="@) {
            !all_ascii_digits(card_name(after(rest, "CARD="@)))
        } else {
            let c = card_name(rest);
            c.len() > 0 && !all_ascii_digits(c)
        }
    } else {
        false
    }
}

/// Whether the card name starting at `from` is named (not all digits);
/// `need_name` also refuses an empty name.
fn named_card(s: &Vec<char>, from: usize, need_name: bool) -> (r: bool)
    requires
        from <= s@.len(),
    ensures
        r == ({
            let c = card_name(s@.subrange(from as int, s@.len() as int));
            (!need_name || c.len() > 0) && !all_ascii_digits(c)
        }),
{
    let n = s.len();
    let ghost sub = s@.subrange(from as int, n as int);
    let mut k = from;
    let mut digits = true;
    while k < n && s[k] != ',' && s[k] != ':'
        invariant
            from <= k <= n,
            n == s@.len(),
            forall|j: int| from <= j < k ==> s@[j] != ',' && s@[j] != ':',
            digits == (forall|j: int| from <= j < k ==> is_digit(#[trigger] s@[j])),
        decreases n - k,
    {
        if !('0' <= s[k] && s[k] <= '9') {
            digits = false;
        }
        k = k + 1;
    }
    proof {
        assert forall|j: int| 0 <= j < k - from implies sub[j] != ',' && sub[j] != ':' by {
            assert(sub[j] == s@[from + j]);
        }
        if k < n {
            assert(sub[k - from] == s@[k as int]);
        }
        lemma_card_end(sub, k - from);
        let c = card_name(sub);
        assert(c.len() == k - from);
        assert forall|j: int| 0 <= j < c.len() implies c[j] == s@[from + j] by {}
        if digits {
            assert forall|j: int| 0 <= j < c.len() implies is_digit(#[trigger] c[j]) by {
                assert(c[j] == s@[from + j]);
            }
        } else {
            let j = choose|j: int| from <= j < k && !is_digit(#[trigger] s@[j]);
            assert(c[j - from] == s@[j]);
        }
    }
    (!need_name || k > from) && !digits
}

/// Whether an ALSA device id is worth offering: `default`, or a `plughw`
/// device of a named card.
pub fn is_useful_device(local_id: &str) -> (r: bool)
    ensures
        r == useful_device(local_id@),
{
    let s = chars_of(local_id);
    let d = chars_of("default");
    if same_chars(&s, &d) {
        return true;
    }
    if !has_prefix(&s, "plughw:") {
        return false;
    }
    proof {
        reveal_strlit("plughw:");
        reveal_strlit("CARD=");
    }
    let ghost rest = after(s@, "plughw:"@);
    let mut rest_v: Vec<char> = Vec::new();
    let mut i: usize = 7;
    while i < s.len()
        invariant
            7 <= i <= s@.len(),
            rest_v@ == s@.subrange(7, i as int),
        decreases s@.len() - i,
    {
        rest_v.push(s[i]);
        assert(rest_v@ =~= s@.subrange(7, i + 1));
        i = i + 1;
    }
    assert(rest_v@ =~= rest);
    if has_prefix(&rest_v, "CARD=") {
        assert(rest_v@.subrange(5, rest_v@.len() as int) =~= after(rest, "CARD="@));
        named_card(&rest_v, 5, false)
    } else {
        assert(rest_v@.subrange(0, rest_v@.len() as int) =~= rest);
        named_card(&rest_v, 0, true)
    }
}

} // verus!
