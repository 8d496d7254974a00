//! Discord mention syntax: rendering user, role and channel mentions,
//! and finding channel mentions (`<#digits>`) in a text.

use vstd::prelude::*;
use crate::text::{all_digits, decimal, digits_value, is_digit, law_decimal_round_trip, push_decimal};

verus! {

/// `<@id>`, the mention of a user.
pub open spec fn user_mention(id: u64) -> Seq<char> {
    seq!['<', '@'] + decimal(id as nat) + seq!['>']
}

/// `<@!id>`, the mention of a user by nickname (older clients).
pub open spec fn nick_mention(id: u64) -> Seq<char> {
    seq!['<', '@', '!'] + decimal(id as nat) + seq!['>']
}

/// `<@&id>`, the mention of a role.
pub open spec fn role_mention(id: u64) -> Seq<char> {
    seq!['<', '@', '&'] + decimal(id as nat) + seq!['>']
}

/// `<#id>`, the mention of a channel.
pub open spec fn channel_mention(id: u64) -> Seq<char> {
    seq!['<', '#'] + decimal(id as nat) + seq!['>']
}

/// The characters of `prefix`, then the decimal id, then `>`.
fn wrapped_id(prefix: Vec<char>, id: u64) -> (v: Vec<char>)
    ensures
        v@ == prefix@ + decimal(id as nat) + seq!['>'],
{
    let mut v = prefix;
    push_decimal(&mut v, id);
    v.push('>');
    v
}

/// The mention of user `id`, as `UserId::mention().to_string()`.
pub fn user_mention_of(id: u64) -> (v: Vec<char>)
    ensures
        v@ == user_mention(id),
{
    let r = wrapped_id(vec!['<', '@'], id);
    assert(r@ =~= user_mention(id));
    r
}

/// The nickname form of the mention of user `id`.
pub fn nick_mention_of(id: u64) -> (v: Vec<char>)
    ensures
        v@ == nick_mention(id),
{
    let r = wrapped_id(vec!['<', '@', '!'], id);
    assert(r@ =~= nick_mention(id));
    r
}

/// The mention of role `id`.
pub fn role_mention_of(id: u64) -> (v: Vec<char>)
    ensures
        v@ == role_mention(id),
{
    let r = wrapped_id(vec!['<', '@', '&'], id);
    assert(r@ =~= role_mention(id));
    r
}

/// The mention of channel `id`.
pub fn channel_mention_of(id: u64) -> (v: Vec<char>)
    ensures
        v@ == channel_mention(id),
{
    let r = wrapped_id(vec!['<', '#'], id);
    assert(r@ =~= channel_mention(id));
    r
}

/// The number of consecutive ASCII digits in `s` from position `j`.
pub open spec fn digit_run(s: Seq<char>, j: int) -> nat
    decreases s.len() - j,
{
    if j < 0 || j >= s.len() || !is_digit(s[j]) {
        0
    } else {
        1 + digit_run(s, j + 1)
    }
}

/// Where a channel mention `<#digits>` that starts at `i` ends (one past its `>`).
pub open spec fn mention_end(s: Seq<char>, i: int) -> Option<int> {
    let run = digit_run(s, i + 2);
    if 0 <= i && i + 2 < s.len() && s[i] == '<' && s[i + 1] == '#' && run > 0 && i + 2 + run
        < s.len() && s[i + 2 + run] == '>' {
        Some(i + 3 + run)
    } else {
        None
    }
}

/// The digit strings of the channel mentions in `s` from position `i` on,
/// found from left to right without overlap (as the pattern `<#([0-9]+)>`).
pub open spec fn channel_mentions_from(s: Seq<char>, i: int) -> Seq<Seq<char>>
    decreases s.len() - i,
{
    if i < 0 || i >= s.len() {
        Seq::empty()
    } else {
        match mention_end(s, i) {
            Some(e) => seq![s.subrange(i + 2, e - 1)] + channel_mentions_from(s, e),
            None => channel_mentions_from(s, i + 1),
        }
    }
}

/// The digit strings of the channel mentions in `s`, in order.
pub open spec fn channel_mentions(s: Seq<char>) -> Seq<Seq<char>> {
    channel_mentions_from(s, 0)
}

proof fn lemma_digit_run_digits(s: Seq<char>, j: int, k: int)
    requires
        0 <= j,
        j <= k < j + digit_run(s, j),
    ensures
        k < s.len(),
        is_digit(s[k]),
    decreases k - j,
{
    if k > j {
        lemma_digit_run_digits(s, j + 1, k);
    }
}

/// The number of consecutive ASCII digits in `s` from position `j`.
fn digit_run_at(s: &Vec<char>, j: usize) -> (n: usize)
    requires
        j <= s.len(),
    ensures
        n as nat == digit_run(s@, j as int),
        j + n <= s.len(),
{
    let mut k: usize = j;
    while k < s.len() && '0' <= s[k] && s[k] <= '9'
        invariant
            j <= k <= s.len(),
            digit_run(s@, j as int) == (k - j) + digit_run(s@, k as int),
        decreases s.len() - k,
    {
        k = k + 1;
    }
    k - j
}

/// The digit strings of the channel mentions in `s`, in order.
pub fn channel_mentions_in(s: &Vec<char>) -> (r: Vec<Vec<char>>)
    ensures
        r@.len() == channel_mentions(s@).len(),
        forall|k: int| 0 <= k < r@.len() ==> #[trigger] r@[k]@ == channel_mentions(s@)[k],
{
    let mut out: Vec<Vec<char>> = Vec::new();
    let mut i: usize = 0;
    let ghost mut found: Seq<Seq<char>> = Seq::empty();
    while i < s.len()
        invariant
            i <= s.len(),
            out@.len() == found.len(),
            forall|k: int| 0 <= k < out@.len() ==> #[trigger] out@[k]@ == found[k],
            channel_mentions(s@) == found + channel_mentions_from(s@, i as int),
        decreases s.len() - i,
    {
        let mut end: usize = 0;
        let mut hit = false;
        if s.len() > 2 && i < s.len() - 2 && s[i] == '<' && s[i + 1] == '#' {
            let run = digit_run_at(s, i + 2);
            if run > 0 && i + 2 + run < s.len() && s[i + 2 + run] == '>' {
                hit = true;
                end = i + 3 + run;
            }
        }
        if hit {
            assert(mention_end(s@, i as int) == Some(end as int));
            let mut d: Vec<char> = Vec::new();
            let mut k: usize = i + 2;
            while k < end - 1
                invariant
                    i + 2 <= k <= end - 1,
                    end <= s.len(),
                    d@ == s@.subrange(i + 2, k as int),
                decreases end - 1 - k,
            {
                d.push(s[k]);
                assert(s@.subrange(i + 2, k as int).push(s@[k as int]) =~= s@.subrange(
                    i + 2,
                    k + 1,
                ));
                k = k + 1;
            }
            proof {
                let piece = s@.subrange(i + 2, end - 1);
                assert(found + channel_mentions_from(s@, i as int) =~= found.push(piece)
                    + channel_mentions_from(s@, end as int));
                found = found.push(piece);
            }
            out.push(d);
            i = end;
        } else {
            assert(mention_end(s@, i as int) is None);
            i = i + 1;
        }
    }
    assert(channel_mentions_from(s@, i as int) =~= Seq::<Seq<char>>::empty());
    assert(found + Seq::<Seq<char>>::empty() =~= found);
    out
}

/// Every digit string found as a channel mention is all digits.
pub proof fn lemma_channel_mentions_digits(s: Seq<char>, i: int)
    ensures
        forall|k: int|
            0 <= k < channel_mentions_from(s, i).len() ==> all_digits(
                #[trigger] channel_mentions_from(s, i)[k],
            ),
    decreases s.len() - i,
{
    if 0 <= i < s.len() {
        match mention_end(s, i) {
            Some(e) => {
                lemma_channel_mentions_digits(s, e);
                let piece = s.subrange(i + 2, e - 1);
                assert forall|m: int| 0 <= m < piece.len() implies is_digit(#[trigger] piece[m]) by {
                    lemma_digit_run_digits(s, i + 2, i + 2 + m);
                    assert(piece[m] == s[i + 2 + m]);
                }
                assert(all_digits(piece));
                let rest = channel_mentions_from(s, e);
                assert(channel_mentions_from(s, i) == seq![piece] + rest);
                assert forall|k: int|
                    0 <= k < channel_mentions_from(s, i).len() implies all_digits(
                    #[trigger] channel_mentions_from(s, i)[k],
                ) by {
                    if k > 0 {
                        assert(channel_mentions_from(s, i)[k] == rest[k - 1]);
                    } else {
                        assert(channel_mentions_from(s, i)[k] == piece);
                    }
                }
            },
            None => {
                lemma_channel_mentions_digits(s, i + 1);
                assert(channel_mentions_from(s, i) == channel_mentions_from(s, i + 1));
            },
        }
    } else {
        assert(channel_mentions_from(s, i).len() == 0);
    }
}


proof fn lemma_digit_run_block(s: Seq<char>, j: int, k: int)
    requires
        0 <= j,
        0 <= k,
        j + k <= s.len(),
        forall|m: int| j <= m < j + k ==> is_digit(#[trigger] s[m]),
        j + k == s.len() || !is_digit(s[j + k]),
    ensures
        digit_run(s, j) == k,
    decreases k,
{
    if k > 0 {
        lemma_digit_run_block(s, j + 1, k - 1);
        assert(is_digit(s[j]));
    }
}

/// A channel mention that the bot renders is found again in the text and
/// read back as the same channel id.
pub proof fn law_channel_mention_read_back(id: u64)
    ensures
        channel_mentions(channel_mention(id)) == seq![decimal(id as nat)],
        digits_value(decimal(id as nat)) == id,
{
    let d = decimal(id as nat);
    let s = channel_mention(id);
    law_decimal_round_trip(id as nat);
    let k = d.len() as int;
    assert forall|m: int| 2 <= m < 2 + k implies is_digit(#[trigger] s[m]) by {
        assert(s[m] == d[m - 2]);
    }
    assert(s[2 + k] == '>');
    lemma_digit_run_block(s, 2, k);
    assert(mention_end(s, 0) == Some(3 + k));
    assert(s.subrange(2, 2 + k) =~= d);
    assert(channel_mentions_from(s, 3 + k) == Seq::<Seq<char>>::empty());
    assert(channel_mentions_from(s, 0) =~= seq![d]);
}

} // verus!
