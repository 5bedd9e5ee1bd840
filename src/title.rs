use vstd::prelude::*;

verus! {

/// Window titles are handled as the UTF-16 code units that the windowing system reports.
/// The prefix of a slotted window's title: `"OMB "`.
pub open spec fn spec_slot_prefix() -> Seq<u16> {
    seq![79u16, 77u16, 66u16, 32u16]
}

/// The title of a target-application window that has no slot yet: `"World of Warcraft"`.
pub open spec fn spec_target_title() -> Seq<u16> {
    seq![
        87u16, 111u16, 114u16, 108u16, 100u16, 32u16, 111u16, 102u16, 32u16,
        87u16, 97u16, 114u16, 99u16, 114u16, 97u16, 102u16, 116u16,
    ]
}

/// The title with its trailing NUL padding removed.
pub open spec fn trim_padding(t: Seq<u16>) -> Seq<u16>
    decreases t.len(),
{
    if t.len() > 0 && t.last() == 0u16 {
        trim_padding(t.drop_last())
    } else {
        t
    }
}

pub open spec fn is_digit(c: u16) -> bool {
    48 <= c <= 57
}

pub open spec fn all_digits(s: Seq<u16>) -> bool {
    forall|i: int| 0 <= i < s.len() ==> is_digit(#[trigger] s[i])
}

/// The number that a sequence of decimal digits denotes, most significant first.
pub open spec fn decimal_value(s: Seq<u16>) -> nat
    decreases s.len(),
{
    if s.len() == 0 {
        0
    } else {
        decimal_value(s.drop_last()) * 10 + (s.last() - 48) as nat
    }
}

/// The decimal digits of `n`, most significant first, without leading zeros.
pub open spec fn decimal_digits(n: nat) -> Seq<u16>
    decreases n,
{
    if n < 10 {
        seq![(48 + n) as u16]
    } else {
        decimal_digits(n / 10).push((48 + n % 10) as u16)
    }
}

/// The slot that a title names: `"OMB <n>"` with `n` a positive decimal number that fits a
/// `usize`, once trailing padding is removed. Any other title names no slot.
pub open spec fn slot_of_title(t: Seq<u16>) -> Option<usize> {
    let u = trim_padding(t);
    let digits = u.skip(4);
    if u.len() > 4 && u.take(4) == spec_slot_prefix() && all_digits(digits) && 1
        <= decimal_value(digits) <= usize::MAX {
        Some(decimal_value(digits) as usize)
    } else {
        None
    }
}

/// Whether a title is that of a target-application window without a slot.
pub open spec fn is_target_title(t: Seq<u16>) -> bool {
    trim_padding(t) == spec_target_title()
}

/// The title given to the window that holds slot `n`.
pub open spec fn title_for_slot(n: nat) -> Seq<u16> {
    spec_slot_prefix() + decimal_digits(n)
}

pub fn slot_prefix() -> (r: Vec<u16>)
    ensures
        r@ == spec_slot_prefix(),
{
    vec![79u16, 77u16, 66u16, 32u16]
}

pub fn target_title() -> (r: Vec<u16>)
    ensures
        r@ == spec_target_title(),
{
    vec![
        87u16, 111u16, 114u16, 108u16, 100u16, 32u16, 111u16, 102u16, 32u16,
        87u16, 97u16, 114u16, 99u16, 114u16, 97u16, 102u16, 116u16,
    ]
}

/// The length of the title once trailing NUL padding is removed.
pub fn padded_len(t: &Vec<u16>) -> (r: usize)
    ensures
        r <= t@.len(),
        t@.take(r as int) == trim_padding(t@),
{
    let mut end: usize = t.len();
    assert(t@.take(end as int) =~= t@);
    while end > 0 && t[end - 1] == 0u16
        invariant
            end <= t@.len(),
            trim_padding(t@.take(end as int)) == trim_padding(t@),
        decreases end,
    {
        assert(t@.take(end as int).drop_last() =~= t@.take(end - 1));
        end = end - 1;
    }
    proof {
        lemma_trimmed_is_fixed(t@.take(end as int));
    }
    end
}

proof fn lemma_trimmed_is_fixed(s: Seq<u16>)
    requires
        s.len() == 0 || s.last() != 0u16,
    ensures
        trim_padding(s) == s,
{
}

/// Whether `t` holds exactly `p` in its first `end` code units.
fn equals_prefix_of(t: &Vec<u16>, end: usize, p: &Vec<u16>) -> (r: bool)
    requires
        end <= t@.len(),
    ensures
        r == (t@.take(end as int) == p@),
{
    if end != p.len() {
        return false;
    }
    let mut i: usize = 0;
    while i < end
        invariant
            end == p@.len(),
            end <= t@.len(),
            i <= end,
            forall|j: int| 0 <= j < i ==> t@[j] == p@[j],
        decreases end - i,
    {
        if t[i] != p[i] {
            assert(t@.take(end as int)[i as int] != p@[i as int]);
            return false;
        }
        i = i + 1;
    }
    assert(t@.take(end as int) =~= p@);
    true
}

proof fn lemma_decimal_value_grows(s: Seq<u16>, k: int)
    requires
        0 <= k <= s.len(),
        all_digits(s),
    ensures
        decimal_value(s.take(k)) <= decimal_value(s),
    decreases s.len(),
{
    if k < s.len() {
        assert(s.drop_last().take(k) =~= s.take(k));
        assert forall|i: int| 0 <= i < s.drop_last().len() implies is_digit(
            #[trigger] s.drop_last()[i],
        ) by {
            assert(s.drop_last()[i] == s[i]);
        }
        lemma_decimal_value_grows(s.drop_last(), k);
    } else {
        assert(s.take(k) =~= s);
    }
}

/// The slot that a title names, as `slot_of_title` states.
pub fn parse_slot_title(t: &Vec<u16>) -> (r: Option<usize>)
    ensures
        r == slot_of_title(t@),
{
    let end = padded_len(t);
    let u = Ghost(trim_padding(t@));
    if end <= 4 {
        return None;
    }
    let prefix = slot_prefix();
    if !equals_prefix_of(t, 4, &prefix) {
        assert(u@.take(4) =~= t@.take(4));
        return None;
    }
    assert(u@.take(4) =~= t@.take(4));
    let ghost digits = u@.skip(4);
    let mut value: usize = 0;
    let mut i: usize = 4;
    while i < end
        invariant
            4 <= i <= end,
            end == u@.len(),
            end <= t@.len(),
            u@ == trim_padding(t@),
            u@ == t@.take(end as int),
            digits == u@.skip(4),
            all_digits(digits.take(i - 4)),
            value as nat == decimal_value(digits.take(i - 4)),
        decreases end - i,
    {
        let c = t[i];
        assert(digits[i - 4] == c);
        if c < 48u16 || c > 57u16 {
            assert(!is_digit(digits[i - 4]));
            assert(!all_digits(digits));
            return None;
        }
        let d = (c - 48u16) as usize;
        assert(digits.take(i - 4 + 1).drop_last() =~= digits.take(i - 4));
        assert(digits.take(i - 4 + 1).last() == c);
        assert(decimal_value(digits.take(i - 4 + 1)) == value as nat * 10 + d as nat);
        assert forall|j: int| 0 <= j < i - 4 + 1 implies is_digit(
            #[trigger] digits.take(i - 4 + 1)[j],
        ) by {
            if j < i - 4 {
                assert(digits.take(i - 4 + 1)[j] == digits.take(i - 4)[j]);
            }
        }
        match value.checked_mul(10) {
            Some(m) => match m.checked_add(d) {
                Some(v) => {
                    value = v;
                },
                None => {
                    proof {
                        if all_digits(digits) {
                            lemma_decimal_value_grows(digits, i - 4 + 1);
                        }
                    }
                    return None;
                },
            },
            None => {
                proof {
                    if all_digits(digits) {
                        lemma_decimal_value_grows(digits, i - 4 + 1);
                    }
                }
                return None;
            },
        }
        i = i + 1;
    }
    assert(digits.take(end - 4) =~= digits);
    if value == 0 {
        None
    } else {
        Some(value)
    }
}

/// Whether a title is that of a target-application window without a slot.
pub fn parse_target_title(t: &Vec<u16>) -> (r: bool)
    ensures
        r == is_target_title(t@),
{
    let end = padded_len(t);
    let target = target_title();
    equals_prefix_of(t, end, &target)
}

proof fn lemma_decimal_digits(n: nat)
    ensures
        decimal_digits(n).len() >= 1,
        all_digits(decimal_digits(n)),
        decimal_value(decimal_digits(n)) == n,
        decimal_digits(n).last() != 0u16,
    decreases n,
{
    if n < 10 {
        let s = decimal_digits(n);
        assert(s.drop_last().len() == 0);
        assert(decimal_value(s.drop_last()) == 0);
    } else {
        lemma_decimal_digits(n / 10);
        let s = decimal_digits(n);
        assert(s.drop_last() =~= decimal_digits(n / 10));
        assert(n == (n / 10) * 10 + n % 10);
        assert(s.last() - 48 == n % 10);
        assert forall|i: int| 0 <= i < s.len() implies is_digit(#[trigger] s[i]) by {
            if i < s.len() - 1 {
                assert(s[i] == decimal_digits(n / 10)[i]);
            }
        }
    }
}

fn push_digits(out: &mut Vec<u16>, n: usize)
    ensures
        final(out)@ == old(out)@ + decimal_digits(n as nat),
    decreases n,
{
    if n < 10 {
        out.push(48u16 + n as u16);
    } else {
        push_digits(out, n / 10);
        out.push(48u16 + (n % 10) as u16);
    }
}

/// The title `"OMB <slot>"` given to a window when it is placed in `slot`.
pub fn slot_title(slot: usize) -> (r: Vec<u16>)
    ensures
        r@ == title_for_slot(slot as nat),
{
    let mut out = slot_prefix();
    push_digits(&mut out, slot);
    out
}

/// A title given to a window for a positive slot names that slot again.
pub proof fn lemma_slot_title_round_trip(n: usize)
    requires
        n >= 1,
    ensures
        slot_of_title(title_for_slot(n as nat)) == Some(n),
{
    let t = title_for_slot(n as nat);
    lemma_decimal_digits(n as nat);
    lemma_trimmed_is_fixed(t);
    assert(t.take(4) =~= spec_slot_prefix());
    assert(t.skip(4) =~= decimal_digits(n as nat));
}

} // verus!
