//! The persisted watermark: the creation time of the newest pull request seen
//! by earlier runs, stored as a decimal integer of seconds since the epoch.
//!
//! The update rule is monotonic: a run moves the watermark to the newest
//! creation time it fetched, but never below its current value, so a late,
//! out-of-order listing cannot make old pull requests look new again.
use vstd::prelude::*;

use crate::pull_request::{PullRequest, PullRequestView};

verus! {

/// The watermark used when none was stored yet, or when the stored text is unusable.
pub const INITIAL_WATERMARK: i64 = 0;

/// The ten decimal digits, in order of value.
pub open spec fn digit_chars() -> Seq<char> {
    seq!['0', '1', '2', '3', '4', '5', '6', '7', '8', '9']
}

pub open spec fn is_digit(c: char) -> bool {
    '0' <= c && c <= '9'
}

pub open spec fn digit_value(c: char) -> int {
    (c as u32) as int - ('0' as u32) as int
}

pub open spec fn all_digits(s: Seq<char>) -> bool {
    forall|i: int| 0 <= i < s.len() ==> is_digit(#[trigger] s[i])
}

/// The number that a string of decimal digits writes, most significant first.
pub open spec fn digits_value(s: Seq<char>) -> int
    decreases s.len(),
{
    if s.len() == 0 {
        0
    } else {
        digits_value(s.drop_last()) * 10 + digit_value(s.last())
    }
}

/// The integer that `s` writes: an optional `+` or `-`, then at least one digit.
pub open spec fn decimal_value(s: Seq<char>) -> Option<int> {
    if s.len() > 0 && (s[0] == '-' || s[0] == '+') {
        let d = s.subrange(1, s.len() as int);
        if d.len() > 0 && all_digits(d) {
            Some(
                if s[0] == '-' {
                    -digits_value(d)
                } else {
                    digits_value(d)
                },
            )
        } else {
            None
        }
    } else if s.len() > 0 && all_digits(s) {
        Some(digits_value(s))
    } else {
        None
    }
}

/// The watermark that a stored text holds, if it is a decimal integer that fits in `i64`.
pub open spec fn stored_watermark(s: Seq<char>) -> Option<i64> {
    match decimal_value(s) {
        Some(v) => if i64::MIN <= v <= i64::MAX {
            Some(v as i64)
        } else {
            None
        },
        None => None,
    }
}

/// The shortest decimal writing of a natural number.
pub open spec fn nat_text(n: nat) -> Seq<char>
    decreases n,
{
    if n < 10 {
        seq![digit_chars()[n as int]]
    } else {
        nat_text(n / 10).push(digit_chars()[(n % 10) as int])
    }
}

/// The decimal writing of an integer, with a leading `-` when it is negative.
pub open spec fn decimal_text(n: int) -> Seq<char> {
    if n < 0 {
        seq!['-'] + nat_text((-n) as nat)
    } else {
        nat_text(n as nat)
    }
}

/// The newest creation time among a non-empty list of pull requests.
pub open spec fn latest_created(prs: Seq<PullRequestView>) -> i64
    decreases prs.len(),
{
    if prs.len() <= 1 {
        prs[0].created_at
    } else {
        let rest = latest_created(prs.drop_last());
        if prs.last().created_at > rest {
            prs.last().created_at
        } else {
            rest
        }
    }
}

/// The watermark to store after a run that fetched `prs`: none when nothing
/// was fetched, else the newest creation time, never below `current`.
pub open spec fn advanced_watermark(current: i64, prs: Seq<PullRequestView>) -> Option<i64> {
    if prs.len() == 0 {
        None
    } else if latest_created(prs) > current {
        Some(latest_created(prs))
    } else {
        Some(current)
    }
}

/// The stored watermark once a run that fetched `prs` has finished.
pub open spec fn watermark_after_run(current: i64, prs: Seq<PullRequestView>) -> i64 {
    match advanced_watermark(current, prs) {
        Some(w) => w,
        None => current,
    }
}

/// Reads a stored watermark: `None` unless the text is an optional sign and
/// decimal digits whose value fits in `i64`.
pub fn parse_watermark(text: &str) -> (r: Option<i64>)
    ensures
        r == stored_watermark(text@),
{
    let len = text.unicode_len();
    if len == 0 {
        return None;
    }
    let first = text.get_char(0);
    let negative = first == '-';
    let start: usize = if first == '-' || first == '+' {
        1
    } else {
        0
    };
    if start == len {
        return None;
    }
    let ghost s = text@;
    let ghost d = s.subrange(start as int, len as int);
    proof {
        assert(start == 0 ==> d =~= s);
    }
    let mut acc: u64 = 0;
    let mut i: usize = start;
    while i < len
        invariant
            len == s.len(),
            s == text@,
            len > 0,
            start == 1 <==> (s[0] == '-' || s[0] == '+'),
            start <= 1,
            negative == (s[0] == '-'),
            start == 0 ==> d == s,
            d == s.subrange(start as int, len as int),
            start <= i <= len,
            acc <= 0x8000_0000_0000_0000,
            acc == digits_value(s.subrange(start as int, i as int)),
            all_digits(s.subrange(start as int, i as int)),
        decreases len - i,
    {
        let c = text.get_char(i);
        let ghost before = s.subrange(start as int, i as int);
        let ghost after = s.subrange(start as int, i + 1);
        proof {
            assert(after.drop_last() =~= before);
            assert(after.last() == c);
            assert(d[i - start] == c);
        }
        if c < '0' || c > '9' {
            assert(!all_digits(d));
            assert(s[0] == '-' || s[0] == '+' ==> s.subrange(1, s.len() as int) =~= d);
            return None;
        }
        let digit = (c as u32 - '0' as u32) as u64;
        if acc > 922_337_203_685_477_580 {
            proof {
                assert(d.subrange(0, (i - start + 1) as int) =~= after);
                if all_digits(d) {
                    lemma_digits_value_grows(d, (i - start + 1) as int);
                }
                assert(s[0] == '-' || s[0] == '+' ==> s.subrange(1, s.len() as int) =~= d);
            }
            return None;
        }
        let next = acc * 10 + digit;
        if next > 0x8000_0000_0000_0000 {
            proof {
                assert(d.subrange(0, (i - start + 1) as int) =~= after);
                if all_digits(d) {
                    lemma_digits_value_grows(d, (i - start + 1) as int);
                }
                assert(s[0] == '-' || s[0] == '+' ==> s.subrange(1, s.len() as int) =~= d);
            }
            return None;
        }
        proof {
            assert forall|k: int| 0 <= k < after.len() implies is_digit(#[trigger] after[k]) by {
                if k < before.len() {
                    assert(after[k] == before[k]);
                }
            }
        }
        acc = next;
        i = i + 1;
    }
    proof {
        assert(s.subrange(start as int, len as int) =~= d);
        assert(s[0] == '-' || s[0] == '+' ==> s.subrange(1, s.len() as int) =~= d);
    }
    if negative {
        if acc == 0x8000_0000_0000_0000 {
            Some(i64::MIN)
        } else {
            Some(-(acc as i64))
        }
    } else if acc > 0x7fff_ffff_ffff_ffff {
        None
    } else {
        Some(acc as i64)
    }
}

/// A digit string never writes a negative number.
proof fn lemma_digits_nonneg(s: Seq<char>)
    requires
        all_digits(s),
    ensures
        digits_value(s) >= 0,
    decreases s.len(),
{
    if s.len() > 0 {
        lemma_all_digits_prefix(s, s.len() - 1);
        assert(s.subrange(0, s.len() - 1) =~= s.drop_last());
        lemma_digits_nonneg(s.drop_last());
        assert(is_digit(s[s.len() - 1]));
    }
}

proof fn lemma_all_digits_prefix(s: Seq<char>, k: int)
    requires
        all_digits(s),
        0 <= k <= s.len(),
    ensures
        all_digits(s.subrange(0, k)),
{
    assert forall|i: int| 0 <= i < k implies is_digit(#[trigger] s.subrange(0, k)[i]) by {
        assert(s.subrange(0, k)[i] == s[i]);
    }
}

/// Extending a digit string never lowers the number it writes, as long as the
/// whole string is digits.
proof fn lemma_digits_value_grows(s: Seq<char>, k: int)
    requires
        all_digits(s),
        0 <= k <= s.len(),
    ensures
        digits_value(s.subrange(0, k)) <= digits_value(s),
    decreases s.len() - k,
{
    if k < s.len() {
        lemma_digits_value_grows(s, k + 1);
        let p = s.subrange(0, k + 1);
        assert(p.drop_last() =~= s.subrange(0, k));
        lemma_all_digits_prefix(s, k);
        lemma_digits_nonneg(s.subrange(0, k));
        assert(is_digit(s[k]));
        assert(p.last() == s[k]);
    } else {
        assert(s.subrange(0, k) =~= s);
    }
}

/// The one-character string of a decimal digit.
fn digit_str(d: u64) -> (r: &'static str)
    requires
        d < 10,
    ensures
        r@ == seq![digit_chars()[d as int]],
{
    proof {
        reveal_strlit("0");
        reveal_strlit("1");
        reveal_strlit("2");
        reveal_strlit("3");
        reveal_strlit("4");
        reveal_strlit("5");
        reveal_strlit("6");
        reveal_strlit("7");
        reveal_strlit("8");
        reveal_strlit("9");
    }
    let r = if d == 0 {
        "0"
    } else if d == 1 {
        "1"
    } else if d == 2 {
        "2"
    } else if d == 3 {
        "3"
    } else if d == 4 {
        "4"
    } else if d == 5 {
        "5"
    } else if d == 6 {
        "6"
    } else if d == 7 {
        "7"
    } else if d == 8 {
        "8"
    } else {
        "9"
    };
    assert(r@ =~= seq![digit_chars()[d as int]]);
    r
}

/// Appends the decimal digits of `n` to `out`.
fn push_digits(out: &mut String, n: u64)
    ensures
        final(out)@ == old(out)@ + nat_text(n as nat),
    decreases n,
{
    if n >= 10 {
        push_digits(out, n / 10);
    }
    out.append(digit_str(n % 10));
    proof {
        if n >= 10 {
            assert(old(out)@ + nat_text((n / 10) as nat) + seq![digit_chars()[(n % 10) as int]]
                =~= old(out)@ + nat_text(n as nat));
        } else {
            assert(old(out)@ + seq![digit_chars()[(n % 10) as int]] =~= old(out)@ + nat_text(
                n as nat,
            ));
        }
    }
}

/// The text under which a watermark is stored: its decimal writing.
pub fn render_watermark(w: i64) -> (r: String)
    ensures
        r@ == decimal_text(w as int),
        stored_watermark(r@) == Some(w),
{
    let mut out = String::new();
    let magnitude: u64 = if w < 0 {
        let sign = "-";
        proof {
            reveal_strlit("-");
        }
        out.append(sign);
        (-(w as i128)) as u64
    } else {
        w as u64
    };
    push_digits(&mut out, magnitude);
    proof {
        if w < 0 {
            assert(out@ =~= seq!['-'] + nat_text((-w) as nat));
        } else {
            assert(out@ =~= nat_text(w as nat));
        }
        lemma_watermark_round_trip(w);
    }
    out
}

/// The watermark to store after a run that fetched `prs`: `None` when the
/// run fetched nothing, so the stored value stays as it is; otherwise the
/// newest creation time among `prs`, or `current` when that is newer.
pub fn next_watermark(current: i64, prs: &Vec<PullRequest>) -> (r: Option<i64>)
    ensures
        r == advanced_watermark(current, prs.deep_view()),
{
    let n = prs.len();
    if n == 0 {
        return None;
    }
    let mut latest: i64 = prs[0].created_at;
    let mut i: usize = 1;
    proof {
        assert(prs.deep_view().subrange(0, 1)[0] == prs[0]@);
    }
    while i < n
        invariant
            n == prs@.len(),
            1 <= i <= n,
            latest == latest_created(prs.deep_view().subrange(0, i as int)),
        decreases n - i,
    {
        let c = prs[i].created_at;
        proof {
            let s = prs.deep_view().subrange(0, i + 1);
            assert(s.drop_last() =~= prs.deep_view().subrange(0, i as int));
            assert(s.last() == prs[i as int]@);
        }
        if c > latest {
            latest = c;
        }
        i = i + 1;
    }
    assert(prs.deep_view().subrange(0, n as int) =~= prs.deep_view());
    if latest > current {
        Some(latest)
    } else {
        Some(current)
    }
}

proof fn lemma_digit_chars_value(d: int)
    requires
        0 <= d < 10,
    ensures
        is_digit(digit_chars()[d]),
        digit_value(digit_chars()[d]) == d,
{
}

/// The decimal writing of a natural number is digits only, starts with a
/// digit, and reads back as that number.
proof fn lemma_nat_text_reads_back(n: nat)
    ensures
        nat_text(n).len() > 0,
        all_digits(nat_text(n)),
        digits_value(nat_text(n)) == n,
    decreases n,
{
    if n < 10 {
        lemma_digit_chars_value(n as int);
        assert(nat_text(n).drop_last() =~= Seq::<char>::empty());
        assert(nat_text(n).last() == digit_chars()[n as int]);
        assert(digits_value(nat_text(n).drop_last()) == 0);
        assert(digits_value(nat_text(n)) == n);
    } else {
        lemma_nat_text_reads_back(n / 10);
        lemma_digit_chars_value((n % 10) as int);
        let t = nat_text(n);
        assert(t.drop_last() =~= nat_text(n / 10));
        assert(t.last() == digit_chars()[(n % 10) as int]);
        assert((n / 10) * 10 + n % 10 == n) by (nonlinear_arith);
        assert(digits_value(t.drop_last()) == n / 10);
        assert(digit_value(t.last()) == n % 10);
        assert(digits_value(t) == n);
        assert forall|i: int| 0 <= i < t.len() implies is_digit(#[trigger] t[i]) by {
            if i < t.len() - 1 {
                assert(t[i] == nat_text(n / 10)[i]);
            }
        }
    }
}

/// A stored watermark reads back as the value that was written.
pub proof fn lemma_watermark_round_trip(w: i64)
    ensures
        stored_watermark(decimal_text(w as int)) == Some(w),
{
    let t = decimal_text(w as int);
    if w < 0 {
        let m = (-w) as nat;
        lemma_nat_text_reads_back(m);
        assert(t.subrange(1, t.len() as int) =~= nat_text(m));
        assert(t[0] == '-');
    } else {
        lemma_nat_text_reads_back(w as nat);
        assert(is_digit(t[0]));
    }
}

/// The latest creation time is at least every creation time in the list.
proof fn lemma_latest_created_bounds(prs: Seq<PullRequestView>)
    requires
        prs.len() > 0,
    ensures
        forall|i: int| 0 <= i < prs.len() ==> #[trigger] prs[i].created_at <= latest_created(prs),
    decreases prs.len(),
{
    if prs.len() > 1 {
        lemma_latest_created_bounds(prs.drop_last());
        assert forall|i: int| 0 <= i < prs.len() implies #[trigger] prs[i].created_at
            <= latest_created(prs) by {
            if i < prs.len() - 1 {
                assert(prs[i] == prs.drop_last()[i]);
            }
        }
    }
}

/// The watermark never moves backward: after a run it is at least its value
/// before the run and at least the creation time of every pull request the
/// run fetched, so a second run, whatever it fetches, cannot bring it back
/// below either.
pub proof fn lemma_watermark_monotone(
    w: i64,
    first: Seq<PullRequestView>,
    second: Seq<PullRequestView>,
)
    ensures
        watermark_after_run(w, first) >= w,
        forall|i: int|
            0 <= i < first.len() ==> #[trigger] first[i].created_at <= watermark_after_run(
                w,
                first,
            ),
        watermark_after_run(watermark_after_run(w, first), second) >= watermark_after_run(
            w,
            first,
        ),
{
    if first.len() > 0 {
        lemma_latest_created_bounds(first);
    }
}

/// A run that fetched no pull requests leaves the stored watermark untouched.
pub proof fn lemma_empty_fetch_keeps_watermark(w: i64)
    ensures
        advanced_watermark(w, Seq::<PullRequestView>::empty()) == None::<i64>,
        watermark_after_run(w, Seq::<PullRequestView>::empty()) == w,
{
}

} // verus!
