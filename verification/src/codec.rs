//! A structured-text codec for a counter state.
//!
//! The rendering of a count `n` is the single line `value = <n>` followed by
//! a newline, with `<n>` in canonical decimal (no leading zeros). The parser
//! is strict: it accepts exactly the renderings and nothing else, which makes
//! the round-trip law provable.

use vstd::prelude::*;
use vstd::arithmetic::div_mod::lemma_fundamental_div_mod;
use crate::errors::StateError;
use crate::saveable::Saveable;

verus! {

/// Whether `b` is an ASCII decimal digit.
pub open spec fn is_digit(b: u8) -> bool {
    48 <= b <= 57
}

/// Whether every byte of `s` is an ASCII decimal digit.
pub open spec fn all_digits(s: Seq<u8>) -> bool {
    forall|i: int| 0 <= i < s.len() ==> is_digit(#[trigger] s[i])
}

/// Whether `s` is a canonical decimal numeral: non-empty, all digits, and
/// without a leading zero unless it is the single digit `0`.
pub open spec fn canonical_digits(s: Seq<u8>) -> bool {
    &&& s.len() > 0
    &&& all_digits(s)
    &&& (s.len() > 1 ==> s[0] != 48)
}

/// The number a digit sequence denotes.
pub open spec fn digits_val(s: Seq<u8>) -> int
    decreases s.len(),
{
    if s.len() == 0 {
        0
    } else {
        digits_val(s.drop_last()) * 10 + s.last() - 48
    }
}

/// The canonical decimal numeral of `n`.
pub open spec fn dec_rep(n: nat) -> Seq<u8>
    decreases n,
{
    if n < 10 {
        seq![(48 + n) as u8]
    } else {
        dec_rep(n / 10).push((48 + n % 10) as u8)
    }
}

/// The bytes of `value = `, the key-and-equals prefix of the rendered line.
pub open spec fn key_prefix() -> Seq<u8> {
    seq![118u8, 97u8, 108u8, 117u8, 101u8, 32u8, 61u8, 32u8]
}

/// The full rendering of a count: prefix, canonical decimal, newline.
pub open spec fn counter_rendering(n: u64) -> Seq<u8> {
    key_prefix() + dec_rep(n as nat) + seq![10u8]
}

/// What parsing yields: the count, if the bytes are exactly a rendered line
/// whose numeral is canonical and fits in a count; otherwise nothing.
pub open spec fn counter_parse_spec(d: Seq<u8>) -> Option<u64> {
    if d.len() >= 10 && d.subrange(0, 8) == key_prefix() && d.last() == 10u8 {
        let s = d.subrange(8, d.len() - 1);
        if canonical_digits(s) && digits_val(s) <= u64::MAX {
            Some(digits_val(s) as u64)
        } else {
            None
        }
    } else {
        None
    }
}

/// The canonical numeral of any `n` is well formed: all digits, one digit
/// exactly when `n < 10`, and a nonzero leading digit whenever `n > 0`.
pub proof fn lemma_dec_rep_wf(n: nat)
    ensures
        dec_rep(n).len() >= 1,
        all_digits(dec_rep(n)),
        n < 10 ==> dec_rep(n).len() == 1,
        n >= 10 ==> dec_rep(n).len() >= 2,
        n >= 1 ==> dec_rep(n)[0] != 48,
        canonical_digits(dec_rep(n)),
    decreases n,
{
    if n < 10 {
        assert(dec_rep(n) == seq![(48 + n) as u8]);
        assert(dec_rep(n)[0] == (48 + n) as u8);
    } else {
        lemma_dec_rep_wf(n / 10);
        let prev = dec_rep(n / 10);
        let d = (48 + n % 10) as u8;
        assert(dec_rep(n) == prev.push(d));
        assert(dec_rep(n)[0] == prev[0]);
        assert(forall|i: int| 0 <= i < prev.len() ==> dec_rep(n)[i] == prev[i]);
        assert(dec_rep(n).last() == d);
        assert(n / 10 >= 1);
    }
}

/// The numeral of `n` denotes `n`.
pub proof fn lemma_digits_val_of_dec_rep(n: nat)
    ensures
        digits_val(dec_rep(n)) == n,
    decreases n,
{
    if n < 10 {
        let s = dec_rep(n);
        assert(s == seq![(48 + n) as u8]);
        assert(s.len() == 1);
        assert(s.last() == (48 + n) as u8);
        assert(s.drop_last() =~= Seq::<u8>::empty());
        assert(digits_val(s.drop_last()) == 0);
        assert(digits_val(s) == digits_val(s.drop_last()) * 10 + s.last() - 48);
    } else {
        lemma_digits_val_of_dec_rep(n / 10);
        let s = dec_rep(n);
        let prev = dec_rep(n / 10);
        let d = (48 + n % 10) as u8;
        assert(s == prev.push(d));
        assert(s.drop_last() =~= prev);
        assert(s.last() == d);
        lemma_fundamental_div_mod(n as int, 10);
    }
}

/// Extending a digit sequence never shrinks its value: the value of any
/// prefix is a lower bound, digit by digit.
pub proof fn lemma_digits_val_take_ge(s: Seq<u8>, i: int)
    requires
        0 <= i <= s.len(),
        all_digits(s),
    ensures
        digits_val(s) >= digits_val(s.take(i)),
    decreases s.len() - i,
{
    if i == s.len() {
        assert(s.take(i) =~= s);
    } else {
        let t = s.take(i + 1);
        assert(all_digits(s.take(i))) by {
            assert(forall|j: int| 0 <= j < i ==> s.take(i)[j] == s[j]);
        }
        lemma_digits_val_nonneg(s.take(i));
        assert(t.drop_last() =~= s.take(i));
        assert(t.last() == s[i]);
        assert(is_digit(s[i]));
        assert(digits_val(t) == digits_val(s.take(i)) * 10 + s[i] - 48);
        assert(digits_val(t) >= digits_val(s.take(i)));
        lemma_digits_val_take_ge(s, i + 1);
    }
}

/// The value of a digit sequence is never negative.
pub proof fn lemma_digits_val_nonneg(s: Seq<u8>)
    requires
        all_digits(s),
    ensures
        digits_val(s) >= 0,
    decreases s.len(),
{
    if s.len() > 0 {
        assert(all_digits(s.drop_last())) by {
            assert(forall|i: int| 0 <= i < s.len() - 1 ==> s.drop_last()[i] == s[i]);
        }
        lemma_digits_val_nonneg(s.drop_last());
        assert(is_digit(s.last()));
    }
}

/// Round-trip law for the counter codec: parsing the rendering of any count
/// yields that count.
pub proof fn lemma_counter_round_trip(n: u64)
    ensures
        counter_parse_spec(counter_rendering(n)) == Some(n),
{
    let d = counter_rendering(n);
    let rep = dec_rep(n as nat);
    lemma_dec_rep_wf(n as nat);
    lemma_digits_val_of_dec_rep(n as nat);
    assert(d.len() == 9 + rep.len());
    assert(d.subrange(0, 8) =~= key_prefix());
    assert(d.last() == 10u8);
    assert(d.subrange(8, d.len() - 1) =~= rep);
}

/// The prefix `value = ` as an executable byte vector.
fn key_prefix_bytes() -> (r: Vec<u8>)
    ensures
        r@ == key_prefix(),
{
    let mut v: Vec<u8> = Vec::new();
    v.push(118);
    v.push(97);
    v.push(108);
    v.push(117);
    v.push(101);
    v.push(32);
    v.push(61);
    v.push(32);
    proof {
        assert(v@ =~= key_prefix());
    }
    v
}

/// Appends the canonical decimal numeral of `n` to `out`.
fn push_dec(n: u64, out: &mut Vec<u8>)
    ensures
        final(out)@ == old(out)@ + dec_rep(n as nat),
    decreases n,
{
    if n < 10 {
        out.push((48 + n) as u8);
        proof {
            assert(out@ =~= old(out)@ + dec_rep(n as nat));
        }
    } else {
        push_dec(n / 10, out);
        out.push((48 + n % 10) as u8);
        proof {
            assert(out@ =~= old(out)@ + dec_rep(n as nat));
        }
    }
}

impl Saveable for u64 {
    open spec fn default_spec() -> u64 {
        0
    }

    open spec fn renderable(&self) -> bool {
        true
    }

    open spec fn rendering(&self) -> Seq<u8> {
        counter_rendering(*self)
    }

    open spec fn parse_spec(data: Seq<u8>) -> Option<u64> {
        counter_parse_spec(data)
    }

    proof fn lemma_parse_of_rendering(v: u64) {
        lemma_counter_round_trip(v);
    }

    fn default_value() -> (r: u64) {
        0
    }

    fn duplicate(&self) -> (r: u64) {
        *self
    }

    fn render(&self) -> (r: Result<Vec<u8>, StateError>) {
        let mut out = key_prefix_bytes();
        push_dec(*self, &mut out);
        out.push(10);
        proof {
            assert(out@ =~= counter_rendering(*self));
        }
        Ok(out)
    }

    fn parse(data: &Vec<u8>) -> (r: Option<u64>) {
        if data.len() < 10 {
            return None;
        }
        let prefix = key_prefix_bytes();
        let mut i: usize = 0;
        while i < 8
            invariant
                0 <= i <= 8,
                data@.len() >= 10,
                prefix@ == key_prefix(),
                forall|j: int| 0 <= j < i ==> data@[j] == key_prefix()[j],
            decreases 8 - i,
        {
            if data[i] != prefix[i] {
                proof {
                    assert(data@.subrange(0, 8)[i as int] != key_prefix()[i as int]);
                }
                return None;
            }
            i += 1;
        }
        proof {
            assert(data@.subrange(0, 8) =~= key_prefix());
        }
        let end: usize = data.len() - 1;
        if data[end] != 10 {
            return None;
        }
        if end > 9 && data[8] == 48 {
            proof {
                let s = data@.subrange(8, end as int);
                assert(s[0] == data@[8]);
                assert(s.len() > 1);
                assert(!canonical_digits(s));
            }
            return None;
        }
        let mut acc: u64 = 0;
        let mut k: usize = 8;
        while k < end
            invariant
                8 <= k <= end,
                end == data@.len() - 1,
                data@.len() >= 10,
                data@.subrange(0, 8) == key_prefix(),
                data@.last() == 10u8,
                end > 9 ==> data@[8] != 48,
                forall|j: int| 8 <= j < k ==> is_digit(#[trigger] data@[j]),
                acc == digits_val(data@.subrange(8, end as int).take(k - 8)),
            decreases end - k,
        {
            let ghost s = data@.subrange(8, end as int);
            let b = data[k];
            if b < 48 || b > 57 {
                proof {
                    assert(s[k - 8] == data@[k as int]);
                    assert(!is_digit(s[k - 8]));
                    assert(!all_digits(s));
                }
                return None;
            }
            let d = (b - 48) as u64;
            proof {
                let t = s.take(k - 8 + 1);
                assert(t.drop_last() =~= s.take(k - 8));
                assert(t.last() == data@[k as int]);
                assert(digits_val(t) == acc * 10 + d);
            }
            if acc > (u64::MAX - d) / 10 {
                proof {
                    let m = (u64::MAX - d) as int;
                    lemma_fundamental_div_mod(m, 10);
                    assert(acc * 10 + d > u64::MAX);
                    let t = s.take(k - 8 + 1);
                    assert(digits_val(t) > u64::MAX);
                    if all_digits(s) {
                        lemma_digits_val_take_ge(s, k - 8 + 1);
                        assert(digits_val(s) > u64::MAX);
                    }
                }
                return None;
            }
            acc = acc * 10 + d;
            k += 1;
            proof {
                assert(s.take(k - 8).drop_last() =~= s.take(k - 8 - 1));
            }
        }
        proof {
            let s = data@.subrange(8, end as int);
            assert(s.take(end - 8) =~= s);
            assert(acc == digits_val(s));
            assert(s.len() > 0);
            assert(forall|j: int| 0 <= j < s.len() ==> s[j] == data@[8 + j]);
            assert(all_digits(s));
            assert(canonical_digits(s));
            assert(counter_parse_spec(data@) == Some(acc));
        }
        Some(acc)
    }
}

} // verus!
