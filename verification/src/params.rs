//! The persisted-parameters record: a pulse train serialized to and
//! parsed from its JSON object, byte for byte.
//!
//! The encoder emits one canonical form; the parser accepts exactly the
//! canonical encodings, and its contract guarantees that parsing an
//! encoding yields the encoded train again.

use crate::pulsed::PulseTrain;
use crate::utils::Error;
use vstd::prelude::*;

verus! {

/// An ASCII decimal digit.
pub open spec fn is_digit(b: u8) -> bool {
    48 <= b <= 57
}

/// The decimal digits of a nonnegative number, most significant first.
pub open spec fn spec_digits(n: int) -> Seq<u8>
    decreases n,
{
    if n < 10 {
        seq![(48 + if n >= 0 { n } else { 0 }) as u8]
    } else {
        spec_digits(n / 10).push((48 + n % 10) as u8)
    }
}

/// The number a digit string denotes.
pub open spec fn spec_val(s: Seq<u8>) -> int
    decreases s.len(),
{
    if s.len() == 0 {
        0
    } else {
        spec_val(s.drop_last()) * 10 + (s.last() - 48)
    }
}

/// Digit strings hold only digits and are never empty.
pub proof fn lemma_digits_are_digits(n: int)
    requires
        n >= 0,
    ensures
        spec_digits(n).len() >= 1,
        forall|i: int| 0 <= i < spec_digits(n).len() ==> is_digit(#[trigger] spec_digits(n)[i]),
    decreases n,
{
    if n >= 10 {
        lemma_digits_are_digits(n / 10);
        assert forall|i: int| 0 <= i < spec_digits(n).len() implies is_digit(
            #[trigger] spec_digits(n)[i],
        ) by {
            if i < spec_digits(n / 10).len() {
                assert(spec_digits(n)[i] == spec_digits(n / 10)[i]);
            } else {
                assert(spec_digits(n)[i] == (48 + n % 10) as u8);
            }
        }
    }
}

/// Rendering then reading a number is the identity.
pub proof fn lemma_digits_value(n: int)
    requires
        n >= 0,
    ensures
        spec_val(spec_digits(n)) == n,
    decreases n,
{
    if n < 10 {
        assert(spec_digits(n).drop_last() =~= Seq::<u8>::empty());
        assert(((48 + n) as u8) as int == 48 + n);
        assert(spec_val(Seq::<u8>::empty()) == 0);
        assert(spec_digits(n).last() == (48 + n) as u8);
        assert(spec_val(spec_digits(n)) == 0 * 10 + (((48 + n) as u8) - 48));
    } else {
        lemma_digits_value(n / 10);
        assert(spec_digits(n).drop_last() =~= spec_digits(n / 10));
        vstd::arithmetic::div_mod::lemma_fundamental_div_mod(n, 10);
        assert(((48 + n % 10) as u8) as int == 48 + n % 10);
        assert(spec_val(spec_digits(n)) == (n / 10) * 10 + (((48 + n % 10) as u8) - 48));
    }
}

/// A digit string's prefixes denote no more than the whole string.
pub proof fn lemma_val_prefix_le(s: Seq<u8>, k: int)
    requires
        0 <= k <= s.len(),
        forall|i: int| 0 <= i < s.len() ==> is_digit(#[trigger] s[i]),
    ensures
        0 <= spec_val(s.subrange(0, k)) <= spec_val(s),
    decreases s.len() - k,
{
    if k == s.len() {
        assert(s.subrange(0, k) =~= s);
        lemma_val_nonneg(s);
    } else {
        lemma_val_prefix_le(s, k + 1);
        let p = s.subrange(0, k + 1);
        assert(p.drop_last() =~= s.subrange(0, k));
        assert(spec_val(p) == spec_val(s.subrange(0, k)) * 10 + (p.last() - 48));
        lemma_val_nonneg(s.subrange(0, k));
        assert(spec_val(s.subrange(0, k)) <= spec_val(s.subrange(0, k)) * 10 + (p.last() - 48))
            by (nonlinear_arith)
            requires
                spec_val(s.subrange(0, k)) >= 0,
                p.last() - 48 >= 0,
        ;
    }
}

/// Digit strings denote nonnegative numbers.
pub proof fn lemma_val_nonneg(s: Seq<u8>)
    requires
        forall|i: int| 0 <= i < s.len() ==> is_digit(#[trigger] s[i]),
    ensures
        spec_val(s) >= 0,
    decreases s.len(),
{
    if s.len() > 0 {
        lemma_val_nonneg(s.drop_last());
        assert(spec_val(s.drop_last()) * 10 >= 0) by (nonlinear_arith)
            requires
                spec_val(s.drop_last()) >= 0,
        ;
    }
}

/// Appends the decimal rendering of a number.
fn push_digits(out: &mut Vec<u8>, n: u64)
    ensures
        final(out)@ == old(out)@ + spec_digits(n as int),
    decreases n,
{
    if n < 10 {
        out.push(48 + (n as u8));
        proof {
            assert(final(out)@ =~= old(out)@ + spec_digits(n as int));
        }
    } else {
        let ghost pre = out@;
        push_digits(out, n / 10);
        out.push(48 + ((n % 10) as u8));
        proof {
            assert(final(out)@ =~= pre + spec_digits(n as int));
        }
    }
}

/// The first digit of a multi-digit rendering is never zero.
pub proof fn lemma_digits_leading(n: int)
    requires
        n >= 10,
    ensures
        spec_digits(n)[0] != 48,
    decreases n,
{
    if n / 10 >= 10 {
        lemma_digits_leading(n / 10);
        assert(spec_digits(n)[0] == spec_digits(n / 10)[0]);
    } else {
        assert(n / 10 >= 1) by {
            vstd::arithmetic::div_mod::lemma_div_is_ordered(10, n, 10);
            vstd::arithmetic::div_mod::lemma_div_multiples_vanish(1, 10);
        }
        assert(spec_digits(n)[0] == spec_digits(n / 10)[0]);
        assert(spec_digits(n / 10) =~= seq![(48 + n / 10) as u8]);
    }
}

/// A digit string without a leading zero is the rendering of its value.
pub proof fn lemma_digits_of_val(s: Seq<u8>)
    requires
        s.len() >= 1,
        forall|i: int| 0 <= i < s.len() ==> is_digit(#[trigger] s[i]),
        s.len() == 1 || s[0] != 48,
    ensures
        spec_digits(spec_val(s)) == s,
    decreases s.len(),
{
    if s.len() == 1 {
        assert(s.drop_last() =~= Seq::<u8>::empty());
        assert(spec_val(Seq::<u8>::empty()) == 0);
        assert(s.last() == s[0]);
        assert(spec_val(s) == s[0] - 48);
        assert(spec_digits(spec_val(s)) =~= s);
    } else {
        let p = s.drop_last();
        lemma_digits_of_val(p);
        lemma_val_nonneg(p);
        assert(spec_val(p) >= 1) by {
            if p.len() == 1 {
                assert(p.drop_last() =~= Seq::<u8>::empty());
                assert(spec_val(Seq::<u8>::empty()) == 0);
                assert(p.last() == p[0]);
                assert(spec_val(p) == p[0] - 48);
                assert(p[0] == s[0]);
            } else {
                assert(p[0] == s[0]);
                lemma_val_positive(p);
            }
        }
        let v = spec_val(s);
        assert(v == spec_val(p) * 10 + (s.last() - 48));
        assert(v >= 10) by (nonlinear_arith)
            requires
                v == spec_val(p) * 10 + (s.last() - 48),
                spec_val(p) >= 1,
                s.last() - 48 >= 0,
        ;
        vstd::arithmetic::div_mod::lemma_fundamental_div_mod_converse_div(
            v,
            10,
            spec_val(p),
            s.last() - 48,
        );
        vstd::arithmetic::div_mod::lemma_fundamental_div_mod_converse_mod(
            v,
            10,
            spec_val(p),
            s.last() - 48,
        );
        assert(spec_digits(v) == spec_digits(spec_val(p)).push((48 + v % 10) as u8));
        assert((48 + v % 10) as u8 == s.last());
        assert(spec_digits(v) =~= s);
    }
}

/// A digit string with a nonzero leading digit denotes a positive
/// number.
pub proof fn lemma_val_positive(s: Seq<u8>)
    requires
        s.len() >= 1,
        forall|i: int| 0 <= i < s.len() ==> is_digit(#[trigger] s[i]),
        s[0] != 48,
    ensures
        spec_val(s) >= 1,
    decreases s.len(),
{
    if s.len() == 1 {
        assert(s.drop_last() =~= Seq::<u8>::empty());
        assert(spec_val(Seq::<u8>::empty()) == 0);
        assert(s.last() == s[0]);
        assert(spec_val(s) == s[0] - 48);
    } else {
        assert(s.drop_last()[0] == s[0]);
        lemma_val_positive(s.drop_last());
        assert(spec_val(s.drop_last()) * 10 >= 10) by (nonlinear_arith)
            requires
                spec_val(s.drop_last()) >= 1,
        ;
    }
}

/// Reads a run of decimal digits starting at `start`.
///
/// Whenever the bytes at `start` are exactly the rendering of some
/// number followed by the input's end or a non-digit, the run is read
/// back as that number with the position just past it.
fn parse_u64_at(bytes: &Vec<u8>, start: usize) -> (r: Option<(u64, usize)>)
    requires
        start <= bytes@.len(),
    ensures
        r matches Some(t) ==> ({
            &&& start < t.1 <= bytes@.len()
            &&& bytes@.subrange(start as int, t.1 as int) == spec_digits(t.0 as int)
            &&& (t.1 == bytes@.len() || !is_digit(bytes@[t.1 as int]))
        }),
        forall|v: u64, end: int|
            start + spec_digits(v as int).len() == end && end <= bytes@.len() && bytes@.subrange(
                start as int,
                end,
            ) == spec_digits(v as int) && (end == bytes@.len() || !is_digit(bytes@[end])) ==> r
                == Some((v, end as usize)),
{
    let len: usize = bytes.len();
    if start >= len || bytes[start] < 48 || bytes[start] > 57 {
        proof {
            assert forall|v: u64, end: int|
                start + spec_digits(v as int).len() == end && end <= bytes@.len()
                    && bytes@.subrange(start as int, end) == spec_digits(v as int) && (end
                    == bytes@.len() || !is_digit(bytes@[end])) implies false by {
                lemma_digits_are_digits(v as int);
                assert(bytes@.subrange(start as int, end)[0] == bytes@[start as int]);
            }
        }
        return None;
    }
    if bytes[start] == 48 && start + 1 < len && 48 <= bytes[start + 1] && bytes[start + 1] <= 57 {
        proof {
            assert forall|v: u64, end: int|
                start + spec_digits(v as int).len() == end && end <= bytes@.len()
                    && bytes@.subrange(start as int, end) == spec_digits(v as int) && (end
                    == bytes@.len() || !is_digit(bytes@[end])) implies false by {
                lemma_digits_are_digits(v as int);
                assert(bytes@.subrange(start as int, end)[0] == bytes@[start as int]);
                if v >= 10 {
                    lemma_digits_leading(v as int);
                } else {
                    assert(spec_digits(v as int).len() == 1);
                    assert(end == start + 1);
                    assert(is_digit(bytes@[end]));
                }
            }
        }
        return None;
    }
    let mut pos: usize = start;
    let mut acc: u64 = 0;
    while pos < len && 48 <= bytes[pos] && bytes[pos] <= 57
        invariant
            start <= pos <= len,
            len == bytes@.len(),
            acc == spec_val(bytes@.subrange(start as int, pos as int)),
            forall|k: int| start <= k < pos ==> is_digit(#[trigger] bytes@[k]),
        decreases len - pos,
    {
        let d: u64 = (bytes[pos] - 48) as u64;
        if acc > (u64::MAX - d) / 10 {
            proof {
                vstd::arithmetic::div_mod::lemma_fundamental_div_mod(
                    (u64::MAX - d) as int,
                    10,
                );
                assert forall|v: u64, end: int|
                    start + spec_digits(v as int).len() == end && end <= bytes@.len()
                        && bytes@.subrange(start as int, end) == spec_digits(v as int) && (end
                        == bytes@.len() || !is_digit(bytes@[end])) implies false by {
                    lemma_digits_are_digits(v as int);
                    lemma_digits_value(v as int);
                    assert(pos < end) by {
                        if end <= pos {
                            assert(is_digit(bytes@[end]));
                        }
                    }
                    lemma_val_prefix_le(spec_digits(v as int), pos + 1 - start);
                    assert(spec_digits(v as int).subrange(0, pos + 1 - start) =~= bytes@.subrange(
                        start as int,
                        pos + 1,
                    ));
                    assert(bytes@.subrange(start as int, pos + 1).drop_last() =~= bytes@.subrange(
                        start as int,
                        pos as int,
                    ));
                    assert(spec_val(bytes@.subrange(start as int, pos + 1)) == acc * 10 + d);
                    assert(acc * 10 + d <= v);
                    assert(acc <= (u64::MAX - d) as int / 10) by {
                        vstd::arithmetic::div_mod::lemma_div_is_ordered(
                            acc as int * 10,
                            (u64::MAX - d) as int,
                            10,
                        );
                        assert((acc as int * 10) / 10 == acc as int) by {
                            vstd::arithmetic::div_mod::lemma_div_by_multiple(acc as int, 10);
                        }
                    }
                }
            }
            return None;
        }
        proof {
            vstd::arithmetic::div_mod::lemma_fundamental_div_mod((u64::MAX - d) as int, 10);
            assert(acc as int * 10 + d <= u64::MAX) by (nonlinear_arith)
                requires
                    acc as int <= ((u64::MAX - d) as int) / 10,
                    (u64::MAX - d) as int == 10 * (((u64::MAX - d) as int) / 10) + ((u64::MAX
                        - d) as int) % 10,
                    ((u64::MAX - d) as int) % 10 >= 0,
                    0 <= d <= 9,
            ;
            assert(bytes@.subrange(start as int, pos + 1).drop_last() =~= bytes@.subrange(
                start as int,
                pos as int,
            ));
        }
        acc = acc * 10 + d;
        pos = pos + 1;
    }
    proof {
        assert forall|v: u64, end: int|
            start + spec_digits(v as int).len() == end && end <= bytes@.len() && bytes@.subrange(
                start as int,
                end,
            ) == spec_digits(v as int) && (end == bytes@.len() || !is_digit(bytes@[end]))
            implies acc == v && end == pos as int by {
            lemma_digits_are_digits(v as int);
            lemma_digits_value(v as int);
            assert forall|k: int| start <= k < end implies is_digit(#[trigger] bytes@[k]) by {
                assert(bytes@.subrange(start as int, end)[k - start] == bytes@[k]);
            }
            assert(end == pos as int) by {
                if end < pos {
                    assert(is_digit(bytes@[end]));
                } else if end > pos {
                    assert(is_digit(bytes@[pos as int]));
                    assert(pos < len);
                }
            }
            assert(bytes@.subrange(start as int, pos as int) == spec_digits(v as int));
        }
        let run = bytes@.subrange(start as int, pos as int);
        assert(run.len() >= 1);
        assert forall|k: int| 0 <= k < run.len() implies is_digit(#[trigger] run[k]) by {
            assert(run[k] == bytes@[start + k]);
        }
        assert(run.len() == 1 || run[0] != 48) by {
            if run.len() >= 2 && run[0] == 48 {
                assert(is_digit(bytes@[start + 1]));
            }
        }
        lemma_digits_of_val(run);
        assert(spec_val(run) == acc);
    }
    Some((acc, pos))
}

/// The bytes of a signed number: a minus sign where it is negative,
/// then the magnitude's digits.
pub open spec fn spec_i64_bytes(v: int) -> Seq<u8> {
    if v < 0 {
        seq![45u8] + spec_digits(-v)
    } else {
        spec_digits(v)
    }
}

/// Appends the signed rendering of a number.
fn push_i64(out: &mut Vec<u8>, v: i64)
    ensures
        final(out)@ == old(out)@ + spec_i64_bytes(v as int),
{
    if v < 0 {
        let ghost pre = out@;
        out.push(45);
        let magnitude: u64 = if v == i64::MIN {
            9223372036854775808u64
        } else {
            (-v) as u64
        };
        push_digits(out, magnitude);
        proof {
            assert(final(out)@ =~= pre + spec_i64_bytes(v as int));
        }
    } else {
        push_digits(out, v as u64);
    }
}

/// Reads a signed number starting at `start`: an optional minus sign
/// and a digit run, rejecting a signed zero and anything outside the
/// signed word.
fn parse_i64_at(bytes: &Vec<u8>, start: usize) -> (r: Option<(i64, usize)>)
    requires
        start <= bytes@.len(),
    ensures
        r matches Some(t) ==> ({
            &&& start < t.1 <= bytes@.len()
            &&& bytes@.subrange(start as int, t.1 as int) == spec_i64_bytes(t.0 as int)
            &&& (t.1 == bytes@.len() || !is_digit(bytes@[t.1 as int]))
        }),
        forall|v: i64, end: int|
            start + spec_i64_bytes(v as int).len() == end && end <= bytes@.len()
                && bytes@.subrange(start as int, end) == spec_i64_bytes(v as int) && (end
                == bytes@.len() || !is_digit(bytes@[end])) ==> r == Some((v, end as usize)),
{
    let len: usize = bytes.len();
    if start < len && bytes[start] == 45 {
        let inner = parse_u64_at(bytes, start + 1);
        proof {
            assert forall|v: i64, end: int|
                start + spec_i64_bytes(v as int).len() == end && end <= bytes@.len()
                    && bytes@.subrange(start as int, end) == spec_i64_bytes(v as int) && (end
                    == bytes@.len() || !is_digit(bytes@[end])) implies (v < 0 && inner == Some(
                (((-(v as int)) as u64), end as usize),
            )) by {
                if v >= 0 {
                    lemma_digits_are_digits(v as int);
                    assert(bytes@.subrange(start as int, end)[0] == bytes@[start as int]);
                    assert(spec_i64_bytes(v as int)[0] == 45);
                    assert(!is_digit(45u8));
                } else {
                    let m = -(v as int);
                    lemma_digits_are_digits(m);
                    assert(bytes@.subrange(start + 1, end) =~= spec_digits(m)) by {
                        assert forall|k: int|
                            0 <= k < end - start - 1 implies bytes@.subrange(start + 1, end)[k]
                            == spec_digits(m)[k] by {
                            assert(bytes@.subrange(start as int, end)[k + 1] == spec_digits(
                                m,
                            )[k]);
                        }
                    }
                    assert(((-(v as int)) as u64) as int == m);
                }
            }
        }
        match inner {
            Some((magnitude, end)) => {
                if magnitude == 0 {
                    proof {
                        assert forall|v: i64, end2: int|
                            start + spec_i64_bytes(v as int).len() == end2 && end2
                                <= bytes@.len() && bytes@.subrange(start as int, end2)
                                == spec_i64_bytes(v as int) && (end2 == bytes@.len()
                                || !is_digit(bytes@[end2])) implies false by {
                            assert(v < 0);
                            assert((((-(v as int)) as u64) as int) == -(v as int));
                        }
                    }
                    return None;
                }
                if magnitude > 9223372036854775808u64 {
                    proof {
                        assert forall|v: i64, end2: int|
                            start + spec_i64_bytes(v as int).len() == end2 && end2
                                <= bytes@.len() && bytes@.subrange(start as int, end2)
                                == spec_i64_bytes(v as int) && (end2 == bytes@.len()
                                || !is_digit(bytes@[end2])) implies false by {
                            assert(v < 0);
                        }
                    }
                    return None;
                }
                let value: i64 = if magnitude == 9223372036854775808u64 {
                    i64::MIN
                } else {
                    -(magnitude as i64)
                };
                proof {
                    assert(bytes@.subrange(start as int, end as int) =~= spec_i64_bytes(
                        value as int,
                    )) by {
                        assert(bytes@.subrange(start + 1, end as int) == spec_digits(
                            magnitude as int,
                        ));
                        assert forall|k: int|
                            0 <= k < end - start implies bytes@.subrange(start as int, end as int)[k]
                            == spec_i64_bytes(value as int)[k] by {
                            if k >= 1 {
                                assert(bytes@.subrange(start + 1, end as int)[k - 1]
                                    == spec_digits(magnitude as int)[k - 1]);
                            }
                        }
                    }
                }
                Some((value, end))
            },
            None => {
                None
            },
        }
    } else {
        let inner = parse_u64_at(bytes, start);
        proof {
            assert forall|v: i64, end: int|
                start + spec_i64_bytes(v as int).len() == end && end <= bytes@.len()
                    && bytes@.subrange(start as int, end) == spec_i64_bytes(v as int) && (end
                    == bytes@.len() || !is_digit(bytes@[end])) implies (v >= 0 && inner == Some(
                ((v as u64), end as usize),
            )) by {
                if v < 0 {
                    assert(spec_i64_bytes(v as int)[0] == 45);
                    assert(bytes@.subrange(start as int, end)[0] == bytes@[start as int]);
                    assert(start < end);
                }
            }
        }
        match inner {
            Some((magnitude, end)) => {
                if magnitude > 9223372036854775807u64 {
                    proof {
                        assert forall|v: i64, end2: int|
                            start + spec_i64_bytes(v as int).len() == end2 && end2
                                <= bytes@.len() && bytes@.subrange(start as int, end2)
                                == spec_i64_bytes(v as int) && (end2 == bytes@.len()
                                || !is_digit(bytes@[end2])) implies false by {
                            assert(v >= 0);
                        }
                    }
                    return None;
                }
                Some((magnitude as i64, end))
            },
            None => {
                None
            },
        }
    }
}

/// The record bytes `{"nPulses":`.
pub open spec fn spec_lit_open() -> Seq<u8> {
    seq![123u8, 34u8, 110u8, 80u8, 117u8, 108u8, 115u8, 101u8, 115u8, 34u8, 58u8]
}

/// Builds the record bytes `{"nPulses":`.
fn lit_open() -> (r: Vec<u8>)
    ensures
        r@ == spec_lit_open(),
{
    let mut v: Vec<u8> = Vec::new();
    v.push(123);
    v.push(34);
    v.push(110);
    v.push(80);
    v.push(117);
    v.push(108);
    v.push(115);
    v.push(101);
    v.push(115);
    v.push(34);
    v.push(58);
    proof {
        assert(v@ =~= spec_lit_open());
    }
    v
}

/// The record bytes `,"dutyCycle":`.
pub open spec fn spec_lit_duty() -> Seq<u8> {
    seq![44u8, 34u8, 100u8, 117u8, 116u8, 121u8, 67u8, 121u8, 99u8, 108u8, 101u8, 34u8, 58u8]
}

/// Builds the record bytes `,"dutyCycle":`.
fn lit_duty() -> (r: Vec<u8>)
    ensures
        r@ == spec_lit_duty(),
{
    let mut v: Vec<u8> = Vec::new();
    v.push(44);
    v.push(34);
    v.push(100);
    v.push(117);
    v.push(116);
    v.push(121);
    v.push(67);
    v.push(121);
    v.push(99);
    v.push(108);
    v.push(101);
    v.push(34);
    v.push(58);
    proof {
        assert(v@ =~= spec_lit_duty());
    }
    v
}

/// The record bytes `,"cycleTime":`.
pub open spec fn spec_lit_cycle() -> Seq<u8> {
    seq![44u8, 34u8, 99u8, 121u8, 99u8, 108u8, 101u8, 84u8, 105u8, 109u8, 101u8, 34u8, 58u8]
}

/// Builds the record bytes `,"cycleTime":`.
fn lit_cycle() -> (r: Vec<u8>)
    ensures
        r@ == spec_lit_cycle(),
{
    let mut v: Vec<u8> = Vec::new();
    v.push(44);
    v.push(34);
    v.push(99);
    v.push(121);
    v.push(99);
    v.push(108);
    v.push(101);
    v.push(84);
    v.push(105);
    v.push(109);
    v.push(101);
    v.push(34);
    v.push(58);
    proof {
        assert(v@ =~= spec_lit_cycle());
    }
    v
}

/// The record bytes `,"vHigh":`.
pub open spec fn spec_lit_vhigh() -> Seq<u8> {
    seq![44u8, 34u8, 118u8, 72u8, 105u8, 103u8, 104u8, 34u8, 58u8]
}

/// Builds the record bytes `,"vHigh":`.
fn lit_vhigh() -> (r: Vec<u8>)
    ensures
        r@ == spec_lit_vhigh(),
{
    let mut v: Vec<u8> = Vec::new();
    v.push(44);
    v.push(34);
    v.push(118);
    v.push(72);
    v.push(105);
    v.push(103);
    v.push(104);
    v.push(34);
    v.push(58);
    proof {
        assert(v@ =~= spec_lit_vhigh());
    }
    v
}

/// The record bytes `,"vLow":`.
pub open spec fn spec_lit_vlow() -> Seq<u8> {
    seq![44u8, 34u8, 118u8, 76u8, 111u8, 119u8, 34u8, 58u8]
}

/// Builds the record bytes `,"vLow":`.
fn lit_vlow() -> (r: Vec<u8>)
    ensures
        r@ == spec_lit_vlow(),
{
    let mut v: Vec<u8> = Vec::new();
    v.push(44);
    v.push(34);
    v.push(118);
    v.push(76);
    v.push(111);
    v.push(119);
    v.push(34);
    v.push(58);
    proof {
        assert(v@ =~= spec_lit_vlow());
    }
    v
}

/// The record bytes `}`.
pub open spec fn spec_lit_close() -> Seq<u8> {
    seq![125u8]
}

/// Builds the record bytes `}`.
fn lit_close() -> (r: Vec<u8>)
    ensures
        r@ == spec_lit_close(),
{
    let mut v: Vec<u8> = Vec::new();
    v.push(125);
    proof {
        assert(v@ =~= spec_lit_close());
    }
    v
}

/// The canonical JSON object of a pulse train, in field order.
pub open spec fn spec_pulse_train_json(pt: PulseTrain) -> Seq<u8> {
    spec_lit_open() + spec_digits(pt.n_pulses as int) + spec_lit_duty() + spec_i64_bytes(
        pt.duty_cycle as int,
    ) + spec_lit_cycle() + spec_i64_bytes(pt.cycle_time as int) + spec_lit_vhigh()
        + spec_i64_bytes(pt.v_high as int) + spec_lit_vlow() + spec_i64_bytes(pt.v_low as int)
        + spec_lit_close()
}

/// Serializes a pulse train to the persisted-parameters JSON.
pub fn encode_pulse_train(pt: &PulseTrain) -> (out: Vec<u8>)
    ensures
        out@ == spec_pulse_train_json(*pt),
{
    let mut out: Vec<u8> = Vec::new();
    let mut piece = lit_open();
    out.append(&mut piece);
    push_digits(&mut out, pt.n_pulses as u64);
    let mut piece = lit_duty();
    out.append(&mut piece);
    push_i64(&mut out, pt.duty_cycle);
    let mut piece = lit_cycle();
    out.append(&mut piece);
    push_i64(&mut out, pt.cycle_time);
    let mut piece = lit_vhigh();
    out.append(&mut piece);
    push_i64(&mut out, pt.v_high);
    let mut piece = lit_vlow();
    out.append(&mut piece);
    push_i64(&mut out, pt.v_low);
    let mut piece = lit_close();
    out.append(&mut piece);
    proof {
        assert(out@ =~= spec_pulse_train_json(*pt));
    }
    out
}

/// Compares the bytes at `pos` against a literal.
fn match_lit(bytes: &Vec<u8>, pos: usize, lit: &Vec<u8>) -> (r: Option<usize>)
    requires
        pos <= bytes@.len(),
    ensures
        r matches Some(end) ==> end as int == pos + lit@.len() && end <= bytes@.len()
            && bytes@.subrange(pos as int, end as int) == lit@,
        r is None ==> !(pos + lit@.len() <= bytes@.len() && bytes@.subrange(
            pos as int,
            pos + lit@.len(),
        ) == lit@),
{
    if bytes.len() - pos < lit.len() {
        return None;
    }
    let mut i: usize = 0;
    while i < lit.len()
        invariant
            pos + lit@.len() <= bytes@.len(),
            bytes@.len() <= usize::MAX,
            0 <= i <= lit@.len(),
            forall|k: int| 0 <= k < i ==> bytes@[pos + k] == lit@[k],
        decreases lit@.len() - i,
    {
        proof {
            assert(pos + i < bytes@.len());
        }
        if bytes[pos + i] != lit[i] {
            proof {
                assert(bytes@.subrange(pos as int, pos + lit@.len())[i as int] == bytes@[pos
                    + i]);
            }
            return None;
        }
        i = i + 1;
    }
    proof {
        assert(bytes@.subrange(pos as int, pos + lit@.len()) =~= lit@);
    }
    Some(pos + lit.len())
}

/// How a canonical record splits into its literals and value runs, with
/// a non-digit byte bounding every run.
#[verifier::rlimit(100)]
proof fn lemma_json_decomposition(pt: PulseTrain, bytes: Seq<u8>)
    requires
        bytes == spec_pulse_train_json(pt),
    ensures
        ({
            let ln = spec_digits(pt.n_pulses as int).len() as int;
            let ld = spec_i64_bytes(pt.duty_cycle as int).len() as int;
            let lc = spec_i64_bytes(pt.cycle_time as int).len() as int;
            let lh = spec_i64_bytes(pt.v_high as int).len() as int;
            let ll = spec_i64_bytes(pt.v_low as int).len() as int;
            &&& bytes.len() == 55 + ln + ld + lc + lh + ll
            &&& bytes.subrange(0, 11) == spec_lit_open()
            &&& bytes.subrange(11, 11 + ln) == spec_digits(pt.n_pulses as int)
            &&& bytes[11 + ln] == 44
            &&& bytes.subrange(11 + ln, 24 + ln) == spec_lit_duty()
            &&& bytes.subrange(24 + ln, 24 + ln + ld) == spec_i64_bytes(pt.duty_cycle as int)
            &&& bytes[24 + ln + ld] == 44
            &&& bytes.subrange(24 + ln + ld, 37 + ln + ld) == spec_lit_cycle()
            &&& bytes.subrange(37 + ln + ld, 37 + ln + ld + lc) == spec_i64_bytes(
                pt.cycle_time as int,
            )
            &&& bytes[37 + ln + ld + lc] == 44
            &&& bytes.subrange(37 + ln + ld + lc, 46 + ln + ld + lc) == spec_lit_vhigh()
            &&& bytes.subrange(46 + ln + ld + lc, 46 + ln + ld + lc + lh) == spec_i64_bytes(
                pt.v_high as int,
            )
            &&& bytes[46 + ln + ld + lc + lh] == 44
            &&& bytes.subrange(46 + ln + ld + lc + lh, 54 + ln + ld + lc + lh)
                == spec_lit_vlow()
            &&& bytes.subrange(54 + ln + ld + lc + lh, 54 + ln + ld + lc + lh + ll)
                == spec_i64_bytes(pt.v_low as int)
            &&& bytes[54 + ln + ld + lc + lh + ll] == 125
        }),
{
    let ln = spec_digits(pt.n_pulses as int).len() as int;
    let ld = spec_i64_bytes(pt.duty_cycle as int).len() as int;
    let lc = spec_i64_bytes(pt.cycle_time as int).len() as int;
    let lh = spec_i64_bytes(pt.v_high as int).len() as int;
    let ll = spec_i64_bytes(pt.v_low as int).len() as int;
    assert(bytes.subrange(0, 11) =~= spec_lit_open());
    assert(bytes.subrange(11, 11 + ln) =~= spec_digits(pt.n_pulses as int));
    assert(bytes.subrange(11 + ln, 24 + ln) =~= spec_lit_duty());
    assert(bytes.subrange(24 + ln, 24 + ln + ld) =~= spec_i64_bytes(pt.duty_cycle as int));
    assert(bytes.subrange(24 + ln + ld, 37 + ln + ld) =~= spec_lit_cycle());
    assert(bytes.subrange(37 + ln + ld, 37 + ln + ld + lc) =~= spec_i64_bytes(
        pt.cycle_time as int,
    ));
    assert(bytes.subrange(37 + ln + ld + lc, 46 + ln + ld + lc) =~= spec_lit_vhigh());
    assert(bytes.subrange(46 + ln + ld + lc, 46 + ln + ld + lc + lh) =~= spec_i64_bytes(
        pt.v_high as int,
    ));
    assert(bytes.subrange(46 + ln + ld + lc + lh, 54 + ln + ld + lc + lh) =~= spec_lit_vlow());
    assert(bytes.subrange(54 + ln + ld + lc + lh, 54 + ln + ld + lc + lh + ll)
        =~= spec_i64_bytes(pt.v_low as int));
    assert(bytes[11 + ln] == bytes.subrange(11 + ln, 24 + ln)[0]);
    assert(bytes[24 + ln + ld] == bytes.subrange(24 + ln + ld, 37 + ln + ld)[0]);
    assert(bytes[37 + ln + ld + lc] == bytes.subrange(37 + ln + ld + lc, 46 + ln + ld + lc)[0]);
    assert(bytes[46 + ln + ld + lc + lh] == bytes.subrange(
        46 + ln + ld + lc + lh,
        54 + ln + ld + lc + lh,
    )[0]);
    assert(bytes[54 + ln + ld + lc + lh + ll] == spec_lit_close()[0]);
}



/// The record's total length in terms of its five value runs.
pub open spec fn spec_json_len(pt: PulseTrain) -> int {
    55 + spec_digits(pt.n_pulses as int).len() as int + spec_i64_bytes(
        pt.duty_cycle as int,
    ).len() as int + spec_i64_bytes(pt.cycle_time as int).len() as int + spec_i64_bytes(
        pt.v_high as int,
    ).len() as int + spec_i64_bytes(pt.v_low as int).len() as int
}

/// Where the pulse-count run of a canonical record sits.
proof fn lemma_json_at_n(pt: PulseTrain, bytes: Seq<u8>)
    requires
        bytes == spec_pulse_train_json(pt),
    ensures
        bytes.len() == spec_json_len(pt),
        bytes.subrange(0, 11) == spec_lit_open(),
        bytes.subrange(11, 11 + spec_digits(pt.n_pulses as int).len() as int) == spec_digits(
            pt.n_pulses as int,
        ),
        bytes[11 + spec_digits(pt.n_pulses as int).len() as int] == 44,
{
    lemma_json_decomposition(pt, bytes);
}

/// Where the duty-cycle run of a canonical record sits.
proof fn lemma_json_at_duty(pt: PulseTrain, bytes: Seq<u8>)
    requires
        bytes == spec_pulse_train_json(pt),
    ensures
        ({
            let ln = spec_digits(pt.n_pulses as int).len() as int;
            let ld = spec_i64_bytes(pt.duty_cycle as int).len() as int;
            &&& bytes.len() == spec_json_len(pt)
            &&& bytes.subrange(11 + ln, 24 + ln) == spec_lit_duty()
            &&& bytes.subrange(24 + ln, 24 + ln + ld) == spec_i64_bytes(pt.duty_cycle as int)
            &&& bytes[24 + ln + ld] == 44
        }),
{
    lemma_json_decomposition(pt, bytes);
}

/// Where the cycle-time run of a canonical record sits.
proof fn lemma_json_at_cycle(pt: PulseTrain, bytes: Seq<u8>)
    requires
        bytes == spec_pulse_train_json(pt),
    ensures
        ({
            let ln = spec_digits(pt.n_pulses as int).len() as int;
            let ld = spec_i64_bytes(pt.duty_cycle as int).len() as int;
            let lc = spec_i64_bytes(pt.cycle_time as int).len() as int;
            &&& bytes.len() == spec_json_len(pt)
            &&& bytes.subrange(24 + ln + ld, 37 + ln + ld) == spec_lit_cycle()
            &&& bytes.subrange(37 + ln + ld, 37 + ln + ld + lc) == spec_i64_bytes(
                pt.cycle_time as int,
            )
            &&& bytes[37 + ln + ld + lc] == 44
        }),
{
    lemma_json_decomposition(pt, bytes);
}

/// Where the high-voltage run of a canonical record sits.
proof fn lemma_json_at_vhigh(pt: PulseTrain, bytes: Seq<u8>)
    requires
        bytes == spec_pulse_train_json(pt),
    ensures
        ({
            let ln = spec_digits(pt.n_pulses as int).len() as int;
            let ld = spec_i64_bytes(pt.duty_cycle as int).len() as int;
            let lc = spec_i64_bytes(pt.cycle_time as int).len() as int;
            let lh = spec_i64_bytes(pt.v_high as int).len() as int;
            &&& bytes.len() == spec_json_len(pt)
            &&& bytes.subrange(37 + ln + ld + lc, 46 + ln + ld + lc) == spec_lit_vhigh()
            &&& bytes.subrange(46 + ln + ld + lc, 46 + ln + ld + lc + lh) == spec_i64_bytes(
                pt.v_high as int,
            )
            &&& bytes[46 + ln + ld + lc + lh] == 44
        }),
{
    lemma_json_decomposition(pt, bytes);
}

/// Where the low-voltage run of a canonical record sits.
proof fn lemma_json_at_vlow(pt: PulseTrain, bytes: Seq<u8>)
    requires
        bytes == spec_pulse_train_json(pt),
    ensures
        ({
            let ln = spec_digits(pt.n_pulses as int).len() as int;
            let ld = spec_i64_bytes(pt.duty_cycle as int).len() as int;
            let lc = spec_i64_bytes(pt.cycle_time as int).len() as int;
            let lh = spec_i64_bytes(pt.v_high as int).len() as int;
            let ll = spec_i64_bytes(pt.v_low as int).len() as int;
            &&& bytes.len() == spec_json_len(pt)
            &&& bytes.subrange(46 + ln + ld + lc + lh, 54 + ln + ld + lc + lh)
                == spec_lit_vlow()
            &&& bytes.subrange(54 + ln + ld + lc + lh, 54 + ln + ld + lc + lh + ll)
                == spec_i64_bytes(pt.v_low as int)
            &&& bytes[54 + ln + ld + lc + lh + ll] == 125
        }),
{
    lemma_json_decomposition(pt, bytes);
}

/// Byte-for-byte equality of two buffers.
fn bytes_eq(a: &Vec<u8>, b: &Vec<u8>) -> (r: bool)
    ensures
        r <==> a@ == b@,
{
    if a.len() != b.len() {
        proof {
            assert(a@.len() != b@.len());
        }
        return false;
    }
    let mut i: usize = 0;
    while i < a.len()
        invariant
            0 <= i <= a@.len(),
            a@.len() == b@.len(),
            forall|k: int| 0 <= k < i ==> a@[k] == b@[k],
        decreases a@.len() - i,
    {
        if a[i] != b[i] {
            return false;
        }
        i = i + 1;
    }
    proof {
        assert(a@ =~= b@);
    }
    true
}

/// Parses the persisted-parameters JSON back into a pulse train.
///
/// Exactly the canonical encodings are accepted, and parsing the
/// encoding of a train yields that train again: for every train whose
/// encoding equals the input, the result is that train.
/// Reads the record's head: the opening literal, the pulse count, the
/// duty-cycle run and the literal that follows it. On a canonical
/// record it yields the encoded head values and stops exactly before
/// the cycle-time run.
#[verifier::rlimit(100)]
fn parse_front(bytes: &Vec<u8>) -> (r: Option<(u64, i64, usize)>)
    ensures
        r matches Some(t) ==> t.2 <= bytes@.len(),
        forall|pt: PulseTrain|
            bytes@ == spec_pulse_train_json(pt) ==> r == Some(
                (
                    pt.n_pulses as u64,
                    pt.duty_cycle,
                    (37 + spec_digits(pt.n_pulses as int).len() + spec_i64_bytes(
                        pt.duty_cycle as int,
                    ).len()) as usize,
                ),
            ),
{
    let l_open = lit_open();
    let l_duty = lit_duty();
    let l_cycle = lit_cycle();
    let r1 = match_lit(bytes, 0, &l_open);
    proof {
        assert forall|pt: PulseTrain| bytes@ == spec_pulse_train_json(pt) implies r1 == Some(
            11usize,
        ) by {
            lemma_json_at_n(pt, bytes@);
        }
    }
    let p1: usize = match r1 {
        Some(p) => p,
        None => {
            return None;
        },
    };
    let r2 = parse_u64_at(bytes, p1);
    proof {
        assert forall|pt: PulseTrain| bytes@ == spec_pulse_train_json(pt) implies (r2 matches Some(
            t,
        ) && t.0 == pt.n_pulses as u64 && t.1 as int == 11 + spec_digits(
            pt.n_pulses as int,
        ).len()) by {
            lemma_json_at_n(pt, bytes@);
            assert((pt.n_pulses as u64) as int == pt.n_pulses as int);
        }
    }
    let (n_val, p2) = match r2 {
        Some(t) => t,
        None => {
            return None;
        },
    };
    let r3 = match_lit(bytes, p2, &l_duty);
    proof {
        assert forall|pt: PulseTrain| bytes@ == spec_pulse_train_json(pt) implies (r3 matches Some(
            e,
        ) && e as int == 24 + spec_digits(pt.n_pulses as int).len()) by {
            lemma_json_at_duty(pt, bytes@);
        }
    }
    let p3: usize = match r3 {
        Some(p) => p,
        None => {
            return None;
        },
    };
    let r4 = parse_i64_at(bytes, p3);
    proof {
        assert forall|pt: PulseTrain| bytes@ == spec_pulse_train_json(pt) implies (r4 matches Some(
            t,
        ) && t.0 == pt.duty_cycle && t.1 as int == 24 + spec_digits(pt.n_pulses as int).len()
            + spec_i64_bytes(pt.duty_cycle as int).len()) by {
            lemma_json_at_duty(pt, bytes@);
        }
    }
    let (d_val, p4) = match r4 {
        Some(t) => t,
        None => {
            return None;
        },
    };
    let r5 = match_lit(bytes, p4, &l_cycle);
    proof {
        assert forall|pt: PulseTrain| bytes@ == spec_pulse_train_json(pt) implies (r5 matches Some(
            e,
        ) && e as int == 37 + spec_digits(pt.n_pulses as int).len() + spec_i64_bytes(
            pt.duty_cycle as int,
        ).len()) by {
            lemma_json_at_cycle(pt, bytes@);
        }
    }
    let p5: usize = match r5 {
        Some(p) => p,
        None => {
            return None;
        },
    };
    Some((n_val, d_val, p5))
}

/// Reads the record's tail from the start of the cycle-time run: the
/// three signed values and their literals. On a canonical record
/// entered at the right position it yields the encoded tail values.
#[verifier::rlimit(100)]
fn parse_back(bytes: &Vec<u8>, start: usize) -> (r: Option<(i64, i64, i64)>)
    requires
        start <= bytes@.len(),
        forall|pt: PulseTrain|
            bytes@ == spec_pulse_train_json(pt) ==> start as int == 37 + spec_digits(
                pt.n_pulses as int,
            ).len() + spec_i64_bytes(pt.duty_cycle as int).len(),
    ensures
        forall|pt: PulseTrain|
            bytes@ == spec_pulse_train_json(pt) ==> r == Some(
                (pt.cycle_time, pt.v_high, pt.v_low),
            ),
{
    let l_vhigh = lit_vhigh();
    let l_vlow = lit_vlow();
    let r6 = parse_i64_at(bytes, start);
    proof {
        assert forall|pt: PulseTrain| bytes@ == spec_pulse_train_json(pt) implies (r6 matches Some(
            t,
        ) && t.0 == pt.cycle_time && t.1 as int == 37 + spec_digits(pt.n_pulses as int).len()
            + spec_i64_bytes(pt.duty_cycle as int).len() + spec_i64_bytes(
            pt.cycle_time as int,
        ).len()) by {
            lemma_json_at_cycle(pt, bytes@);
        }
    }
    let (c_val, p6) = match r6 {
        Some(t) => t,
        None => {
            return None;
        },
    };
    let r7 = match_lit(bytes, p6, &l_vhigh);
    proof {
        assert forall|pt: PulseTrain| bytes@ == spec_pulse_train_json(pt) implies (r7 matches Some(
            e,
        ) && e as int == 46 + spec_digits(pt.n_pulses as int).len() + spec_i64_bytes(
            pt.duty_cycle as int,
        ).len() + spec_i64_bytes(pt.cycle_time as int).len()) by {
            lemma_json_at_vhigh(pt, bytes@);
        }
    }
    let p7: usize = match r7 {
        Some(p) => p,
        None => {
            return None;
        },
    };
    let r8 = parse_i64_at(bytes, p7);
    proof {
        assert forall|pt: PulseTrain| bytes@ == spec_pulse_train_json(pt) implies (r8 matches Some(
            t,
        ) && t.0 == pt.v_high && t.1 as int == 46 + spec_digits(pt.n_pulses as int).len()
            + spec_i64_bytes(pt.duty_cycle as int).len() + spec_i64_bytes(
            pt.cycle_time as int,
        ).len() + spec_i64_bytes(pt.v_high as int).len()) by {
            lemma_json_at_vhigh(pt, bytes@);
        }
    }
    let (h_val, p8) = match r8 {
        Some(t) => t,
        None => {
            return None;
        },
    };
    let r9 = match_lit(bytes, p8, &l_vlow);
    proof {
        assert forall|pt: PulseTrain| bytes@ == spec_pulse_train_json(pt) implies (r9 matches Some(
            e,
        ) && e as int == 54 + spec_digits(pt.n_pulses as int).len() + spec_i64_bytes(
            pt.duty_cycle as int,
        ).len() + spec_i64_bytes(pt.cycle_time as int).len() + spec_i64_bytes(
            pt.v_high as int,
        ).len()) by {
            lemma_json_at_vlow(pt, bytes@);
        }
    }
    let p9: usize = match r9 {
        Some(p) => p,
        None => {
            return None;
        },
    };
    let r10 = parse_i64_at(bytes, p9);
    proof {
        assert forall|pt: PulseTrain| bytes@ == spec_pulse_train_json(pt) implies (r10
            matches Some(t) && t.0 == pt.v_low) by {
            lemma_json_at_vlow(pt, bytes@);
        }
    }
    let (low_val, _p10) = match r10 {
        Some(t) => t,
        None => {
            return None;
        },
    };
    Some((c_val, h_val, low_val))
}

/// Parses the persisted-parameters JSON back into a pulse train.
///
/// Exactly the canonical encodings are accepted, and parsing the
/// encoding of a train yields that train again: for every train whose
/// encoding equals the input, the result is that train.
pub fn parse_pulse_train(bytes: &Vec<u8>) -> (r: Result<PulseTrain, Error>)
    ensures
        r matches Ok(pt) ==> bytes@ == spec_pulse_train_json(pt),
        forall|pt: PulseTrain|
            bytes@ == spec_pulse_train_json(pt) ==> r == Ok::<PulseTrain, Error>(pt),
        r matches Err(e) ==> e is BadArguments,
{
    let front = match parse_front(bytes) {
        Some(t) => t,
        None => {
            return Err(Error::BadArguments(String::from_str("malformed record")));
        },
    };
    let (n_val, d_val, p5) = front;
    proof {
        assert forall|pt: PulseTrain| bytes@ == spec_pulse_train_json(pt) implies p5 as int == 37
            + spec_digits(pt.n_pulses as int).len() + spec_i64_bytes(
            pt.duty_cycle as int,
        ).len() by {
            broadcast use vstd::std_specs::vec::axiom_spec_len;

            lemma_json_at_n(pt, bytes@);
            assert(vstd::std_specs::vec::spec_vec_len(bytes) == bytes@.len());
            assert(bytes@.len() <= usize::MAX);
        }
    }
    let back = match parse_back(bytes, p5) {
        Some(t) => t,
        None => {
            return Err(Error::BadArguments(String::from_str("malformed record")));
        },
    };
    let (c_val, h_val, low_val) = back;
    if n_val > usize::MAX as u64 {
        proof {
            assert forall|pt: PulseTrain| bytes@ == spec_pulse_train_json(pt) implies false by {
                assert(pt.n_pulses as u64 <= usize::MAX as u64);
            }
        }
        return Err(Error::BadArguments(String::from_str("malformed record")));
    }
    let candidate = PulseTrain {
        n_pulses: n_val as usize,
        duty_cycle: d_val,
        cycle_time: c_val,
        v_high: h_val,
        v_low: low_val,
    };
    proof {
        assert forall|pt: PulseTrain| bytes@ == spec_pulse_train_json(pt) implies candidate
            == pt by {
            assert((pt.n_pulses as u64) as usize == pt.n_pulses);
        }
    }
    let canon = encode_pulse_train(&candidate);
    if !bytes_eq(bytes, &canon) {
        return Err(Error::BadArguments(String::from_str("malformed record")));
    }
    Ok(candidate)
}

} // verus!
