//! The values of the command line: durations, rates, escaped messages and the
//! made-up payload.

use vstd::prelude::*;

verus! {

pub open spec fn is_digit(b: u8) -> bool {
    48 <= b <= 57
}

/// The number that a string of decimal digits writes.
pub open spec fn decimal_value(d: Seq<u8>) -> nat
    decreases d.len(),
{
    if d.len() == 0 {
        0
    } else {
        decimal_value(d.drop_last()) * 10 + (d.last() - 48) as nat
    }
}

/// How many decimal digits a string starts with.
pub open spec fn leading_digits(s: Seq<u8>) -> nat
    decreases s.len(),
{
    if s.len() > 0 && is_digit(s[0]) {
        1 + leading_digits(s.drop_first())
    } else {
        0
    }
}

/// Nanoseconds in one unit of a duration: none or `s` for seconds, `ms`, `us`,
/// `ns`, `m` for minutes, `h` for hours.
pub open spec fn unit_nanos(u: Seq<u8>) -> Option<nat> {
    if u == Seq::<u8>::empty() || u == seq![115u8] {
        Some(1_000_000_000)
    } else if u == seq![109u8, 115u8] {
        Some(1_000_000)
    } else if u == seq![117u8, 115u8] {
        Some(1_000)
    } else if u == seq![110u8, 115u8] {
        Some(1)
    } else if u == seq![109u8] {
        Some(60_000_000_000)
    } else if u == seq![104u8] {
        Some(3_600_000_000_000)
    } else {
        None
    }
}

/// A duration written as a decimal number and a unit, in nanoseconds; `None`
/// when the text is not one or the duration does not fit in a `u64`.
pub open spec fn duration_of(s: Seq<u8>) -> Option<u64> {
    let k = leading_digits(s);
    if k == 0 {
        None
    } else {
        match unit_nanos(s.skip(k as int)) {
            Some(m) => if decimal_value(s.take(k as int)) * m <= u64::MAX {
                Some((decimal_value(s.take(k as int)) * m) as u64)
            } else {
                None
            },
            None => None,
        }
    }
}

/// A rate written as a decimal number; `None` when the text is not one or the
/// number does not fit in a `u64`.
pub open spec fn rate_of(s: Seq<u8>) -> Option<u64> {
    if s.len() > 0 && leading_digits(s) == s.len() && decimal_value(s) <= u64::MAX {
        Some(decimal_value(s) as u64)
    } else {
        None
    }
}

/// The byte that an escape `\c` stands for: `\n`, `\r`, `\t`, `\0` and `\\`.
pub open spec fn escaped(c: u8) -> Option<u8> {
    if c == 110 {
        Some(10u8)
    } else if c == 114 {
        Some(13u8)
    } else if c == 116 {
        Some(9u8)
    } else if c == 48 {
        Some(0u8)
    } else if c == 92 {
        Some(92u8)
    } else {
        None
    }
}

/// A message with its escapes replaced; a backslash that starts no escape stays.
pub open spec fn unescaped(s: Seq<u8>) -> Seq<u8>
    decreases s.len(),
{
    if s.len() == 0 {
        Seq::empty()
    } else if s.len() >= 2 && s[0] == 92 && escaped(s[1]) is Some {
        seq![escaped(s[1])->Some_0] + unescaped(s.skip(2))
    } else {
        seq![s[0]] + unescaped(s.skip(1))
    }
}

proof fn lemma_leading_digits(s: Seq<u8>, i: int)
    requires
        0 <= i <= s.len(),
        forall|j: int| 0 <= j < i ==> is_digit(#[trigger] s[j]),
    ensures
        leading_digits(s) == i + leading_digits(s.skip(i)),
    decreases i,
{
    if i > 0 {
        assert forall|j: int| 0 <= j < i - 1 implies is_digit(#[trigger] s.drop_first()[j]) by {
            assert(s.drop_first()[j] == s[j + 1]);
        }
        lemma_leading_digits(s.drop_first(), i - 1);
        assert(s.drop_first().skip(i - 1) == s.skip(i));
    } else {
        assert(s.skip(0) == s);
    }
}

proof fn lemma_decimal_value_grows(s: Seq<u8>, i: int, j: int)
    requires
        0 <= i <= j <= s.len(),
    ensures
        decimal_value(s.take(i)) <= decimal_value(s.take(j)),
    decreases j - i,
{
    if i < j {
        lemma_decimal_value_grows(s, i, j - 1);
        assert(s.take(j).drop_last() == s.take(j - 1));
    }
}

/// Reads the decimal digits at the start of `s`: how many there are, and their
/// value when it fits in a `u64`.
fn scan_decimal(s: &[u8]) -> (r: (usize, Option<u64>))
    ensures
        r.0 == leading_digits(s@),
        r.0 <= s.len(),
        r.1 matches Some(v) ==> v == decimal_value(s@.take(r.0 as int)),
        r.1 is None ==> decimal_value(s@.take(r.0 as int)) > u64::MAX,
{
    let mut i: usize = 0;
    let mut value: u64 = 0;
    let mut fits = true;
    while i < s.len() && s[i] >= 48 && s[i] <= 57
        invariant
            i <= s.len(),
            forall|j: int| 0 <= j < i ==> is_digit(#[trigger] s@[j]),
            fits ==> value == decimal_value(s@.take(i as int)),
            !fits ==> decimal_value(s@.take(i as int)) > u64::MAX,
        decreases s.len() - i,
    {
        let d = (s[i] - 48) as u64;
        proof {
            assert(s@.take(i + 1).drop_last() == s@.take(i as int));
            lemma_decimal_value_grows(s@, i as int, i + 1);
        }
        if fits {
            if value > (u64::MAX - d) / 10 {
                fits = false;
            } else {
                value = value * 10 + d;
            }
        }
        i = i + 1;
    }
    proof {
        lemma_leading_digits(s@, i as int);
        if i < s.len() {
            assert(!is_digit(s@.skip(i as int)[0]));
        }
    }
    (i, if fits { Some(value) } else { None })
}

fn unit_nanos_exec(s: &[u8], k: usize) -> (r: Option<u64>)
    requires
        k <= s.len(),
    ensures
        r matches Some(m) ==> unit_nanos(s@.skip(k as int)) == Some(m as nat),
        r is None ==> unit_nanos(s@.skip(k as int)) is None,
{
    let n = s.len() - k;
    let ghost u = s@.skip(k as int);
    if n == 0 {
        assert(u == Seq::<u8>::empty());
        Some(1_000_000_000)
    } else if n == 1 {
        let c = s[k];
        assert(u.len() == 1 && u[0] == c);
        if c == 115 {
            assert(u == seq![115u8]);
            Some(1_000_000_000)
        } else if c == 109 {
            assert(u == seq![109u8]);
            Some(60_000_000_000)
        } else if c == 104 {
            assert(u == seq![104u8]);
            Some(3_600_000_000_000)
        } else {
            assert(u != seq![115u8] && u != seq![109u8] && u != seq![104u8]) by {
                assert(seq![115u8][0] == 115 && seq![109u8][0] == 109 && seq![104u8][0] == 104);
            }
            assert(u != seq![109u8, 115u8] && u != seq![117u8, 115u8] && u != seq![110u8, 115u8]);
            None
        }
    } else if n == 2 && s[k + 1] == 115 {
        let c = s[k];
        assert(u.len() == 2 && u[0] == c && u[1] == 115);
        if c == 109 {
            assert(u == seq![109u8, 115u8]);
            Some(1_000_000)
        } else if c == 117 {
            assert(u == seq![117u8, 115u8]);
            Some(1_000)
        } else if c == 110 {
            assert(u == seq![110u8, 115u8]);
            Some(1)
        } else {
            assert(u != seq![109u8, 115u8] && u != seq![117u8, 115u8] && u != seq![110u8, 115u8]) by {
                assert(seq![109u8, 115u8][0] == 109 && seq![117u8, 115u8][0] == 117
                    && seq![110u8, 115u8][0] == 110);
            }
            assert(u != Seq::<u8>::empty() && u != seq![115u8] && u != seq![109u8] && u != seq![104u8]);
            None
        }
    } else {
        if n == 2 {
            assert(u[1] != 115);
            assert(u != seq![109u8, 115u8] && u != seq![117u8, 115u8] && u != seq![110u8, 115u8]) by {
                assert(seq![109u8, 115u8][1] == 115 && seq![117u8, 115u8][1] == 115
                    && seq![110u8, 115u8][1] == 115);
            }
        }
        assert(u.len() == n);
        None
    }
}

/// Reads a duration such as `15s`, `500ms` or `2m`, in nanoseconds.
pub fn parse_duration(s: &[u8]) -> (r: Option<u64>)
    ensures
        r == duration_of(s@),
{
    let (k, value) = scan_decimal(s);
    if k == 0 {
        return None;
    }
    match unit_nanos_exec(s, k) {
        Some(m) => match value {
            Some(v) => if v <= u64::MAX / m {
                proof {
                    assert(v * m <= u64::MAX) by (nonlinear_arith)
                        requires v <= u64::MAX / m, m > 0;
                }
                Some(v * m)
            } else {
                proof {
                    assert(v * m > u64::MAX) by (nonlinear_arith)
                        requires v > u64::MAX / m, m > 0;
                }
                None
            },
            None => {
                proof {
                    let d = decimal_value(s@.take(k as int));
                    assert(d * m >= d) by (nonlinear_arith)
                        requires m >= 1;
                }
                None
            },
        },
        None => None,
    }
}

/// Reads a rate written as a decimal number.
pub fn parse_rate(s: &[u8]) -> (r: Option<u64>)
    ensures
        r == rate_of(s@),
{
    let (k, value) = scan_decimal(s);
    if k == 0 || k != s.len() {
        None
    } else {
        proof {
            assert(s@.take(k as int) == s@);
        }
        value
    }
}

/// Replaces the escapes `\n`, `\r`, `\t`, `\0` and `\\` in a message.
pub fn unescape(s: &[u8]) -> (r: Vec<u8>)
    ensures
        r@ == unescaped(s@),
{
    let mut out: Vec<u8> = Vec::new();
    let mut i: usize = 0;
    proof {
        assert(s@.skip(0) == s@);
    }
    while i < s.len()
        invariant
            i <= s.len(),
            unescaped(s@) == out@ + unescaped(s@.skip(i as int)),
        decreases s.len() - i,
    {
        let rest = Ghost(s@.skip(i as int));
        let c = s[i];
        let mut code: Option<u8> = None;
        if c == 92 && i + 1 < s.len() {
            let e = s[i + 1];
            code = if e == 110 {
                Some(10u8)
            } else if e == 114 {
                Some(13u8)
            } else if e == 116 {
                Some(9u8)
            } else if e == 48 {
                Some(0u8)
            } else if e == 92 {
                Some(92u8)
            } else {
                None
            };
        }
        match code {
            Some(b) => {
                proof {
                    assert(rest@.len() >= 2 && rest@[0] == 92 && escaped(rest@[1]) == Some(b));
                    assert(rest@.skip(2) == s@.skip(i + 2));
                    assert(out@.push(b) + unescaped(s@.skip(i + 2)) == out@ + (seq![b] + unescaped(s@.skip(i + 2))));
                }
                out.push(b);
                i = i + 2;
            },
            None => {
                proof {
                    assert(!(rest@.len() >= 2 && rest@[0] == 92 && escaped(rest@[1]) is Some));
                    assert(rest@.skip(1) == s@.skip(i + 1));
                    assert(out@.push(c) + unescaped(s@.skip(i + 1)) == out@ + (seq![c] + unescaped(s@.skip(i + 1))));
                }
                out.push(c);
                i = i + 1;
            },
        }
    }
    proof {
        assert(s@.skip(i as int) == Seq::<u8>::empty());
        assert(out@ + Seq::<u8>::empty() == out@);
    }
    out
}


/// One step of the xorshift generator that makes up payloads.
pub open spec fn xorshift(x: u64) -> u64 {
    let a = x ^ (x << 13u64);
    let b = a ^ (a >> 7u64);
    b ^ (b << 17u64)
}

/// The generator's state for byte `i` of a payload made from `seed`.
pub open spec fn payload_state(seed: u64, i: nat) -> u64
    decreases i,
{
    if i == 0 {
        xorshift(seed | 1)
    } else {
        xorshift(payload_state(seed, (i - 1) as nat))
    }
}

/// Byte `i` of a payload made from `seed`: a lower-case letter.
pub open spec fn payload_byte(seed: u64, i: nat) -> u8 {
    (97 + payload_state(seed, i) % 26) as u8
}

fn xorshift_exec(x: u64) -> (r: u64)
    ensures
        r == xorshift(x),
{
    let a = x ^ (x << 13u64);
    let b = a ^ (a >> 7u64);
    b ^ (b << 17u64)
}

/// A made-up payload of `size` letters, from `seed`; none for size zero.
pub fn generate_payload(size: usize, seed: u64) -> (r: Option<Vec<u8>>)
    ensures
        size == 0 ==> r is None,
        size > 0 ==> (r matches Some(v) && v@.len() == size
            && forall|i: int| 0 <= i < size ==> #[trigger] v@[i] == payload_byte(seed, i as nat)),
{
    if size == 0 {
        return None;
    }
    let mut out: Vec<u8> = Vec::with_capacity(size);
    let mut state = xorshift_exec(seed | 1);
    let mut i: usize = 0;
    while i < size
        invariant
            i <= size,
            out@.len() == i,
            state == payload_state(seed, i as nat),
            forall|j: int| 0 <= j < i ==> #[trigger] out@[j] == payload_byte(seed, j as nat),
        decreases size - i,
    {
        out.push((97 + state % 26) as u8);
        state = xorshift_exec(state);
        i = i + 1;
    }
    Some(out)
}


/// Made-up payloads follow the xorshift generator (x ^= x << 13; x ^= x >> 7;
/// x ^= x << 17) from `seed | 1`, stepped once for the first byte and once more
/// for each following one; each byte is a lower-case letter, `'a'` plus the
/// state modulo 26.
pub proof fn lemma_payload_follows_the_generator(seed: u64, size: nat)
    ensures
        exists|states: Seq<u64>| #![trigger states.len()] {
            &&& states.len() == size
            &&& size > 0 ==> {
                let x = seed | 1;
                let a = x ^ (x << 13u64);
                let b = a ^ (a >> 7u64);
                states[0] == b ^ (b << 17u64)
            }
            &&& forall|i: int| 0 <= i < size - 1 ==> {
                let x = #[trigger] states[i];
                let a = x ^ (x << 13u64);
                let b = a ^ (a >> 7u64);
                states[i + 1] == b ^ (b << 17u64)
            }
            &&& forall|i: int| 0 <= i < size ==> #[trigger] payload_byte(seed, i as nat)
                == (97 + states[i] % 26) as u8
        },
{
    let states = Seq::new(size, |i: int| payload_state(seed, i as nat));
    assert forall|i: int| 0 <= i < size - 1 implies {
        let x = #[trigger] states[i];
        let a = x ^ (x << 13u64);
        let b = a ^ (a >> 7u64);
        states[i + 1] == b ^ (b << 17u64)
    } by {
        assert(states[i + 1] == payload_state(seed, (i + 1) as nat));
    }
    assert forall|i: int| 0 <= i < size implies #[trigger] payload_byte(seed, i as nat)
        == (97 + states[i] % 26) as u8 by {
    }
    if size > 0 {
        assert(states[0] == payload_state(seed, 0));
    }
    assert(states.len() == size);
}

/// Successive bytes of a made-up payload come from successive states of the
/// generator: it advances once per byte.
pub proof fn lemma_payload_generator_advances(seed: u64, i: nat)
    ensures
        ({
            let x = payload_state(seed, i);
            let a = x ^ (x << 13u64);
            let b = a ^ (a >> 7u64);
            payload_state(seed, i + 1) == b ^ (b << 17u64)
        }),
        ({
            let x = seed | 1;
            let a = x ^ (x << 13u64);
            let b = a ^ (a >> 7u64);
            payload_state(seed, 0) == b ^ (b << 17u64)
        }),
{
}

} // verus!
