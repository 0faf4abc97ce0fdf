use vstd::prelude::*;

verus! {

/// A crawl delay, in nanoseconds.
#[derive(Clone, Copy, PartialEq, Eq, Structural, Debug)]
pub struct Delay {
    pub nanos: u64,
}

impl Delay {
    /// The delay in nanoseconds.
    pub fn as_nanos(&self) -> (r: u64)
        ensures
            r == self.nanos,
    {
        self.nanos
    }

    /// The shorter of two delays.
    pub fn min(self, other: Delay) -> (r: Delay)
        ensures
            r.nanos == if self.nanos <= other.nanos { self.nanos } else { other.nanos },
    {
        if self.nanos <= other.nanos {
            self
        } else {
            other
        }
    }
}

/// Nanoseconds in a second.
pub const NANOS_PER_SEC: u64 = 1000000000;

/// The byte `.`.
pub const POINT: u8 = 46;

/// An ASCII decimal digit.
pub open spec fn is_digit(b: u8) -> bool {
    48 <= b <= 57
}

/// Every byte is a decimal digit.
pub open spec fn all_digits(s: Seq<u8>) -> bool {
    forall|i: int| 0 <= i < s.len() ==> is_digit(#[trigger] s[i])
}

/// The number written by the decimal digits `s` (0 for no digit).
pub open spec fn digits_value(s: Seq<u8>) -> nat
    decreases s.len(),
{
    if s.len() == 0 {
        0
    } else {
        digits_value(s.drop_last()) * 10 + (s.last() - 48) as nat
    }
}

/// The first nine digits of a fraction, padded with zeros to nine.
pub open spec fn nine_digits(f: Seq<u8>) -> Seq<u8> {
    if f.len() >= 9 {
        f.subrange(0, 9)
    } else {
        f + Seq::new((9 - f.len()) as nat, |i: int| 48u8)
    }
}

/// The position `k` of the decimal point splits `s` into digits before and
/// after it, with at least one digit in all.
pub open spec fn point_at(s: Seq<u8>, k: int) -> bool {
    &&& 0 <= k < s.len()
    &&& s[k] == POINT
    &&& all_digits(s.subrange(0, k))
    &&& all_digits(s.subrange(k + 1, s.len() as int))
    &&& s.len() >= 2
}

/// The number of nanoseconds written by `s` as an unsigned decimal number
/// of seconds (`5`, `0.5`, `.5`, `5.`), digits beyond the ninth after the
/// point dropped; `None` where `s` is not such a number.
pub open spec fn unsigned_nanos(s: Seq<u8>) -> Option<nat> {
    if s.len() > 0 && all_digits(s) {
        Some(digits_value(s) * 1000000000)
    } else if exists|k: int| point_at(s, k) {
        let k = choose|k: int| point_at(s, k);
        Some(digits_value(s.subrange(0, k)) * 1000000000 + digits_value(
            nine_digits(s.subrange(k + 1, s.len() as int)),
        ))
    } else {
        None
    }
}

/// The byte `+`.
pub const PLUS: u8 = 43;

/// The number of nanoseconds written by `s` as a decimal number of seconds,
/// unsigned or with a leading `+`.
pub open spec fn delay_nanos(s: Seq<u8>) -> Option<nat> {
    if s.len() > 0 && s[0] == PLUS {
        unsigned_nanos(s.subrange(1, s.len() as int))
    } else {
        unsigned_nanos(s)
    }
}

/// The delay written by an unsigned decimal number of seconds `s`, where it
/// fits.
pub open spec fn unsigned_delay_of(s: Seq<u8>) -> Option<Delay> {
    match unsigned_nanos(s) {
        Some(n) => if n <= u64::MAX {
            Some(Delay { nanos: n as u64 })
        } else {
            None
        },
        None => None,
    }
}

/// The delay written by `s`, where it is a number of seconds that fits.
pub open spec fn delay_of(s: Seq<u8>) -> Option<Delay> {
    match delay_nanos(s) {
        Some(n) => if n <= u64::MAX {
            Some(Delay { nanos: n as u64 })
        } else {
            None
        },
        None => None,
    }
}

/// Ten to the power `j`, for `j <= 10`.
spec fn ten_to(j: int) -> int {
    if j <= 0 {
        1
    } else if j == 1 {
        10
    } else if j == 2 {
        100
    } else if j == 3 {
        1000
    } else if j == 4 {
        10000
    } else if j == 5 {
        100000
    } else if j == 6 {
        1000000
    } else if j == 7 {
        10000000
    } else if j == 8 {
        100000000
    } else if j == 9 {
        1000000000
    } else {
        10000000000
    }
}

/// The largest whole number of seconds that fits in a delay.
const MAX_SECS: u64 = 18446744073;

/// Parses a crawl-delay value: a decimal number of seconds, unsigned or
/// with a leading `+`. Anything else (empty, a minus sign, an exponent such
/// as `1e1`, `inf`, other text), and a delay too long to hold in
/// nanoseconds, gives `None`.
pub fn try_delay(u: &[u8]) -> (r: Option<Delay>)
    ensures
        r == delay_of(u@),
{
    if u.len() > 0 && u[0] == PLUS {
        unsigned_delay(vstd::slice::slice_subrange(u, 1, u.len()))
    } else {
        unsigned_delay(u)
    }
}

/// Parses an unsigned decimal number of seconds.
fn unsigned_delay(u: &[u8]) -> (r: Option<Delay>)
    ensures
        r == unsigned_delay_of(u@),
{
    let len = u.len();
    // The whole-seconds part: the digits up to the first other byte.
    let mut k: usize = 0;
    let mut secs: u64 = 0;
    let mut too_long: bool = false;
    while k < len && u[k] >= 48 && u[k] <= 57
        invariant
            k <= len == u@.len(),
            all_digits(u@.subrange(0, k as int)),
            !too_long ==> secs == digits_value(u@.subrange(0, k as int)) && secs <= MAX_SECS,
            too_long ==> digits_value(u@.subrange(0, k as int)) > MAX_SECS,
        decreases len - k,
    {
        let d = u[k] - 48;
        let ghost before = u@.subrange(0, k as int);
        let ghost after = u@.subrange(0, k + 1);
        assert(after.drop_last() =~= before);
        assert(all_digits(after)) by {
            assert forall|i: int| 0 <= i < after.len() implies is_digit(#[trigger] after[i]) by {
                if i < k {
                    assert(after[i] == before[i]);
                }
            }
        }
        if !too_long {
            if secs > (MAX_SECS - d as u64) / 10 {
                too_long = true;
            } else {
                secs = secs * 10 + d as u64;
            }
        }
        k = k + 1;
    }
    let ghost int_part = u@.subrange(0, k as int);
    if k == len {
        assert(u@ =~= int_part);
        if len == 0 || too_long {
            return None;
        }
        return Some(Delay { nanos: secs * NANOS_PER_SEC });
    }
    assert(!all_digits(u@));
    if u[k] != POINT || len < 2 {
        proof {
            assert(!(exists|j: int| point_at(u@, j))) by {
                if exists|j: int| point_at(u@, j) {
                    let j = choose|j: int| point_at(u@, j);
                    if j < k {
                        assert(u@[j] == int_part[j]);
                    } else if j > k {
                        assert(u@.subrange(0, j)[k as int] == u@[k as int]);
                    }
                }
            }
        }
        return None;
    }
    // The fraction: every byte after the point must be a digit.
    let mut m: usize = k + 1;
    while m < len
        invariant
            k < m <= len == u@.len(),
            all_digits(u@.subrange(k + 1, m as int)),
            int_part == u@.subrange(0, k as int),
            all_digits(int_part),
            u@[k as int] == POINT,
        decreases len - m,
    {
        if !(u[m] >= 48 && u[m] <= 57) {
            proof {
                assert(!(exists|j: int| point_at(u@, j))) by {
                    if exists|j: int| point_at(u@, j) {
                        let j = choose|j: int| point_at(u@, j);
                        if j < k {
                            assert(u@[j] == int_part[j]);
                        } else if j > k {
                            assert(u@.subrange(0, j)[k as int] == u@[k as int]);
                        } else {
                            assert(u@.subrange(k + 1, len as int)[m - k - 1] == u@[m as int]);
                        }
                    }
                }
            }
            return None;
        }
        assert(u@.subrange(k + 1, m + 1) =~= u@.subrange(k + 1, m as int).push(u@[m as int]));
        m = m + 1;
    }
    assert(point_at(u@, k as int));
    proof {
        assert forall|j: int| point_at(u@, j) implies j == k by {
            if j < k {
                assert(u@[j] == int_part[j]);
            } else if j > k {
                assert(u@.subrange(0, j)[k as int] == u@[k as int]);
            }
        }
    }
    if too_long {
        return None;
    }
    let ghost frac = u@.subrange(k + 1, len as int);
    let ghost nine = nine_digits(frac);
    let mut nanos: u64 = 0;
    let mut j: usize = 0;
    while j < 9
        invariant
            k < len == u@.len(),
            frac == u@.subrange(k + 1, len as int),
            all_digits(frac),
            nine == nine_digits(frac),
            j <= 9,
            nanos == digits_value(nine.subrange(0, j as int)),
            nanos < ten_to(j as int),
        decreases 9 - j,
    {
        let d: u8 = if j < len - k - 1 {
            u[k + 1 + j]
        } else {
            48
        };
        assert(d == nine[j as int]);
        assert(nine.subrange(0, j + 1).drop_last() =~= nine.subrange(0, j as int));
        assert(is_digit(d));
        assert(nanos * 10 + (d - 48) < ten_to(j + 1)) by (nonlinear_arith)
            requires
                nanos < ten_to(j as int),
                ten_to(j + 1) == ten_to(j as int) * 10,
                d - 48 < 10,
        ;
        nanos = nanos * 10 + (d - 48) as u64;
        j = j + 1;
    }
    assert(nine.subrange(0, 9) =~= nine);
    let whole = secs * NANOS_PER_SEC;
    if nanos > u64::MAX - whole {
        return None;
    }
    Some(Delay { nanos: whole + nanos })
}

} // verus!
