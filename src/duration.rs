use vstd::prelude::*;
use vstd::string::StringSliceAdditionalSpecFns;

verus! {

/// Why a duration could not be read.
#[derive(Debug, PartialEq, Eq, Structural)]
pub enum DurationError {
    /// A token is not a number immediately followed by `w` or `d`.
    Malformed,
    /// A unit occurs in two tokens.
    DuplicateUnit,
    /// There is no token at all.
    Empty,
    /// The duration does not fit in a signed 64-bit count of seconds.
    OutOfRange,
}

/// Seconds in one day.
pub const SECONDS_PER_DAY: i64 = 86400;

/// The largest number of days whose count of seconds fits in an `i64`.
pub const MAX_DAYS: u64 = 106751991167300;

/// Where a reader of a duration stands after some of the input.
pub enum ScanPhase {
    /// Between tokens.
    Gap,
    /// Inside the number of a token, with the value read so far.
    Number(int),
    /// Just after the unit letter of a token.
    AfterUnit,
    /// The input was rejected.
    Failed(DurationError),
}

/// The state of a reader of a duration: where it stands, and the weeks and
/// days given so far.
pub struct DurationScan {
    pub phase: ScanPhase,
    pub weeks: Option<int>,
    pub days: Option<int>,
}

pub open spec fn is_digit(b: u8) -> bool {
    48 <= b <= 57
}

/// ASCII white space: space, tab, line feed, form feed, carriage return.
pub open spec fn is_space(b: u8) -> bool {
    b == 32 || b == 9 || b == 10 || b == 12 || b == 13
}

/// One byte of input read in state `st`.
pub open spec fn scan_step(st: DurationScan, b: u8) -> DurationScan {
    match st.phase {
        ScanPhase::Failed(_) => st,
        ScanPhase::Gap => if is_space(b) {
            st
        } else if is_digit(b) {
            DurationScan { phase: ScanPhase::Number(b - 48), ..st }
        } else {
            DurationScan { phase: ScanPhase::Failed(DurationError::Malformed), ..st }
        },
        ScanPhase::Number(n) => if is_digit(b) {
            DurationScan { phase: ScanPhase::Number(10 * n + (b - 48)), ..st }
        } else if b == 119 {
            if st.weeks is Some {
                DurationScan { phase: ScanPhase::Failed(DurationError::DuplicateUnit), ..st }
            } else {
                DurationScan { phase: ScanPhase::AfterUnit, weeks: Some(n), ..st }
            }
        } else if b == 100 {
            if st.days is Some {
                DurationScan { phase: ScanPhase::Failed(DurationError::DuplicateUnit), ..st }
            } else {
                DurationScan { phase: ScanPhase::AfterUnit, days: Some(n), ..st }
            }
        } else {
            DurationScan { phase: ScanPhase::Failed(DurationError::Malformed), ..st }
        },
        ScanPhase::AfterUnit => if is_space(b) {
            DurationScan { phase: ScanPhase::Gap, ..st }
        } else {
            DurationScan { phase: ScanPhase::Failed(DurationError::Malformed), ..st }
        },
    }
}

/// The state after reading all of `s` from the start.
pub open spec fn scan(s: Seq<u8>) -> DurationScan
    decreases s.len(),
{
    if s.len() == 0 {
        DurationScan { phase: ScanPhase::Gap, weeks: None, days: None }
    } else {
        scan_step(scan(s.drop_last()), s.last())
    }
}

/// The number of days given, weeks counting seven each.
pub open spec fn total_days(st: DurationScan) -> int {
    7 * (match st.weeks {
        Some(w) => w,
        None => 0,
    }) + (match st.days {
        Some(d) => d,
        None => 0,
    })
}

/// What the duration written as `s` is, in seconds: white-space separated
/// tokens `<digits>w` and `<digits>d`, each unit at most once and at least
/// one token.
pub open spec fn duration_of(s: Seq<u8>) -> Result<i64, DurationError> {
    let st = scan(s);
    match st.phase {
        ScanPhase::Failed(e) => Err(e),
        ScanPhase::Number(_) => Err(DurationError::Malformed),
        _ => if st.weeks is None && st.days is None {
            Err(DurationError::Empty)
        } else if total_days(st) > MAX_DAYS {
            Err(DurationError::OutOfRange)
        } else {
            Ok((total_days(st) * SECONDS_PER_DAY) as i64)
        },
    }
}

/// A count that stands for `n` as far as the range check needs it: `n`
/// itself, or one past the largest number of days.
pub open spec fn capped(n: int) -> int {
    if n > MAX_DAYS {
        MAX_DAYS + 1
    } else {
        n
    }
}

pub open spec fn capped_opt(x: Option<u64>, n: Option<int>) -> bool {
    match n {
        Some(v) => v >= 0 && x == Some(capped(v) as u64),
        None => x is None,
    }
}

enum Phase {
    Gap,
    Number,
    AfterUnit,
}

spec fn agrees(phase: Phase, num: u64, weeks: Option<u64>, days: Option<u64>, st: DurationScan) -> bool {
    &&& capped_opt(weeks, st.weeks)
    &&& capped_opt(days, st.days)
    &&& match st.phase {
        ScanPhase::Gap => phase is Gap,
        ScanPhase::Number(n) => phase is Number && n >= 0 && num == capped(n),
        ScanPhase::AfterUnit => phase is AfterUnit,
        ScanPhase::Failed(_) => false,
    }
}

/// Once rejected, input stays rejected.
proof fn lemma_failed_absorbs(s: Seq<u8>, j: int)
    requires
        0 <= j <= s.len(),
        scan(s.take(j)).phase is Failed,
    ensures
        scan(s).phase == scan(s.take(j)).phase,
    decreases s.len() - j,
{
    if j == s.len() {
        assert(s.take(j) =~= s);
    } else {
        assert(s.take(j + 1).drop_last() =~= s.take(j));
        lemma_failed_absorbs(s, j + 1);
    }
}

/// Reads a duration such as `1w 2d`: white-space separated tokens, each a
/// number followed by `w` (weeks) or `d` (days), each unit at most once. The
/// result is in seconds.
pub fn parse_timedelta(repr: &str) -> (r: Result<i64, DurationError>)
    ensures
        r == duration_of(repr.spec_bytes()),
{
    let bytes = repr.as_bytes();
    let mut phase = Phase::Gap;
    let mut num: u64 = 0;
    let mut weeks: Option<u64> = None;
    let mut days: Option<u64> = None;
    let mut i: usize = 0;
    proof {
        assert(bytes@.take(0) =~= Seq::<u8>::empty());
    }
    while i < bytes.len()
        invariant
            bytes@ == repr.spec_bytes(),
            0 <= i <= bytes@.len(),
            num <= MAX_DAYS + 1,
            agrees(phase, num, weeks, days, scan(bytes@.take(i as int))),
        decreases bytes.len() - i,
    {
        let b = bytes[i];
        let ghost before = scan(bytes@.take(i as int));
        proof {
            assert(bytes@.take(i + 1).drop_last() =~= bytes@.take(i as int));
            assert(bytes@.take(i + 1).last() == b);
        }
        let space = b == 32 || b == 9 || b == 10 || b == 12 || b == 13;
        let digit = 48 <= b && b <= 57;
        match phase {
            Phase::Gap => {
                if digit {
                    phase = Phase::Number;
                    num = (b - 48) as u64;
                } else if !space {
                    proof {
                        lemma_failed_absorbs(bytes@, i + 1);
                    }
                    return Err(DurationError::Malformed);
                }
            },
            Phase::Number => {
                if digit {
                    if num <= MAX_DAYS {
                        let v = num * 10 + (b - 48) as u64;
                        num = if v > MAX_DAYS {
                            MAX_DAYS + 1
                        } else {
                            v
                        };
                    }
                } else if b == 119 {
                    if weeks.is_some() {
                        proof {
                            lemma_failed_absorbs(bytes@, i + 1);
                        }
                        return Err(DurationError::DuplicateUnit);
                    }
                    weeks = Some(num);
                    phase = Phase::AfterUnit;
                } else if b == 100 {
                    if days.is_some() {
                        proof {
                            lemma_failed_absorbs(bytes@, i + 1);
                        }
                        return Err(DurationError::DuplicateUnit);
                    }
                    days = Some(num);
                    phase = Phase::AfterUnit;
                } else {
                    proof {
                        lemma_failed_absorbs(bytes@, i + 1);
                    }
                    return Err(DurationError::Malformed);
                }
            },
            Phase::AfterUnit => {
                if space {
                    phase = Phase::Gap;
                } else {
                    proof {
                        lemma_failed_absorbs(bytes@, i + 1);
                    }
                    return Err(DurationError::Malformed);
                }
            },
        }
        i += 1;
    }
    proof {
        assert(bytes@.take(i as int) =~= bytes@);
    }
    if let Phase::Number = phase {
        return Err(DurationError::Malformed);
    }
    let w: u64 = match weeks {
        Some(w) => w,
        None => 0,
    };
    let d: u64 = match days {
        Some(d) => d,
        None => 0,
    };
    if weeks.is_none() && days.is_none() {
        Err(DurationError::Empty)
    } else if 7 * w + d > MAX_DAYS {
        Err(DurationError::OutOfRange)
    } else {
        Ok((7 * w + d) as i64 * SECONDS_PER_DAY)
    }
}

} // verus!
