//! Dosing intervals and the free-text frequency parser.

use vstd::prelude::*;

use crate::text::digits_val;
use crate::text::is_digit;
use crate::text::is_number;
use crate::text::lower;
use crate::text::parse_digits;
use crate::text::split_ws;
use crate::text::to_lower_chars;
use crate::text::tok_is;
use crate::text::tokenize;
use crate::text::views_of;
use crate::text::lemma_lower_idempotent;

verus! {

/// A token naming an hour-sized unit.
pub open spec fn is_hour_unit(t: Seq<char>) -> bool {
    t == "hour"@ || t == "hours"@ || t == "h"@
}

/// A token naming a day-sized unit.
pub open spec fn is_day_unit(t: Seq<char>) -> bool {
    t == "day"@ || t == "days"@
}

/// A number with a trailing 'h', as in "5h".
pub open spec fn is_h_suffixed_number(t: Seq<char>) -> bool {
    t.len() >= 2 && t.last() == 'h' && is_number(t.drop_last())
}

/// The dosing interval, in hours, spelled by a (lower-cased) token list:
/// "every N hour|hours|h", "every N day|days", the literals "every day"
/// and "every hour", "every Nh", and "N times ... day" with floor
/// division of the day.  Any other shape yields nothing.
pub open spec fn hours_of_tokens(t: Seq<Seq<char>>) -> Option<int> {
    if t.len() == 3 && t[0] == "every"@ && is_number(t[1]) && is_hour_unit(t[2]) {
        Some(digits_val(t[1]))
    } else if t.len() == 3 && t[0] == "every"@ && is_number(t[1]) && is_day_unit(t[2]) {
        Some(digits_val(t[1]) * 24)
    } else if t.len() == 2 && t[0] == "every"@ && t[1] == "day"@ {
        Some(24)
    } else if t.len() == 2 && t[0] == "every"@ && t[1] == "hour"@ {
        Some(1)
    } else if t.len() == 2 && t[0] == "every"@ && is_h_suffixed_number(t[1]) {
        Some(digits_val(t[1].drop_last()))
    } else if t.len() >= 3 && is_number(t[0]) && t[1] == "times"@ && t.last() == "day"@ {
        let n = digits_val(t[0]);
        if n >= 1 {
            Some(24int / n)
        } else {
            None
        }
    } else {
        None
    }
}

/// What `Frequency::parse` accepts: the grammar above, applied
/// case-insensitively, restricted to intervals of at least one hour
/// that fit the interval's machine type.
pub open spec fn spec_parse(s: Seq<char>) -> Option<int> {
    match hours_of_tokens(split_ws(lower(s))) {
        Some(h) => if 1 <= h <= i64::MAX {
            Some(h)
        } else {
            None
        },
        None => None,
    }
}

/// Parsing ignores letter case: inputs that agree after lower-casing
/// parse to the same interval.
pub proof fn lemma_parse_case_insensitive(s1: Seq<char>, s2: Seq<char>)
    requires
        lower(s1) == lower(s2),
    ensures
        spec_parse(s1) == spec_parse(s2),
{
}

/// Parsing an already lower-cased input changes nothing.
pub proof fn lemma_parse_of_lowered(s: Seq<char>)
    ensures
        spec_parse(lower(s)) == spec_parse(s),
{
    lemma_lower_idempotent(s);
}

/// A dosing interval, expressed in whole hours.
///
/// The interval is always at least one hour; the optional anchor
/// timestamp is reserved and not consulted by eligibility computation.
#[derive(Debug, Clone, Copy, PartialEq, Eq)]
pub struct Frequency {
    hours: i64,
    start_time: Option<i64>,
}

impl Frequency {
    /// A frequency is well formed when its interval is positive.
    pub open spec fn wf(self) -> bool {
        self.spec_hours() >= 1
    }

    pub closed spec fn spec_hours(self) -> i64 {
        self.hours
    }

    /// The reserved anchor timestamp.
    pub closed spec fn spec_start_time(self) -> Option<i64> {
        self.start_time
    }

    pub fn new(hours: i64) -> (r: Frequency)
        requires
            hours >= 1,
        ensures
            r.spec_hours() == hours,
            r.wf(),
            r.spec_start_time() is None,
    {
        Frequency { hours, start_time: None }
    }

    pub fn get_hours(&self) -> (r: i64)
        ensures
            r == self.spec_hours(),
    {
        self.hours
    }

    /// Parse a free-text dosing interval, case-insensitively.
    pub fn parse(frequency: &str) -> (r: Option<Frequency>)
        ensures
            match r {
                Some(f) => spec_parse(frequency@) == Some(f.spec_hours() as int) && f.wf()
                    && f.spec_start_time() is None,
                None => spec_parse(frequency@) is None,
            },
    {
        let lowered = to_lower_chars(frequency);
        let toks = tokenize(&lowered);
        match hours_from_tokens(&toks) {
            Some(h) => Some(Frequency::new(h)),
            None => None,
        }
    }
}

/// The interval spelled by a lower-cased token list, where it is at
/// least one hour and fits the machine type.
fn hours_from_tokens(toks: &Vec<Vec<char>>) -> (r: Option<i64>)
    ensures
        match r {
            Some(h) => 1 <= h && hours_of_tokens(views_of(toks@)) == Some(h as int),
            None => match hours_of_tokens(views_of(toks@)) {
                Some(x) => !(1 <= x <= i64::MAX),
                None => true,
            },
        },
{
    let ghost tv = views_of(toks@);
    proof {
        assert(forall|k: int| 0 <= k < toks@.len() ==> tv[k] == #[trigger] toks@[k]@);
        assert(tv.len() == toks@.len());
        reveal_strlit("every");
        assert(!is_number("every"@)) by {
            assert(!is_digit("every"@[0]));
        }
    }
    let n = toks.len();
    if n == 3 && tok_is(&toks[0], "every") {
        let t1_len = toks[1].len();
        proof {
            assert(toks@[1]@.subrange(0, toks@[1]@.len() as int) =~= toks@[1]@);
        }
        let num = parse_digits(&toks[1], t1_len);
        let hourish = tok_is(&toks[2], "hour") || tok_is(&toks[2], "hours") || tok_is(
            &toks[2],
            "h",
        );
        let dayish = tok_is(&toks[2], "day") || tok_is(&toks[2], "days");
        match num {
            Some(v) => {
                if hourish {
                    if v >= 1 {
                        Some(v)
                    } else {
                        None
                    }
                } else if dayish {
                    if v >= 1 && v <= i64::MAX / 24 {
                        Some(v * 24)
                    } else {
                        None
                    }
                } else {
                    None
                }
            },
            None => None,
        }
    } else if n == 2 && tok_is(&toks[0], "every") {
        if tok_is(&toks[1], "day") {
            Some(24)
        } else if tok_is(&toks[1], "hour") {
            Some(1)
        } else {
            let t1_len = toks[1].len();
            if t1_len >= 1 && toks[1][t1_len - 1] == 'h' {
                proof {
                    assert(toks@[1]@.subrange(0, toks@[1]@.len() - 1) =~= toks@[1]@.drop_last());
                    assert(toks@[1]@.last() == toks@[1]@[toks@[1]@.len() - 1]);
                }
                match parse_digits(&toks[1], t1_len - 1) {
                    Some(v) => {
                        if v >= 1 {
                            Some(v)
                        } else {
                            None
                        }
                    },
                    None => None,
                }
            } else {
                None
            }
        }
    } else if n >= 3 {
        let t0_len = toks[0].len();
        proof {
            assert(toks@[0]@.subrange(0, toks@[0]@.len() as int) =~= toks@[0]@);
            assert(tv.last() == toks@[n - 1]@);
        }
        let num = parse_digits(&toks[0], t0_len);
        let shape = tok_is(&toks[1], "times") && tok_is(&toks[n - 1], "day");
        match num {
            Some(v) => {
                if shape && v >= 1 {
                    let h = 24i64 / v;
                    if h >= 1 {
                        Some(h)
                    } else {
                        None
                    }
                } else {
                    None
                }
            },
            None => {
                proof {
                    if is_number(tv[0]) && tv[1] == "times"@ && tv.last() == "day"@ {
                        let x = digits_val(tv[0]);
                        if x >= 1 {
                            assert(x > i64::MAX);
                            assert(24int / x == 0) by (nonlinear_arith)
                                requires
                                    x > 24,
                            ;
                        }
                    }
                }
                None
            },
        }
    } else {
        None
    }
}

} // verus!
