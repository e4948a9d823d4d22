//! Character-level helpers: ASCII lower-casing, whitespace tokenizing,
//! decimal digits, and rendering numbers as decimal strings.

use vstd::prelude::*;
use vstd::string::*;

verus! {

// ---------------------------------------------------------------------------
// ASCII lower-casing
// ---------------------------------------------------------------------------

/// ASCII lower-casing of a single character; everything outside 'A'..='Z'
/// is left alone.
pub open spec fn lower_char(c: char) -> char {
    match c {
        'A' => 'a',
        'B' => 'b',
        'C' => 'c',
        'D' => 'd',
        'E' => 'e',
        'F' => 'f',
        'G' => 'g',
        'H' => 'h',
        'I' => 'i',
        'J' => 'j',
        'K' => 'k',
        'L' => 'l',
        'M' => 'm',
        'N' => 'n',
        'O' => 'o',
        'P' => 'p',
        'Q' => 'q',
        'R' => 'r',
        'S' => 's',
        'T' => 't',
        'U' => 'u',
        'V' => 'v',
        'W' => 'w',
        'X' => 'x',
        'Y' => 'y',
        'Z' => 'z',
        _ => c,
    }
}

/// ASCII lower-casing of a character sequence.
pub open spec fn lower(s: Seq<char>) -> Seq<char> {
    s.map_values(|c: char| lower_char(c))
}

/// Lower-casing twice is the same as lower-casing once.
pub proof fn lemma_lower_idempotent(s: Seq<char>)
    ensures
        lower(lower(s)) == lower(s),
{
    assert(lower(lower(s)) =~= lower(s)) by {
        assert forall|i: int| 0 <= i < s.len() implies lower(lower(s))[i] == lower(s)[i] by {
            assert(lower_char(lower_char(s[i])) == lower_char(s[i]));
        }
    }
}

pub fn to_lower(c: char) -> (r: char)
    ensures
        r == lower_char(c),
{
    match c {
        'A' => 'a',
        'B' => 'b',
        'C' => 'c',
        'D' => 'd',
        'E' => 'e',
        'F' => 'f',
        'G' => 'g',
        'H' => 'h',
        'I' => 'i',
        'J' => 'j',
        'K' => 'k',
        'L' => 'l',
        'M' => 'm',
        'N' => 'n',
        'O' => 'o',
        'P' => 'p',
        'Q' => 'q',
        'R' => 'r',
        'S' => 's',
        'T' => 't',
        'U' => 'u',
        'V' => 'v',
        'W' => 'w',
        'X' => 'x',
        'Y' => 'y',
        'Z' => 'z',
        _ => c,
    }
}

/// The characters of `s`, lower-cased.
pub fn to_lower_chars(s: &str) -> (v: Vec<char>)
    ensures
        v@ == lower(s@),
{
    let n: usize = s.unicode_len();
    let mut v: Vec<char> = Vec::new();
    let mut i: usize = 0;
    while i < n
        invariant
            i <= n,
            n == s@.len(),
            v@.len() == i,
            forall|j: int| 0 <= j < i ==> v@[j] == lower_char(s@[j]),
        decreases n - i,
    {
        let c = s.get_char(i);
        v.push(to_lower(c));
        i += 1;
    }
    proof {
        assert(v@ =~= lower(s@));
    }
    v
}

// ---------------------------------------------------------------------------
// Tokenizing on whitespace
// ---------------------------------------------------------------------------

/// The blank characters tokens are split on.
pub open spec fn is_space(c: char) -> bool {
    c == ' ' || c == '\t' || c == '\n' || c == '\r'
}

/// The token list `cur` opens, empty tokens left out.
pub open spec fn flush_tok(cur: Seq<char>) -> Seq<Seq<char>> {
    if cur.len() == 0 {
        Seq::empty()
    } else {
        seq![cur]
    }
}

/// Splitting on whitespace, with `cur` the token being accumulated;
/// runs of blanks never yield empty tokens.
pub open spec fn split_acc(s: Seq<char>, cur: Seq<char>) -> Seq<Seq<char>>
    decreases s.len(),
{
    if s.len() == 0 {
        flush_tok(cur)
    } else if is_space(s[0]) {
        flush_tok(cur) + split_acc(s.skip(1), Seq::empty())
    } else {
        split_acc(s.skip(1), cur.push(s[0]))
    }
}

/// The tokens of `s`: its maximal blank-free runs, in order.
pub open spec fn split_ws(s: Seq<char>) -> Seq<Seq<char>> {
    split_acc(s, Seq::empty())
}

/// The views of a sequence of character vectors.
pub open spec fn views_of(ts: Seq<Vec<char>>) -> Seq<Seq<char>> {
    ts.map_values(|t: Vec<char>| t@)
}

fn is_space_exec(c: char) -> (b: bool)
    ensures
        b == is_space(c),
{
    c == ' ' || c == '\t' || c == '\n' || c == '\r'
}

/// Split `v` into its whitespace-separated tokens.
#[verifier::loop_isolation(false)]
pub fn tokenize(v: &Vec<char>) -> (toks: Vec<Vec<char>>)
    ensures
        views_of(toks@) == split_ws(v@),
{
    let mut toks: Vec<Vec<char>> = Vec::new();
    let mut cur: Vec<char> = Vec::new();
    let mut i: usize = 0;
    proof {
        assert(v@.skip(0) =~= v@);
        assert(views_of(Seq::<Vec<char>>::empty()) + split_acc(v@, Seq::empty()) =~= split_acc(
            v@,
            Seq::empty(),
        ));
    }
    while i < v.len()
        invariant
            i <= v@.len(),
            split_ws(v@) == views_of(toks@) + split_acc(v@.skip(i as int), cur@),
        decreases v@.len() - i,
    {
        proof {
            assert(v@.skip(i as int)[0] == v@[i as int]);
            assert(v@.skip(i as int).skip(1) =~= v@.skip(i as int + 1));
        }
        let ghost old_cur = cur@;
        if is_space_exec(v[i]) {
            proof {
                assert(split_acc(v@.skip(i as int), old_cur) == flush_tok(old_cur) + split_acc(
                    v@.skip(i as int + 1),
                    Seq::empty(),
                ));
            }
            if cur.len() > 0 {
                let ghost old_toks = toks@;
                let ghost cur_snap: Vec<char> = cur;
                toks.push(cur);
                cur = Vec::new();
                proof {
                    assert(flush_tok(old_cur) =~= seq![cur_snap@]);
                    assert(views_of(old_toks.push(cur_snap)) =~= views_of(old_toks) + seq![
                        cur_snap@,
                    ]);
                    assert((views_of(old_toks) + seq![cur_snap@]) + split_acc(
                        v@.skip(i as int + 1),
                        Seq::empty(),
                    ) =~= views_of(old_toks) + (seq![cur_snap@] + split_acc(
                        v@.skip(i as int + 1),
                        Seq::empty(),
                    )));
                }
            } else {
                proof {
                    assert(flush_tok(old_cur) + split_acc(v@.skip(i as int + 1), Seq::empty())
                        =~= split_acc(v@.skip(i as int + 1), Seq::empty()));
                    assert(cur@ =~= Seq::<char>::empty());
                }
            }
        } else {
            cur.push(v[i]);
            proof {
                assert(split_acc(v@.skip(i as int), old_cur) == split_acc(
                    v@.skip(i as int + 1),
                    old_cur.push(v@[i as int]),
                ));
                assert(cur@ =~= old_cur.push(v@[i as int]));
            }
        }
        i += 1;
    }
    proof {
        assert(v@.skip(i as int) =~= Seq::<char>::empty());
        assert(split_acc(v@.skip(i as int), cur@) == flush_tok(cur@));
    }
    if cur.len() > 0 {
        let ghost old_toks = toks@;
        let ghost cur_snap: Vec<char> = cur;
        toks.push(cur);
        proof {
            assert(views_of(old_toks.push(cur_snap)) =~= views_of(old_toks) + seq![cur_snap@]);
        }
    } else {
        proof {
            assert(views_of(toks@) + flush_tok(cur@) =~= views_of(toks@));
        }
    }
    toks
}

// ---------------------------------------------------------------------------
// Decimal digits and numbers
// ---------------------------------------------------------------------------

pub open spec fn is_digit(c: char) -> bool {
    '0' <= c && c <= '9'
}

pub open spec fn digit_val(c: char) -> int {
    (c as int) - ('0' as int)
}

/// A non-empty, all-digit character sequence.
pub open spec fn is_number(s: Seq<char>) -> bool {
    s.len() > 0 && forall|i: int| 0 <= i < s.len() ==> is_digit(#[trigger] s[i])
}

/// The value of an all-digit sequence, read in base ten.
pub open spec fn digits_val(s: Seq<char>) -> int
    decreases s.len(),
{
    if s.len() == 0 {
        0
    } else {
        digits_val(s.drop_last()) * 10 + digit_val(s.last())
    }
}

pub proof fn lemma_digits_val_nonneg(s: Seq<char>)
    requires
        forall|i: int| 0 <= i < s.len() ==> is_digit(#[trigger] s[i]),
    ensures
        digits_val(s) >= 0,
    decreases s.len(),
{
    if s.len() > 0 {
        lemma_digits_val_nonneg(s.drop_last());
    }
}

/// A prefix of an all-digit sequence never exceeds the whole in value.
pub proof fn lemma_digits_val_prefix(s: Seq<char>, i: int)
    requires
        0 <= i <= s.len(),
        forall|j: int| 0 <= j < s.len() ==> is_digit(#[trigger] s[j]),
    ensures
        digits_val(s.subrange(0, i)) <= digits_val(s),
    decreases s.len() - i,
{
    if i == s.len() {
        assert(s.subrange(0, i) =~= s);
    } else {
        let p = s.subrange(0, i + 1);
        assert(p.drop_last() =~= s.subrange(0, i));
        lemma_digits_val_nonneg(s.subrange(0, i));
        assert(digits_val(s.subrange(0, i)) <= digits_val(p));
        lemma_digits_val_prefix(s, i + 1);
    }
}

/// The digit at `c`, if `c` is a decimal digit.
pub fn digit_of(c: char) -> (r: Option<u64>)
    ensures
        match r {
            Some(d) => is_digit(c) && d == digit_val(c),
            None => !is_digit(c),
        },
{
    match c {
        '0' => Some(0),
        '1' => Some(1),
        '2' => Some(2),
        '3' => Some(3),
        '4' => Some(4),
        '5' => Some(5),
        '6' => Some(6),
        '7' => Some(7),
        '8' => Some(8),
        '9' => Some(9),
        _ => None,
    }
}

/// Parse the first `upto` characters of `t` as a decimal number.
/// Fails when they are not a non-empty run of digits, or when the value
/// does not fit in an `i64`.
pub fn parse_digits(t: &Vec<char>, upto: usize) -> (r: Option<i64>)
    requires
        upto <= t@.len(),
    ensures
        match r {
            Some(v) => is_number(t@.subrange(0, upto as int)) && v >= 0 && digits_val(
                t@.subrange(0, upto as int),
            ) == v as int,
            None => !is_number(t@.subrange(0, upto as int)) || digits_val(
                t@.subrange(0, upto as int),
            ) > i64::MAX,
        },
{
    if upto == 0 {
        return None;
    }
    let ghost whole = t@.subrange(0, upto as int);
    let mut val: i64 = 0;
    let mut i: usize = 0;
    while i < upto
        invariant
            0 <= i <= upto,
            upto <= t@.len(),
            0 <= val,
            whole == t@.subrange(0, upto as int),
            forall|j: int| 0 <= j < i ==> is_digit(#[trigger] t@[j]),
            digits_val(t@.subrange(0, i as int)) == val as int,
        decreases upto - i,
    {
        match digit_of(t[i]) {
            None => {
                proof {
                    assert(whole[i as int] == t@[i as int]);
                    assert(!is_number(whole));
                }
                return None;
            },
            Some(d) => {
                proof {
                    assert(t@.subrange(0, i as int + 1).drop_last() =~= t@.subrange(0, i as int));
                    assert(t@.subrange(0, i as int + 1).last() == t@[i as int]);
                }
                if val > (i64::MAX - (d as i64)) / 10 {
                    proof {
                        if is_number(whole) {
                            assert forall|j: int| 0 <= j < whole.len() implies is_digit(
                                #[trigger] whole[j],
                            ) by {
                                assert(whole[j] == t@[j]);
                            }
                            assert(digits_val(t@.subrange(0, i as int + 1)) > i64::MAX);
                            assert(digits_val(whole.subrange(0, i as int + 1)) == digits_val(
                                t@.subrange(0, i as int + 1),
                            )) by {
                                assert(whole.subrange(0, i as int + 1) =~= t@.subrange(
                                    0,
                                    i as int + 1,
                                ));
                            }
                            lemma_digits_val_prefix(whole, i as int + 1);
                        }
                    }
                    return None;
                }
                val = val * 10 + (d as i64);
                i += 1;
            },
        }
    }
    proof {
        assert(t@.subrange(0, i as int) =~= whole);
        assert(is_number(whole));
    }
    Some(val)
}

/// Whether token `t` spells exactly the keyword `kw`.
pub fn tok_is(t: &Vec<char>, kw: &str) -> (b: bool)
    ensures
        b == (t@ == kw@),
{
    let n: usize = kw.unicode_len();
    if t.len() != n {
        return false;
    }
    let mut i: usize = 0;
    while i < n
        invariant
            i <= n,
            n == kw@.len(),
            t@.len() == n,
            forall|j: int| 0 <= j < i ==> t@[j] == kw@[j],
        decreases n - i,
    {
        if t[i] != kw.get_char(i) {
            return false;
        }
        i += 1;
    }
    proof {
        assert(t@ =~= kw@);
    }
    true
}

// ---------------------------------------------------------------------------
// Rendering numbers
// ---------------------------------------------------------------------------

pub open spec fn dec_digit(n: int) -> char {
    if n == 0 {
        '0'
    } else if n == 1 {
        '1'
    } else if n == 2 {
        '2'
    } else if n == 3 {
        '3'
    } else if n == 4 {
        '4'
    } else if n == 5 {
        '5'
    } else if n == 6 {
        '6'
    } else if n == 7 {
        '7'
    } else if n == 8 {
        '8'
    } else {
        '9'
    }
}

/// The decimal rendering of a non-negative integer.
pub open spec fn dec_str(n: int) -> Seq<char>
    decreases n,
{
    if n < 10 {
        seq![dec_digit(n)]
    } else {
        dec_str(n / 10).push(dec_digit(n % 10))
    }
}

fn digit_str(d: u64) -> (r: &'static str)
    requires
        d < 10,
    ensures
        r@ == seq![dec_digit(d as int)],
{
    proof {
        reveal_strlit("0");
        reveal_strlit("1");
        reveal_strlit("2");
        reveal_strlit("3");
        reveal_strlit("4");
        reveal_strlit("5");
        reveal_strlit("6");
        reveal_strlit("7");
        reveal_strlit("8");
        reveal_strlit("9");
    }
    match d {
        0 => "0",
        1 => "1",
        2 => "2",
        3 => "3",
        4 => "4",
        5 => "5",
        6 => "6",
        7 => "7",
        8 => "8",
        _ => "9",
    }
}

/// Render `n` in decimal.
pub fn u64_to_string(n: u64) -> (r: String)
    ensures
        r@ == dec_str(n as int),
    decreases n,
{
    if n < 10 {
        let s = String::from_str(digit_str(n));
        s
    } else {
        let mut s = u64_to_string(n / 10);
        s.append(digit_str(n % 10));
        proof {
            assert(dec_str(n as int / 10) + seq![dec_digit(n as int % 10)] =~= dec_str(
                n as int / 10,
            ).push(dec_digit(n as int % 10)));
        }
        s
    }
}

/// Parse a whole string as a decimal `u64`; the shape expected of a
/// target-account identifier.
pub fn parse_user_id(s: &str) -> (r: Option<u64>)
    ensures
        match r {
            Some(v) => is_number(s@) && digits_val(s@) == v as int,
            None => !is_number(s@) || digits_val(s@) > u64::MAX,
        },
{
    let n: usize = s.unicode_len();
    if n == 0 {
        return None;
    }
    let mut val: u64 = 0;
    let mut i: usize = 0;
    while i < n
        invariant
            0 <= i <= n,
            n == s@.len(),
            forall|j: int| 0 <= j < i ==> is_digit(#[trigger] s@[j]),
            digits_val(s@.subrange(0, i as int)) == val as int,
        decreases n - i,
    {
        match digit_of(s.get_char(i)) {
            None => {
                return None;
            },
            Some(d) => {
                proof {
                    assert(s@.subrange(0, i as int + 1).drop_last() =~= s@.subrange(0, i as int));
                    assert(s@.subrange(0, i as int + 1).last() == s@[i as int]);
                }
                if val > (u64::MAX - d) / 10 {
                    proof {
                        if is_number(s@) {
                            assert(digits_val(s@.subrange(0, i as int + 1)) > u64::MAX);
                            lemma_digits_val_prefix(s@, i as int + 1);
                        }
                    }
                    return None;
                }
                val = val * 10 + d;
                i += 1;
            },
        }
    }
    proof {
        assert(s@.subrange(0, i as int) =~= s@);
    }
    Some(val)
}

} // verus!
