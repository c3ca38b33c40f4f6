use vstd::prelude::*;
use vstd::string::StrSliceExecFns;
use vstd::string::StringExecFns;

verus! {

/// A cursor type: a value that orders a record among its neighbours and
/// travels through the API as text.
pub trait RelayCursor: Sized {
    /// The text that `to_text` renders for this cursor.
    spec fn spec_text(&self) -> Seq<char>;

    /// The cursor that `parse_text` reads from `s`, or `None` where `s`
    /// names no cursor.
    spec fn spec_parse(s: Seq<char>) -> Option<Self>;

    /// Every cursor reads back from its own text.
    proof fn lemma_round_trip(c: Self)
        ensures
            Self::spec_parse(c.spec_text()) == Some(c),
    ;

    fn to_text(&self) -> (r: String)
        ensures
            r@ == self.spec_text(),
    ;

    /// Reads a cursor from text; the error describes why the text is no cursor.
    fn parse_text(s: &str) -> (r: Result<Self, String>)
        ensures
            match r {
                Ok(c) => Self::spec_parse(s@) == Some(c),
                Err(_) => Self::spec_parse(s@) is None,
            },
    ;
}

pub open spec fn digit_char(d: int) -> char {
    if d == 0 { '0' } else if d == 1 { '1' } else if d == 2 { '2' } else if d == 3 { '3' }
    else if d == 4 { '4' } else if d == 5 { '5' } else if d == 6 { '6' } else if d == 7 { '7' }
    else if d == 8 { '8' } else { '9' }
}

pub open spec fn is_digit(c: char) -> bool {
    '0' <= c <= '9'
}

pub open spec fn digit_value(c: char) -> int {
    c as int - '0' as int
}

/// Decimal digits of `n`, most significant first, without leading zeros.
pub open spec fn nat_text(n: nat) -> Seq<char>
    decreases n,
{
    if n < 10 {
        seq![digit_char(n as int)]
    } else {
        nat_text(n / 10) + seq![digit_char((n % 10) as int)]
    }
}

/// Decimal text of an integer: a minus sign before the digits of a negative one.
pub open spec fn int_text(v: int) -> Seq<char> {
    if v < 0 {
        seq!['-'] + nat_text((-v) as nat)
    } else {
        nat_text(v as nat)
    }
}

pub open spec fn all_digits(s: Seq<char>) -> bool {
    s.len() > 0 && forall|i: int| 0 <= i < s.len() ==> is_digit(#[trigger] s[i])
}

/// Value of a run of decimal digits.
pub open spec fn digits_value(s: Seq<char>) -> int
    decreases s.len(),
{
    if s.len() == 0 {
        0
    } else {
        digits_value(s.drop_last()) * 10 + digit_value(s.last())
    }
}

/// Integer written as an optional sign followed by one or more decimal digits.
pub open spec fn int_of_text(s: Seq<char>) -> Option<int> {
    if s.len() > 0 && s[0] == '-' && all_digits(s.drop_first()) {
        Some(-digits_value(s.drop_first()))
    } else if s.len() > 0 && s[0] == '+' && all_digits(s.drop_first()) {
        Some(digits_value(s.drop_first()))
    } else if all_digits(s) {
        Some(digits_value(s))
    } else {
        None
    }
}

/// An `i32` cursor read from text: a decimal integer within the type's range.
pub open spec fn i32_of_text(s: Seq<char>) -> Option<i32> {
    match int_of_text(s) {
        Some(v) => if i32::MIN <= v <= i32::MAX {
            Some(v as i32)
        } else {
            None
        },
        None => None,
    }
}

/// An `i64` cursor read from text: a decimal integer within the type's range.
pub open spec fn i64_of_text(s: Seq<char>) -> Option<i64> {
    match int_of_text(s) {
        Some(v) => if i64::MIN <= v <= i64::MAX {
            Some(v as i64)
        } else {
            None
        },
        None => None,
    }
}

proof fn lemma_nat_text(n: nat)
    ensures
        all_digits(nat_text(n)),
        digits_value(nat_text(n)) == n,
    decreases n,
{
    let t = nat_text(n);
    if n < 10 {
        assert(t.drop_last() =~= Seq::<char>::empty());
        assert(digits_value(Seq::<char>::empty()) == 0);
        assert(digit_value(digit_char(n as int)) == n);
    } else {
        lemma_nat_text(n / 10);
        assert(t.drop_last() =~= nat_text(n / 10));
        assert(t.last() == digit_char((n % 10) as int));
        assert(digit_value(digit_char((n % 10) as int)) == n % 10);
        assert(n == (n / 10) * 10 + n % 10);
        assert forall|i: int| 0 <= i < t.len() implies is_digit(#[trigger] t[i]) by {
            if i < nat_text(n / 10).len() {
                assert(t[i] == nat_text(n / 10)[i]);
            }
        }
    }
}

proof fn lemma_digits_value_bounds(s: Seq<char>)
    requires
        forall|i: int| 0 <= i < s.len() ==> is_digit(#[trigger] s[i]),
    ensures
        digits_value(s) >= 0,
    decreases s.len(),
{
    if s.len() > 0 {
        lemma_digits_value_bounds(s.drop_last());
        assert(is_digit(s[s.len() - 1]));
    }
}

/// Every integer reads back from its decimal text.
pub proof fn lemma_int_text_round_trip(v: int)
    ensures
        int_of_text(int_text(v)) == Some(v),
{
    if v < 0 {
        let t = int_text(v);
        lemma_nat_text((-v) as nat);
        assert(t.drop_first() =~= nat_text((-v) as nat));
    } else {
        let t = nat_text(v as nat);
        lemma_nat_text(v as nat);
        assert(is_digit(t[0]));
    }
}

fn digit_str(d: u64) -> (r: &'static str)
    requires
        d < 10,
    ensures
        r@ == seq![digit_char(d as int)],
{
    proof {
        reveal_strlit("0");
        reveal_strlit("1");
        reveal_strlit("2");
        reveal_strlit("3");
        reveal_strlit("4");
        reveal_strlit("5");
        reveal_strlit("6");
        reveal_strlit("7");
        reveal_strlit("8");
        reveal_strlit("9");
    }
    let r = if d == 0 { "0" } else if d == 1 { "1" } else if d == 2 { "2" } else if d == 3 { "3" }
    else if d == 4 { "4" } else if d == 5 { "5" } else if d == 6 { "6" } else if d == 7 { "7" }
    else if d == 8 { "8" } else { "9" };
    assert(r@ =~= seq![digit_char(d as int)]);
    r
}

fn push_digits(s: &mut String, n: u64)
    ensures
        final(s)@ == old(s)@ + nat_text(n as nat),
    decreases n,
{
    if n >= 10 {
        push_digits(s, n / 10);
    }
    s.append(digit_str(n % 10));
    assert(final(s)@ =~= old(s)@ + nat_text(n as nat));
}

/// Decimal text of `v`.
pub fn decimal_text(v: i64) -> (r: String)
    ensures
        r@ == int_text(v as int),
{
    proof {
        reveal_strlit("-");
        reveal_strlit("");
    }
    if v < 0 {
        let mut s = String::from_str("-");
        let m: u64 = (-(v as i128)) as u64;
        push_digits(&mut s, m);
        s
    } else {
        let mut s = String::from_str("");
        push_digits(&mut s, v as u64);
        assert(s@ =~= int_text(v as int));
        s
    }
}

proof fn lemma_digits_value_prefix(s: Seq<char>, k: int)
    requires
        0 <= k <= s.len(),
        forall|i: int| 0 <= i < s.len() ==> is_digit(#[trigger] s[i]),
    ensures
        digits_value(s.subrange(0, k)) <= digits_value(s),
    decreases s.len() - k,
{
    if k < s.len() {
        lemma_digits_value_prefix(s, k + 1);
        let p = s.subrange(0, k + 1);
        assert(p.drop_last() =~= s.subrange(0, k));
        assert(is_digit(s[k]));
        assert forall|i: int| 0 <= i < s.subrange(0, k).len() implies is_digit(
            #[trigger] s.subrange(0, k)[i],
        ) by {
            assert(s.subrange(0, k)[i] == s[i]);
        }
        lemma_digits_value_bounds(s.subrange(0, k));
    } else {
        assert(s.subrange(0, k) =~= s);
    }
}

/// Value of the digits of `s` from `start` on, where it is at most `bound`.
fn digits_up_to(s: &str, start: usize, bound: u64) -> (r: Option<u64>)
    requires
        start <= s@.len(),
    ensures
        match r {
            Some(v) => all_digits(s@.subrange(start as int, s@.len() as int)) && v == digits_value(
                s@.subrange(start as int, s@.len() as int),
            ) && v <= bound,
            None => !all_digits(s@.subrange(start as int, s@.len() as int)) || digits_value(
                s@.subrange(start as int, s@.len() as int),
            ) > bound,
        },
{
    let len = s.unicode_len();
    if start >= len {
        return None;
    }
    let ghost t = s@.subrange(start as int, s@.len() as int);
    let mut acc: u64 = 0;
    let mut i: usize = start;
    while i < len
        invariant
            start <= i <= len,
            len == s@.len(),
            t == s@.subrange(start as int, s@.len() as int),
            forall|j: int| 0 <= j < i - start ==> is_digit(#[trigger] t[j]),
            acc == digits_value(t.subrange(0, i - start)),
            acc <= bound,
        decreases len - i,
    {
        let c = s.get_char(i);
        if c < '0' || c > '9' {
            assert(!is_digit(t[i - start]));
            return None;
        }
        let d: u64 = (c as u32 - '0' as u32) as u64;
        let ghost p = t.subrange(0, i - start + 1);
        assert(p.drop_last() =~= t.subrange(0, i - start));
        assert(p.last() == c);
        let next: u128 = acc as u128 * 10 + d as u128;
        if next > bound as u128 {
            proof {
                if all_digits(t) {
                    lemma_digits_value_prefix(t, i - start + 1);
                }
            }
            return None;
        }
        acc = next as u64;
        i = i + 1;
    }
    assert(t.subrange(0, i - start) =~= t);
    Some(acc)
}

/// Reads a decimal integer, with an optional sign, that lies within `[lo, hi]`.
pub fn parse_decimal(s: &str, lo: i64, hi: i64) -> (r: Option<i64>)
    requires
        lo <= 0 <= hi,
    ensures
        r == (match int_of_text(s@) {
            Some(v) => if lo <= v <= hi {
                Some(v as i64)
            } else {
                None
            },
            None => None,
        }),
{
    let len = s.unicode_len();
    if len == 0 {
        return None;
    }
    let c = s.get_char(0);
    assert(s@.drop_first() =~= s@.subrange(1, s@.len() as int));
    assert(s@ =~= s@.subrange(0, s@.len() as int));
    proof {
        if all_digits(s@.drop_first()) {
            lemma_digits_value_bounds(s@.drop_first());
        }
    }
    if c == '-' {
        assert(!is_digit(s@[0]));
        match digits_up_to(s, 1, (-(lo as i128)) as u64) {
            Some(m) => Some((-(m as i128)) as i64),
            None => None,
        }
    } else if c == '+' {
        assert(!is_digit(s@[0]));
        match digits_up_to(s, 1, hi as u64) {
            Some(m) => Some(m as i64),
            None => None,
        }
    } else {
        match digits_up_to(s, 0, hi as u64) {
            Some(m) => Some(m as i64),
            None => {
                proof {
                    if all_digits(s@) {
                        lemma_digits_value_bounds(s@);
                    }
                }
                None
            },
        }
    }
}

impl RelayCursor for i32 {
    open spec fn spec_text(&self) -> Seq<char> {
        int_text(*self as int)
    }

    open spec fn spec_parse(s: Seq<char>) -> Option<i32> {
        i32_of_text(s)
    }

    proof fn lemma_round_trip(c: i32) {
        lemma_int_text_round_trip(c as int);
    }

    fn to_text(&self) -> (r: String) {
        decimal_text(*self as i64)
    }

    fn parse_text(s: &str) -> (r: Result<i32, String>) {
        match parse_decimal(s, i32::MIN as i64, i32::MAX as i64) {
            Some(v) => Ok(v as i32),
            None => Err(String::from_str("cursor is not a decimal integer within range")),
        }
    }
}

impl RelayCursor for i64 {
    open spec fn spec_text(&self) -> Seq<char> {
        int_text(*self as int)
    }

    open spec fn spec_parse(s: Seq<char>) -> Option<i64> {
        i64_of_text(s)
    }

    proof fn lemma_round_trip(c: i64) {
        lemma_int_text_round_trip(c as int);
    }

    fn to_text(&self) -> (r: String) {
        decimal_text(*self)
    }

    fn parse_text(s: &str) -> (r: Result<i64, String>) {
        match parse_decimal(s, i64::MIN, i64::MAX) {
            Some(v) => Ok(v),
            None => Err(String::from_str("cursor is not a decimal integer within range")),
        }
    }
}

} // verus!
