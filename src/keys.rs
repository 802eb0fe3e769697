use vstd::prelude::*;
use vstd::string::{StrSliceExecFns, StringExecFns};

verus! {

/// The character of a decimal digit.
pub open spec fn digit_char(d: nat) -> char {
    if d == 0 { '0' }
    else if d == 1 { '1' }
    else if d == 2 { '2' }
    else if d == 3 { '3' }
    else if d == 4 { '4' }
    else if d == 5 { '5' }
    else if d == 6 { '6' }
    else if d == 7 { '7' }
    else if d == 8 { '8' }
    else { '9' }
}

/// The decimal digits of a natural number, most significant first, without leading zeros.
pub open spec fn digits_of(n: nat) -> Seq<char>
    decreases n,
{
    if n < 10 {
        seq![digit_char(n)]
    } else {
        digits_of(n / 10).push(digit_char(n % 10))
    }
}

/// The decimal rendering of an integer, with a leading `-` when it is negative.
pub open spec fn decimal(n: int) -> Seq<char> {
    if n < 0 {
        seq!['-'] + digits_of((-n) as nat)
    } else {
        digits_of(n as nat)
    }
}

/// The private-pair key of two users: the smaller id, `#`, the larger id.
pub open spec fn private_key(a: i64, b: i64) -> Seq<char> {
    if a < b {
        decimal(a as int) + seq!['#'] + decimal(b as int)
    } else {
        decimal(b as int) + seq!['#'] + decimal(a as int)
    }
}

/// The private-pair key does not depend on which user starts the conversation.
pub proof fn lemma_private_key_symmetric(a: i64, b: i64)
    ensures
        private_key(a, b) == private_key(b, a),
{
}

fn digit_str(d: u64) -> (r: &'static str)
    requires
        d < 10,
    ensures
        r@ == seq![digit_char(d as nat)],
{
    if d == 0 {
        proof { reveal_strlit("0"); }
        "0"
    } else if d == 1 {
        proof { reveal_strlit("1"); }
        "1"
    } else if d == 2 {
        proof { reveal_strlit("2"); }
        "2"
    } else if d == 3 {
        proof { reveal_strlit("3"); }
        "3"
    } else if d == 4 {
        proof { reveal_strlit("4"); }
        "4"
    } else if d == 5 {
        proof { reveal_strlit("5"); }
        "5"
    } else if d == 6 {
        proof { reveal_strlit("6"); }
        "6"
    } else if d == 7 {
        proof { reveal_strlit("7"); }
        "7"
    } else if d == 8 {
        proof { reveal_strlit("8"); }
        "8"
    } else {
        proof { reveal_strlit("9"); }
        "9"
    }
}

fn push_digits(n: u64, out: &mut String)
    ensures
        final(out)@ == old(out)@ + digits_of(n as nat),
    decreases n,
{
    if n >= 10 {
        push_digits(n / 10, out);
    }
    out.append(digit_str(n % 10));
}

/// Appends the decimal rendering of `n` to `out`.
pub fn push_decimal(n: i64, out: &mut String)
    ensures
        final(out)@ == old(out)@ + decimal(n as int),
{
    if n < 0 {
        proof { reveal_strlit("-"); }
        out.append("-");
        let m: u64 = (-(n as i128)) as u64;
        push_digits(m, out);
        assert(out@ =~= old(out)@ + decimal(n as int));
    } else {
        push_digits(n as u64, out);
    }
}

/// The private-pair key of two users, the same whichever comes first.
pub fn create_private_id(user_id1: i64, user_id2: i64) -> (r: String)
    ensures
        r@ == private_key(user_id1, user_id2),
{
    let (lo, hi) = if user_id1 < user_id2 {
        (user_id1, user_id2)
    } else {
        (user_id2, user_id1)
    };
    let mut key = String::new();
    push_decimal(lo, &mut key);
    proof { reveal_strlit("#"); }
    key.append("#");
    push_decimal(hi, &mut key);
    assert(key@ =~= private_key(user_id1, user_id2));
    key
}

pub open spec fn is_digit(c: char) -> bool {
    '0' <= c && c <= '9'
}

pub open spec fn digit_value(c: char) -> int {
    (c as u32) as int - ('0' as u32) as int
}

/// The value of a run of decimal digits, most significant first.
pub open spec fn digits_value(s: Seq<char>) -> int
    decreases s.len(),
{
    if s.len() == 0 {
        0
    } else {
        digits_value(s.drop_last()) * 10 + digit_value(s.last())
    }
}

/// Whether a text is one or more decimal digits.
pub open spec fn all_digits(s: Seq<char>) -> bool {
    s.len() > 0 && forall|i: int| 0 <= i < s.len() ==> is_digit(#[trigger] s[i])
}

/// Whether a text starts with a minus sign.
pub open spec fn negative_sign(s: Seq<char>) -> bool {
    s.len() > 0 && s[0] == '-'
}

/// What follows a leading `-` or `+` of a text; the whole text when it has no sign.
pub open spec fn unsigned_part(s: Seq<char>) -> Seq<char> {
    if s.len() > 0 && (s[0] == '-' || s[0] == '+') {
        s.drop_first()
    } else {
        s
    }
}

/// The integer a text writes in decimal, as `str::parse::<i64>` reads it: an optional sign,
/// then one or more digits, with a value in range; `None` for any other text.
pub open spec fn parsed_i64(s: Seq<char>) -> Option<i64> {
    let v = if negative_sign(s) { -digits_value(unsigned_part(s)) } else { digits_value(unsigned_part(s)) };
    if all_digits(unsigned_part(s)) && i64::MIN <= v <= i64::MAX {
        Some(v as i64)
    } else {
        None
    }
}

proof fn lemma_digits_value_grows(s: Seq<char>, j: int)
    requires
        0 <= j <= s.len(),
        forall|i: int| 0 <= i < s.len() ==> is_digit(#[trigger] s[i]),
    ensures
        0 <= digits_value(s.take(j)) <= digits_value(s),
    decreases s.len(),
{
    if s.len() > 0 {
        let t = s.drop_last();
        assert forall|i: int| 0 <= i < t.len() implies is_digit(#[trigger] t[i]) by {
            assert(t[i] == s[i]);
        }
        assert(is_digit(s[s.len() - 1]));
        if j == s.len() {
            assert(s.take(j) =~= s);
            lemma_digits_value_grows(t, t.len() as int);
            assert(t.take(t.len() as int) =~= t);
        } else {
            lemma_digits_value_grows(t, j);
            assert(t.take(j) =~= s.take(j));
        }
    } else {
        assert(s.take(j) =~= s);
    }
}

const I64_MAGNITUDE: u64 = 9223372036854775808;

/// Reads a decimal integer as `str::parse::<i64>` does.
pub fn parse_i64(s: &str) -> (r: Option<i64>)
    ensures
        r == parsed_i64(s@),
{
    let len = s.unicode_len();
    let mut start: usize = 0;
    let mut negative = false;
    if len > 0 {
        let c = s.get_char(0);
        if c == '-' {
            negative = true;
            start = 1;
        } else if c == '+' {
            start = 1;
        }
    }
    let ghost body = unsigned_part(s@);
    assert(negative == negative_sign(s@));
    assert(body =~= s@.subrange(start as int, len as int));
    if start == len {
        return None;
    }
    let mut acc: u64 = 0;
    let mut i: usize = start;
    while i < len
        invariant
            start <= i <= len,
            len == s@.len(),
            body == s@.subrange(start as int, len as int),
            body == unsigned_part(s@),
            negative == negative_sign(s@),
            forall|k: int| 0 <= k < i - start ==> is_digit(#[trigger] body[k]),
            acc as int == digits_value(body.take(i - start)),
            acc <= I64_MAGNITUDE,
        decreases len - i,
    {
        let c = s.get_char(i);
        assert(c == body[i - start]);
        if c < '0' || c > '9' {
            assert(!is_digit(body[i - start]));
            assert(!all_digits(body));
            return None;
        }
        let d = (c as u32 - '0' as u32) as u64;
        let ghost prefix = body.take(i + 1 - start);
        assert(prefix.drop_last() =~= body.take(i - start));
        assert(prefix.last() == c);
        assert(digit_value(c) == d as int);
        assert(digits_value(prefix) == acc * 10 + d);
        if acc > (I64_MAGNITUDE - d) / 10 {
            proof {
                assert(digits_value(body.take(i + 1 - start)) > I64_MAGNITUDE) by (nonlinear_arith)
                    requires
                        digits_value(body.take(i + 1 - start)) == acc * 10 + d,
                        acc > (I64_MAGNITUDE - d) / 10,
                        d <= 9;
                if all_digits(body) {
                    lemma_digits_value_grows(body, i + 1 - start);
                    assert(digits_value(body) > I64_MAGNITUDE);
                }
                assert(parsed_i64(s@) is None);
            }
            return None;
        }
        acc = acc * 10 + d;
        i += 1;
    }
    assert(body.take(len - start) =~= body);
    if negative {
        if acc == I64_MAGNITUDE {
            Some(i64::MIN)
        } else {
            Some(-(acc as i64))
        }
    } else if acc > i64::MAX as u64 {
        None
    } else {
        Some(acc as i64)
    }
}

} // verus!
