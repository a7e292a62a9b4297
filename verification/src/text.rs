//! Decimal and hexadecimal text.

use vstd::prelude::*;
#[allow(unused_imports)]
use vstd::string::*;

verus! {

/// The lower-case hexadecimal digit for a value below 16.
pub open spec fn hex_digit(n: int) -> char {
    if n < 10 {
        (48 + n) as char
    } else {
        (87 + n) as char
    }
}

/// Two lower-case hexadecimal digits for each byte, the high half first.
pub open spec fn hex_lower(bytes: Seq<u8>) -> Seq<char> {
    Seq::new(
        2 * bytes.len(),
        |i: int|
            hex_digit(
                if i % 2 == 0 {
                    bytes[i / 2] as int / 16
                } else {
                    bytes[i / 2] as int % 16
                },
            ),
    )
}

/// `hex::encode`: the bytes as lower-case hexadecimal text, two digits to a byte.
#[verifier::external_body]
pub(crate) fn hex_encode(bytes: &[u8]) -> (s: String)
    requires
        2 * bytes@.len() <= isize::MAX,
    ensures
        s@ == hex_lower(bytes@),
{
    hex::encode(bytes)
}

/// Different values below 16 have different hexadecimal digits.
proof fn hex_digit_injective(x: int, y: int)
    requires
        0 <= x < 16,
        0 <= y < 16,
        hex_digit(x) == hex_digit(y),
    ensures
        x == y,
{
    assert(hex_digit(x) as int == if x < 10 { 48 + x } else { 87 + x });
    assert(hex_digit(y) as int == if y < 10 { 48 + y } else { 87 + y });
}

/// Different bytes have different hexadecimal texts.
pub proof fn hex_lower_injective(a: Seq<u8>, b: Seq<u8>)
    requires
        hex_lower(a) == hex_lower(b),
    ensures
        a == b,
{
    assert(hex_lower(a).len() == 2 * a.len() && hex_lower(b).len() == 2 * b.len());
    assert forall|i: int| 0 <= i < a.len() implies a[i] == b[i] by {
        assert((2 * i) / 2 == i && (2 * i + 1) / 2 == i);
        assert(hex_lower(a)[2 * i] == hex_digit(a[i] as int / 16));
        assert(hex_lower(b)[2 * i] == hex_digit(b[i] as int / 16));
        assert(hex_lower(a)[2 * i + 1] == hex_digit(a[i] as int % 16));
        assert(hex_lower(b)[2 * i + 1] == hex_digit(b[i] as int % 16));
        hex_digit_injective(a[i] as int / 16, b[i] as int / 16);
        hex_digit_injective(a[i] as int % 16, b[i] as int % 16);
    }
    assert(a =~= b);
}

/// The decimal digit for a value below 10.
pub open spec fn decimal_digit(n: nat) -> char {
    (48 + n) as char
}

/// `n` in decimal, without leading zeros.
pub open spec fn decimal(n: nat) -> Seq<char>
    decreases n,
{
    if n < 10 {
        seq![decimal_digit(n)]
    } else {
        decimal(n / 10).push(decimal_digit(n % 10))
    }
}

/// The text of one decimal digit.
fn digit_text(d: u64) -> (s: &'static str)
    requires
        d < 10,
    ensures
        s@ == seq![decimal_digit(d as nat)],
{
    proof {
        reveal_strlit("0");
        reveal_strlit("1");
        reveal_strlit("2");
        reveal_strlit("3");
        reveal_strlit("4");
        reveal_strlit("5");
        reveal_strlit("6");
        reveal_strlit("7");
        reveal_strlit("8");
        reveal_strlit("9");
    }
    let s = match d {
        0 => "0",
        1 => "1",
        2 => "2",
        3 => "3",
        4 => "4",
        5 => "5",
        6 => "6",
        7 => "7",
        8 => "8",
        _ => "9",
    };
    assert(s@ =~= seq![decimal_digit(d as nat)]);
    s
}

/// `n` in decimal, without leading zeros.
pub fn u64_to_decimal(n: u64) -> (s: String)
    ensures
        s@ == decimal(n as nat),
    decreases n,
{
    if n < 10 {
        digit_text(n).to_string()
    } else {
        let mut s = u64_to_decimal(n / 10);
        s.append(digit_text(n % 10));
        assert(s@ =~= decimal(n as nat / 10).push(decimal_digit(n as nat % 10)));
        s
    }
}

/// Whether `c` is one of the digits 0 to 9.
pub open spec fn is_digit(c: char) -> bool {
    48 <= c as int <= 57
}

/// The number that a sequence of digits denotes.
pub open spec fn decimal_value(digits: Seq<char>) -> nat
    decreases digits.len(),
{
    if digits.len() == 0 {
        0
    } else {
        10 * decimal_value(digits.drop_last()) + (digits.last() as int - 48) as nat
    }
}

/// How many digits `s` begins with.
pub open spec fn digit_run(s: Seq<char>) -> nat
    decreases s.len(),
{
    if s.len() > 0 && is_digit(s[0]) {
        1 + digit_run(s.drop_first())
    } else {
        0
    }
}

/// Every character of `s` is a digit, and there is at least one.
pub open spec fn is_number(s: Seq<char>) -> bool {
    s.len() > 0 && forall|i: int| 0 <= i < s.len() ==> is_digit(#[trigger] s[i])
}

/// The number that `s` begins with, where it begins with one of at most `max`.
pub open spec fn number_prefix(s: Seq<char>, max: nat) -> Option<nat> {
    let value = decimal_value(s.take(digit_run(s) as int));
    if digit_run(s) > 0 && value <= max {
        Some(value)
    } else {
        None
    }
}

/// The number that `s` writes in full, after an optional plus sign, where it
/// writes one of at most `max`.
pub open spec fn number(s: Seq<char>, max: nat) -> Option<nat> {
    let digits = if s.len() > 0 && s[0] == '+' {
        s.drop_first()
    } else {
        s
    };
    if is_number(digits) && decimal_value(digits) <= max {
        Some(decimal_value(digits))
    } else {
        None
    }
}

/// The digits that `s` begins with end at the first character that is none.
pub proof fn digit_run_ends(s: Seq<char>, k: nat)
    requires
        k <= s.len(),
        forall|i: int| 0 <= i < k ==> is_digit(#[trigger] s[i]),
        k < s.len() ==> !is_digit(s[k as int]),
    ensures
        digit_run(s) == k,
    decreases s.len(),
{
    if k > 0 {
        let rest = s.drop_first();
        assert forall|i: int| 0 <= i < k - 1 implies is_digit(#[trigger] rest[i]) by {
            assert(rest[i] == s[i + 1]);
        }
        digit_run_ends(rest, (k - 1) as nat);
    }
}

/// One more digit multiplies the number by ten and adds the digit.
proof fn decimal_value_grows(s: Seq<char>, from: int, k: int)
    requires
        0 <= from <= k < s.len(),
    ensures
        decimal_value(s.subrange(from, k + 1)) == 10 * decimal_value(s.subrange(from, k)) + (
        s[k] as int - 48) as nat,
{
    assert(s.subrange(from, k + 1).drop_last() =~= s.subrange(from, k));
}

/// The value of the digit `c`, where it is one.
fn digit_value(c: char) -> (d: Option<u64>)
    ensures
        match d {
            Some(n) => is_digit(c) && n == c as int - 48,
            None => !is_digit(c),
        },
{
    let code: u32 = c as u32;
    if 48 <= code && code <= 57 {
        Some((code - 48) as u64)
    } else {
        None
    }
}

/// Appends the digit `d` to the number `acc`; nothing once `max` is exceeded.
fn push_digit(acc: Option<u64>, d: u64, max: u64) -> (r: Option<u64>)
    requires
        d < 10,
    ensures
        match acc {
            Some(n) => r == if 10 * n + d <= max {
                Some((10 * n + d) as u64)
            } else {
                None
            },
            None => r is None,
        },
{
    match acc {
        Some(n) => {
            let next: u128 = 10 * (n as u128) + d as u128;
            if next <= max as u128 {
                Some(next as u64)
            } else {
                None
            }
        },
        None => None,
    }
}

/// The number that `s` begins with.
pub fn parse_number_prefix(s: &str) -> (r: Option<u64>)
    ensures
        match number_prefix(s@, u64::MAX as nat) {
            Some(n) => r == Some(n as u64),
            None => r is None,
        },
{
    let ghost mut k: nat = 0;
    let mut any = false;
    let mut done = false;
    let mut value: Option<u64> = Some(0);
    for c in it: s.chars()
        invariant
            it.seq() == s@,
            k <= it.index(),
            any == (k > 0),
            done ==> k < it.index() && !is_digit(s@[k as int]),
            !done ==> k == it.index(),
            forall|i: int| 0 <= i < k ==> is_digit(#[trigger] s@[i]),
            match value {
                Some(n) => decimal_value(s@.subrange(0, k as int)) == n,
                None => decimal_value(s@.subrange(0, k as int)) > u64::MAX,
            },
    {
        if !done {
            match digit_value(c) {
                Some(d) => {
                    value = push_digit(value, d, u64::MAX);
                    any = true;
                    proof {
                        decimal_value_grows(s@, 0, k as int);
                        k = k + 1;
                    }
                },
                None => {
                    done = true;
                },
            }
        }
    }
    proof {
        digit_run_ends(s@, k);
        assert(s@.take(k as int) =~= s@.subrange(0, k as int));
    }
    if any {
        value
    } else {
        None
    }
}

/// The number that `s` writes in full, after an optional plus sign, where it is
/// at most `max`.
pub fn parse_number(s: &str, max: u64) -> (r: Option<u64>)
    ensures
        match number(s@, max as nat) {
            Some(n) => r == Some(n as u64),
            None => r is None,
        },
{
    let ghost from: int = if s@.len() > 0 && s@[0] == '+' {
        1
    } else {
        0
    };
    let mut first = true;
    let mut any = false;
    let mut bad = false;
    let mut value: Option<u64> = Some(0);
    for c in it: s.chars()
        invariant
            it.seq() == s@,
            from == if s@.len() > 0 && s@[0] == '+' {
                1int
            } else {
                0int
            },
            first == (it.index() == 0),
            any == (it.index() > from),
            bad == exists|i: int| from <= i < it.index() && !is_digit(#[trigger] s@[i]),
            !bad && it.index() >= from ==> match value {
                Some(n) => decimal_value(s@.subrange(from, it.index() as int)) == n && n <= max,
                None => decimal_value(s@.subrange(from, it.index() as int)) > max,
            },
            it.index() < from ==> value == Some(0u64),
    {
        let ghost k = it.index() as int;
        if first && c == '+' {
            assert(s@.subrange(1, 1).len() == 0);
        } else {
            any = true;
            match digit_value(c) {
                Some(d) => {
                    value = push_digit(value, d, max);
                    proof {
                        decimal_value_grows(s@, from, k);
                    }
                },
                None => {
                    bad = true;
                    assert(!is_digit(s@[k]));
                },
            }
        }
        first = false;
    }
    let ghost digits = if s@.len() > 0 && s@[0] == '+' {
        s@.drop_first()
    } else {
        s@
    };
    proof {
        assert(digits =~= s@.subrange(from, s@.len() as int));
        if is_number(digits) {
            assert forall|i: int| from <= i < s@.len() implies is_digit(#[trigger] s@[i]) by {
                assert(digits[i - from] == s@[i]);
            }
        } else if any {
            let j = choose|j: int| 0 <= j < digits.len() && !is_digit(#[trigger] digits[j]);
            assert(s@[j + from] == digits[j]);
        }
    }
    if any && !bad {
        value
    } else {
        None
    }
}

/// A number's decimal text consists of digits and denotes that number.
pub proof fn decimal_denotes(n: nat)
    ensures
        is_number(decimal(n)),
        decimal_value(decimal(n)) == n,
    decreases n,
{
    if n >= 10 {
        decimal_denotes(n / 10);
        assert(decimal(n).drop_last() =~= decimal(n / 10));
        assert(decimal_digit(n % 10) as int == 48 + n % 10);
    } else {
        assert(decimal(n).drop_last() =~= Seq::empty());
        assert(decimal_digit(n) as int == 48 + n);
        assert(decimal_value(Seq::<char>::empty()) == 0);
    }
}

/// Reading a number's decimal text gives the number back, whether the text stands
/// alone or is followed by something that does not begin with a digit.
pub proof fn decimal_reads_back(n: nat, max: nat, rest: Seq<char>)
    requires
        n <= max,
        rest.len() > 0 ==> !is_digit(rest[0]),
    ensures
        number(decimal(n), max) == Some(n),
        number_prefix(decimal(n) + rest, max) == Some(n),
{
    decimal_denotes(n);
    let text = decimal(n) + rest;
    assert forall|i: int| 0 <= i < decimal(n).len() implies is_digit(#[trigger] text[i]) by {
        assert(text[i] == decimal(n)[i]);
    }
    digit_run_ends(text, decimal(n).len());
    assert(text.take(decimal(n).len() as int) =~= decimal(n));
    assert(is_digit(decimal(n)[0]));
}

} // verus!
