//! Text helpers shared by the protocol modules: decimal and hexadecimal
//! rendering, and comparison of strings.

use vstd::prelude::*;
use vstd::string::*;
use vstd::utf8::*;

verus! {

/// The character of a decimal digit.
pub open spec fn digit_char(d: nat) -> char
    recommends
        d < 10,
{
    (48 + d) as u8 as char
}

/// The decimal rendering of a natural number, without sign or leading zeros.
pub open spec fn decimal(n: nat) -> Seq<char>
    decreases n,
{
    if n < 10 {
        seq![digit_char(n)]
    } else {
        decimal(n / 10).push(digit_char(n % 10))
    }
}

/// Whether `c` is one of the ten decimal digits.
pub open spec fn is_digit(c: char) -> bool {
    '0' <= c <= '9'
}

/// The number that a decimal digit stands for.
pub open spec fn digit_value(c: char) -> nat
    recommends
        is_digit(c),
{
    (c as u8 - 48) as nat
}

/// Whether every character of `s` is a decimal digit.
pub open spec fn all_digits(s: Seq<char>) -> bool {
    forall|i: int| 0 <= i < s.len() ==> is_digit(#[trigger] s[i])
}

/// The number that a string of decimal digits stands for; 0 for the empty
/// string.
pub open spec fn decimal_value(s: Seq<char>) -> nat
    decreases s.len(),
{
    if s.len() == 0 {
        0
    } else {
        decimal_value(s.drop_last()) * 10 + digit_value(s.last())
    }
}

/// Whether `s` is written as `decimal` writes a number: digits only, at least
/// one, and no leading zero except in `"0"` itself.
pub open spec fn canonical_decimal(s: Seq<char>) -> bool {
    &&& s.len() >= 1
    &&& all_digits(s)
    &&& s.len() == 1 || s[0] != '0'
}

/// `decimal` writes canonically, and reading its result gives the number back.
pub proof fn lemma_decimal_value(n: nat)
    ensures
        canonical_decimal(decimal(n)),
        decimal_value(decimal(n)) == n,
        decimal(n)[0] == '0' <==> n == 0,
        n < 10 ==> decimal(n).len() == 1,
        10 <= n < 100 ==> decimal(n).len() == 2,
        100 <= n < 1000 ==> decimal(n).len() == 3,
    decreases n,
{
    let s = decimal(n);
    if n < 10 {
        assert(s.drop_last() =~= Seq::<char>::empty());
        assert(decimal_value(s) == decimal_value(s.drop_last()) * 10 + digit_value(s.last()));
    } else {
        lemma_decimal_value(n / 10);
        let p = decimal(n / 10);
        assert(s.drop_last() =~= p);
        assert(s[0] == p[0]);
        assert forall|i: int| 0 <= i < s.len() implies is_digit(#[trigger] s[i]) by {
            if i < p.len() {
                assert(s[i] == p[i]);
            }
        }
        assert(decimal_value(s) == decimal_value(s.drop_last()) * 10 + digit_value(s.last()));
    }
}

/// A canonical string of digits is the decimal writing of its own value.
pub proof fn lemma_decimal_of_digits(s: Seq<char>)
    requires
        canonical_decimal(s),
    ensures
        decimal(decimal_value(s)) == s,
        s[0] != '0' ==> decimal_value(s) >= 1,
    decreases s.len(),
{
    if s.len() == 1 {
        assert(s.drop_last() =~= Seq::<char>::empty());
        assert(decimal_value(s.drop_last()) == 0);
        assert(is_digit(s[0]));
        assert(decimal(decimal_value(s)) =~= s);
    } else {
        let p = s.drop_last();
        assert(p[0] == s[0]);
        assert forall|i: int| 0 <= i < p.len() implies is_digit(#[trigger] p[i]) by {
            assert(p[i] == s[i]);
        }
        lemma_decimal_of_digits(p);
        assert(is_digit(s.last()));
        let n = decimal_value(s);
        assert(n == decimal_value(p) * 10 + digit_value(s.last()));
        assert(n / 10 == decimal_value(p));
        assert(n % 10 == digit_value(s.last()));
        assert(decimal(n) =~= s);
    }
}

/// Two numbers with the same decimal writing are equal.
pub proof fn lemma_decimal_injective(m: nat, n: nat)
    requires
        decimal(m) == decimal(n),
    ensures
        m == n,
{
    lemma_decimal_value(m);
    lemma_decimal_value(n);
}

/// The character of a hexadecimal digit, letters in lower case.
pub open spec fn hex_char(d: nat) -> char
    recommends
        d < 16,
{
    if d < 10 {
        (48 + d) as u8 as char
    } else {
        (87 + d) as u8 as char
    }
}

/// The lower-case hexadecimal rendering of a byte string, two digits per byte,
/// the high half first.
pub open spec fn hex_lower(bytes: Seq<u8>) -> Seq<char> {
    Seq::new(
        2 * bytes.len(),
        |i: int|
            if i % 2 == 0 {
                hex_char((bytes[i / 2] / 16) as nat)
            } else {
                hex_char((bytes[i / 2] % 16) as nat)
            },
    )
}

/// Two byte strings with the same hexadecimal writing are equal.
pub proof fn lemma_hex_lower_injective(a: Seq<u8>, b: Seq<u8>)
    requires
        hex_lower(a) == hex_lower(b),
    ensures
        a == b,
{
    assert(hex_lower(a).len() == 2 * a.len());
    assert(hex_lower(b).len() == 2 * b.len());
    assert forall|i: int| 0 <= i < a.len() implies a[i] == b[i] by {
        let high = hex_lower(a)[2 * i];
        let low = hex_lower(a)[2 * i + 1];
        assert(high == hex_char((a[(2 * i) / 2] / 16) as nat));
        assert(low == hex_char((a[(2 * i + 1) / 2] % 16) as nat));
        assert(hex_lower(b)[2 * i] == hex_char((b[(2 * i) / 2] / 16) as nat));
        assert(hex_lower(b)[2 * i + 1] == hex_char((b[(2 * i + 1) / 2] % 16) as nat));
        lemma_hex_char_injective((a[i] / 16) as nat, (b[i] / 16) as nat);
        lemma_hex_char_injective((a[i] % 16) as nat, (b[i] % 16) as nat);
    }
    assert(a =~= b);
}

/// Two hexadecimal digits with the same character are equal.
proof fn lemma_hex_char_injective(d: nat, e: nat)
    requires
        d < 16,
        e < 16,
        hex_char(d) == hex_char(e),
    ensures
        d == e,
{
    assert(hex_char(d) as u8 == if d < 10 {
        48 + d
    } else {
        87 + d
    });
    assert(hex_char(e) as u8 == if e < 10 {
        48 + e
    } else {
        87 + e
    });
}

/// One hexadecimal digit as a string of length one.
pub(crate) fn hex_digit_text(d: u8) -> (r: &'static str)
    requires
        d < 16,
    ensures
        r@ == seq![hex_char(d as nat)],
{
    proof {
        reveal_strlit("0");
        reveal_strlit("1");
        reveal_strlit("2");
        reveal_strlit("3");
        reveal_strlit("4");
        reveal_strlit("5");
        reveal_strlit("6");
        reveal_strlit("7");
        reveal_strlit("8");
        reveal_strlit("9");
        reveal_strlit("a");
        reveal_strlit("b");
        reveal_strlit("c");
        reveal_strlit("d");
        reveal_strlit("e");
        reveal_strlit("f");
    }
    let r = match d {
        0 => "0",
        1 => "1",
        2 => "2",
        3 => "3",
        4 => "4",
        5 => "5",
        6 => "6",
        7 => "7",
        8 => "8",
        9 => "9",
        10 => "a",
        11 => "b",
        12 => "c",
        13 => "d",
        14 => "e",
        _ => "f",
    };
    assert(r@ =~= seq![hex_char(d as nat)]);
    r
}

/// Renders `n` in decimal.
pub fn decimal_text(n: u128) -> (r: String)
    ensures
        r@ == decimal(n as nat),
    decreases n,
{
    if n < 10 {
        String::from_str(hex_digit_text(n as u8))
    } else {
        let mut r = decimal_text(n / 10);
        r.append(hex_digit_text((n % 10) as u8));
        r
    }
}

/// Renders a byte string in lower-case hexadecimal.
pub fn hex_text(bytes: &[u8]) -> (r: String)
    ensures
        r@ == hex_lower(bytes@),
{
    let mut r = String::new();
    let mut i: usize = 0;
    while i < bytes.len()
        invariant
            i <= bytes.len(),
            r@ == hex_lower(bytes@.take(i as int)),
        decreases bytes.len() - i,
    {
        let b = bytes[i];
        r.append(hex_digit_text(b / 16));
        r.append(hex_digit_text(b % 16));
        i += 1;
        assert(r@ =~= hex_lower(bytes@.take(i as int)));
    }
    assert(bytes@.take(i as int) =~= bytes@);
    r
}

/// The lower-case form of an ASCII letter; any other character is itself.
pub open spec fn ascii_lower(c: char) -> char {
    if 'A' <= c <= 'Z' {
        (c as u8 + 32) as u8 as char
    } else {
        c
    }
}

/// Whether two strings are equal up to the case of their ASCII letters.
pub open spec fn eq_ignore_ascii_case(a: Seq<char>, b: Seq<char>) -> bool {
    &&& a.len() == b.len()
    &&& forall|i: int| 0 <= i < a.len() ==> ascii_lower(#[trigger] a[i]) == ascii_lower(b[i])
}

/// What a string of the form `+digits` or `digits` stands for, where that
/// fits into a `usize`; `None` for any other string.
pub open spec fn parse_length(s: Seq<char>) -> Option<nat> {
    let digits = if s.len() > 0 && s[0] == '+' {
        s.drop_first()
    } else {
        s
    };
    if digits.len() >= 1 && all_digits(digits) && decimal_value(digits) <= usize::MAX {
        Some(decimal_value(digits))
    } else {
        None
    }
}

/// Reading more digits never gives less.
pub proof fn lemma_decimal_value_prefix(s: Seq<char>, k: int)
    requires
        0 <= k <= s.len(),
    ensures
        decimal_value(s.take(k)) <= decimal_value(s),
    decreases s.len() - k,
{
    if k == s.len() {
        assert(s.take(k) =~= s);
    } else {
        lemma_decimal_value_prefix(s, k + 1);
        assert(s.take(k + 1).drop_last() =~= s.take(k));
    }
}

/// How digits, the plus sign and letters are told by their ASCII codes.
proof fn lemma_ascii_char(c: char)
    requires
        c <= '\u{7f}',
    ensures
        is_digit(c) <==> 48 <= c as u8 <= 57,
        is_digit(c) ==> digit_value(c) == c as u8 - 48,
        c == '+' <==> c as u8 == 43,
        'A' <= c <= 'Z' <==> 65 <= c as u8 <= 90,
        ascii_lower(c) <= '\u{7f}',
        ascii_lower(c) as u8 == if 65 <= c as u8 <= 90 {
            (c as u8 + 32) as u8
        } else {
            c as u8
        },
{
}

/// Reads a length as `str::parse::<usize>` does: an optional `+`, then
/// decimal digits only, at least one, whose value fits.
pub fn read_length(s: &str) -> (r: Option<usize>)
    ensures
        match r {
            Some(n) => parse_length(s@) == Some(n as nat),
            None => parse_length(s@) is None,
        },
{
    broadcast use is_ascii_chars_encode_utf8;

    let ghost digits = if s@.len() > 0 && s@[0] == '+' {
        s@.drop_first()
    } else {
        s@
    };
    if !s.is_ascii() {
        proof {
            let i = choose|i: int| 0 <= i < s@.len() && !('\0' <= #[trigger] s@[i] <= '\u{7f}');
            if s@.len() > 0 && s@[0] == '+' {
                assert(digits[i - 1] == s@[i]);
            } else {
                assert(digits[i] == s@[i]);
            }
        }
        return None;
    }
    let bytes = s.as_bytes();
    let len = bytes.len();
    proof {
        assert forall|i: int| 0 <= i < s@.len() implies (is_digit(s@[i]) <==> 48 <= #[trigger] bytes@[i]
            <= 57) && (is_digit(s@[i]) ==> digit_value(s@[i]) == bytes@[i] - 48) && (s@[i] == '+'
            <==> bytes@[i] == 43) by {
            lemma_ascii_char(s@[i]);
        }
    }
    let start: usize = if len > 0 && bytes[0] == 43 {
        1
    } else {
        0
    };
    assert(digits =~= s@.subrange(start as int, len as int));
    if start == len {
        return None;
    }
    let mut i: usize = start;
    let mut n: usize = 0;
    assert(digits.take(0) =~= Seq::<char>::empty());
    while i < len
        invariant
            len == s@.len(),
            len == bytes@.len(),
            digits == s@.subrange(start as int, len as int),
            digits == if s@.len() > 0 && s@[0] == '+' {
                s@.drop_first()
            } else {
                s@
            },
            forall|j: int|
                0 <= j < len ==> (is_digit(s@[j]) <==> 48 <= #[trigger] bytes@[j] <= 57),
            forall|j: int|
                0 <= j < len ==> (is_digit(s@[j]) ==> digit_value(s@[j]) == #[trigger] bytes@[j]
                    - 48),
            start <= i <= len,
            all_digits(digits.take(i - start)),
            n == decimal_value(digits.take(i - start)),
        decreases len - i,
    {
        let b = bytes[i];
        let ghost next = digits.take(i - start + 1);
        proof {
            assert(next.drop_last() =~= digits.take(i - start));
            assert(next.last() == s@[i as int]);
            assert(digits[i - start] == s@[i as int]);
        }
        if b < 48 || b > 57 {
            assert(!is_digit(digits[i - start]));
            return None;
        }
        proof {
            lemma_decimal_value_prefix(digits, i - start + 1);
            assert(is_digit(s@[i as int]));
            assert(decimal_value(next) == n * 10 + (b - 48));
            assert forall|j: int| 0 <= j < next.len() implies is_digit(#[trigger] next[j]) by {
                if j < next.len() - 1 {
                    assert(next[j] == digits.take(i - start)[j]);
                }
            }
        }
        let tens = match n.checked_mul(10) {
            Some(t) => t,
            None => {
                return None;
            },
        };
        n = match tens.checked_add((b - 48) as usize) {
            Some(t) => t,
            None => {
                return None;
            },
        };
        i += 1;
    }
    assert(digits.take(i - start) =~= digits);
    Some(n)
}

/// Whether `name` equals `target` up to the case of ASCII letters.
pub(crate) fn eq_ignore_case(name: &str, target: &str) -> (r: bool)
    requires
        target.is_ascii(),
    ensures
        r == eq_ignore_ascii_case(name@, target@),
{
    broadcast use is_ascii_chars_encode_utf8;

    if !name.is_ascii() {
        proof {
            let i = choose|i: int|
                0 <= i < name@.len() && !('\0' <= #[trigger] name@[i] <= '\u{7f}');
            if name@.len() == target@.len() {
                lemma_ascii_char(target@[i]);
                assert(ascii_lower(name@[i]) != ascii_lower(target@[i]));
            }
        }
        return false;
    }
    let a = name.as_bytes();
    let b = target.as_bytes();
    if a.len() != b.len() {
        return false;
    }
    let mut i: usize = 0;
    while i < a.len()
        invariant
            a@.len() == name@.len(),
            b@.len() == target@.len(),
            a@.len() == b@.len(),
            is_ascii_chars(name@),
            is_ascii_chars(target@),
            forall|j: int| 0 <= j < a@.len() ==> #[trigger] a@[j] == name@[j] as u8,
            forall|j: int| 0 <= j < b@.len() ==> #[trigger] b@[j] == target@[j] as u8,
            i <= a.len(),
            forall|j: int| 0 <= j < i ==> ascii_lower(#[trigger] name@[j]) == ascii_lower(target@[j]),
        decreases a.len() - i,
    {
        let x = a[i];
        let y = b[i];
        let lx = if 65 <= x && x <= 90 {
            x + 32
        } else {
            x
        };
        let ly = if 65 <= y && y <= 90 {
            y + 32
        } else {
            y
        };
        proof {
            lemma_ascii_char(name@[i as int]);
            lemma_ascii_char(target@[i as int]);
            lemma_ascii_cast(ascii_lower(name@[i as int]), ascii_lower(target@[i as int]));
        }
        if lx != ly {
            return false;
        }
        i += 1;
    }
    true
}

/// Two ASCII characters are the same when their codes are.
proof fn lemma_ascii_cast(c: char, d: char)
    requires
        c <= '\u{7f}',
        d <= '\u{7f}',
    ensures
        c == d <==> c as u8 == d as u8,
{
}

/// A text as `Debug` shows it: in double quotes, with what cannot stand
/// there as it is escaped.
pub uninterp spec fn debug_text(text: Seq<char>) -> Seq<char>;

/// `<str as Debug>::fmt`, through `format!("{:?}", ..)`: the text as a
/// string literal would hold it. The result depends on the text alone.
#[verifier::external_body]
pub(crate) fn quoted(text: &str) -> (r: String)
    ensures
        r@ == debug_text(text@),
{
    format!("{:?}", text)
}

/// Whether two strings hold the same characters.
pub fn same_text(a: &str, b: &str) -> (r: bool)
    ensures
        r == (a@ == b@),
{
    let x = a.to_owned();
    let y = b.to_owned();
    x == y
}

} // verus!
