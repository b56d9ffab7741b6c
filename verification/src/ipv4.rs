//! IPv4 addresses in dotted-decimal text.

use crate::text::{
    all_digits, decimal, decimal_text, decimal_value, is_digit, lemma_decimal_injective,
    lemma_decimal_of_digits, lemma_decimal_value,
};
use vstd::prelude::*;
use vstd::string::*;
use vstd::utf8::*;

verus! {

/// An IPv4 address, by its four octets in network order.
#[derive(Clone, Copy, Debug, PartialEq, Eq, Structural)]
pub struct Ipv4 {
    pub a: u8,
    pub b: u8,
    pub c: u8,
    pub d: u8,
}

/// Whether the digits of `s` from `pos` up to `end` are the decimal writing of
/// `v`, and no digit follows them.
pub open spec fn octet_at(s: Seq<char>, pos: int, v: u8, end: int) -> bool {
    &&& 0 <= pos < end <= s.len()
    &&& s.subrange(pos, end) == decimal(v as nat)
    &&& (end == s.len() || !is_digit(s[end]))
}

/// An octet that begins where a run of digits begins ends where the run
/// ends.
proof fn lemma_run_end(s: Seq<char>, pos: int, end: int, v: u8, e: int)
    requires
        0 <= pos <= end <= s.len(),
        all_digits(s.subrange(pos, end)),
        end == s.len() || !is_digit(s[end]),
        octet_at(s, pos, v, e),
    ensures
        e == end,
{
    lemma_decimal_value(v as nat);
    if e < end {
        assert(s.subrange(pos, end)[e - pos] == s[e]);
    } else if end < e {
        assert(s.subrange(pos, e)[end - pos] == s[end]);
    }
}

/// At one place a text holds at most one octet.
proof fn lemma_octet_unique(s: Seq<char>, pos: int, v1: u8, e1: int, v2: u8, e2: int)
    requires
        octet_at(s, pos, v1, e1),
        octet_at(s, pos, v2, e2),
    ensures
        v1 == v2,
        e1 == e2,
{
    lemma_decimal_value(v1 as nat);
    lemma_run_end(s, pos, e1, v2, e2);
    lemma_decimal_injective(v1 as nat, v2 as nat);
}

/// How the digits and the dot are told by their ASCII codes.
proof fn lemma_ascii_digit(c: char)
    requires
        c <= '\u{7f}',
    ensures
        is_digit(c) <==> 48 <= c as u8 <= 57,
        c == '.' <==> c as u8 == 46,
{
}

/// Reads the octet whose digits begin at `pos`.
fn read_octet(s: &str, pos: usize) -> (r: Option<(u8, usize)>)
    requires
        s.is_ascii(),
        pos <= s@.len(),
    ensures
        match r {
            Some((v, end)) => octet_at(s@, pos as int, v, end as int),
            None => forall|v: u8, end: int| !octet_at(s@, pos as int, v, end),
        },
{
    broadcast use is_ascii_chars_encode_utf8;

    let bytes = s.as_bytes();
    let len = bytes.len();
    let mut end: usize = pos;
    let mut v: u16 = 0;
    proof {
        assert(s@.subrange(pos as int, pos as int) =~= Seq::<char>::empty());
        assert forall|i: int| 0 <= i < s@.len() implies (is_digit(s@[i]) <==> 48 <= #[trigger] bytes@[i]
            <= 57) by {
            lemma_ascii_digit(s@[i]);
        }
    }
    while end < len && end - pos < 3 && bytes[end] >= 48 && bytes[end] <= 57
        invariant
            len == s@.len(),
            len == bytes@.len(),
            forall|i: int| 0 <= i < len ==> bytes@[i] == s@[i] as u8,
            forall|i: int| 0 <= i < len ==> (is_digit(s@[i]) <==> 48 <= #[trigger] bytes@[i] <= 57),
            pos <= end <= len,
            end - pos <= 3,
            all_digits(s@.subrange(pos as int, end as int)),
            v == decimal_value(s@.subrange(pos as int, end as int)),
            end - pos == 0 ==> v == 0,
            end - pos == 1 ==> v < 10,
            end - pos == 2 ==> v < 100,
            end - pos == 3 ==> v < 1000,
        decreases len - end,
    {
        let digit: u16 = (bytes[end] - 48) as u16;
        proof {
            let old_run = s@.subrange(pos as int, end as int);
            let new_run = s@.subrange(pos as int, end + 1);
            assert(new_run.drop_last() =~= old_run);
            assert(new_run.last() == s@[end as int]);
            assert forall|i: int| 0 <= i < new_run.len() implies is_digit(#[trigger] new_run[i]) by {
                if i < old_run.len() {
                    assert(new_run[i] == old_run[i]);
                }
            }
        }
        v = v * 10 + digit;
        end += 1;
    }
    let ghost run = s@.subrange(pos as int, end as int);
    if end == pos {
        proof {
            assert forall|w: u8, e: int| !octet_at(s@, pos as int, w, e) by {
                if octet_at(s@, pos as int, w, e) {
                    lemma_decimal_value(w as nat);
                    assert(s@.subrange(pos as int, e)[0] == s@[pos as int]);
                }
            }
        }
        return None;
    }
    if end < len && bytes[end] >= 48 && bytes[end] <= 57 {
        proof {
            assert forall|w: u8, e: int| !octet_at(s@, pos as int, w, e) by {
                if octet_at(s@, pos as int, w, e) {
                    lemma_decimal_value(w as nat);
                    assert(e <= end);
                    if e < end {
                        assert(run[e - pos] == s@[e]);
                    }
                }
            }
        }
        return None;
    }
    if (end - pos > 1 && bytes[pos] == 48) || v > 255 {
        proof {
            assert(run[0] == s@[pos as int]);
            assert forall|w: u8, e: int| !octet_at(s@, pos as int, w, e) by {
                if octet_at(s@, pos as int, w, e) {
                    lemma_run_end(s@, pos as int, end as int, w, e);
                    lemma_decimal_value(w as nat);
                }
            }
        }
        return None;
    }
    proof {
        assert(run[0] == s@[pos as int]);
        lemma_decimal_of_digits(run);
    }
    Some((v as u8, end))
}

impl Ipv4 {
    /// The address in dotted-decimal text: the four octets in decimal, with
    /// a dot between each two.
    pub open spec fn text(self) -> Seq<char> {
        decimal(self.a as nat) + seq!['.'] + decimal(self.b as nat) + seq!['.'] + decimal(
            self.c as nat,
        ) + seq!['.'] + decimal(self.d as nat)
    }

    /// Writes the address in dotted-decimal text.
    pub fn to_text(&self) -> (r: String)
        ensures
            r@ == self.text(),
    {
        proof {
            reveal_strlit(".");
            assert("."@ =~= seq!['.']);
        }
        let mut r = decimal_text(self.a as u128);
        r.append(".");
        r.append(decimal_text(self.b as u128).as_str());
        r.append(".");
        r.append(decimal_text(self.c as u128).as_str());
        r.append(".");
        r.append(decimal_text(self.d as u128).as_str());
        r
    }

    /// The address that a text stands for: the one whose dotted-decimal
    /// text it is, where there is one.
    pub open spec fn parsed(s: Seq<char>) -> Option<Ipv4> {
        if exists|x: Ipv4| x.text() == s {
            Some(choose|x: Ipv4| x.text() == s)
        } else {
            None
        }
    }

    /// Reads an address from dotted-decimal text. The text is accepted
    /// exactly when it is what `to_text` writes for some address: four
    /// decimal octets without leading zeros, nothing before, between or after.
    pub fn parse(s: &str) -> (r: Option<Ipv4>)
        ensures
            r == Ipv4::parsed(s@),
            match r {
                Some(x) => x.text() == s@,
                None => forall|x: Ipv4| x.text() != s@,
            },
    {
        let r = Ipv4::read(s);
        proof {
            if let Some(x) = r {
                lemma_text_injective(x, choose|y: Ipv4| y.text() == s@);
            }
        }
        r
    }

    /// Reads the four octets and the dots between them.
    fn read(s: &str) -> (r: Option<Ipv4>)
        ensures
            match r {
                Some(x) => x.text() == s@,
                None => forall|x: Ipv4| x.text() != s@,
            },
    {
        broadcast use is_ascii_chars_encode_utf8;

        if !s.is_ascii() {
            proof {
                assert forall|x: Ipv4| x.text() != s@ by {
                    lemma_text_shape(x);
                }
            }
            return None;
        }
        let bytes = s.as_bytes();
        let len = bytes.len();
        proof {
            assert forall|i: int| 0 <= i < s@.len() implies (s@[i] == '.' <==> #[trigger] bytes@[i]
                == 46) by {
                lemma_ascii_digit(s@[i]);
            }
        }
        let (a, e0) = match read_octet(s, 0) {
            Some(found) => found,
            None => {
                proof {
                    assert forall|x: Ipv4| x.text() != s@ by {
                        lemma_text_shape(x);
                    }
                }
                return None;
            },
        };
        if e0 >= len || bytes[e0] != 46 {
            proof {
                assert forall|x: Ipv4| x.text() != s@ by {
                    lemma_text_shape(x);
                    if x.text() == s@ {
                        lemma_octet_unique(s@, 0, a, e0 as int, x.a, x.end_a());
                    }
                }
            }
            return None;
        }
        let (b, e1) = match read_octet(s, e0 + 1) {
            Some(found) => found,
            None => {
                proof {
                    assert forall|x: Ipv4| x.text() != s@ by {
                        lemma_text_shape(x);
                        if x.text() == s@ {
                            lemma_octet_unique(s@, 0, a, e0 as int, x.a, x.end_a());
                        }
                    }
                }
                return None;
            },
        };
        if e1 >= len || bytes[e1] != 46 {
            proof {
                assert forall|x: Ipv4| x.text() != s@ by {
                    lemma_text_shape(x);
                    if x.text() == s@ {
                        lemma_octet_unique(s@, 0, a, e0 as int, x.a, x.end_a());
                        lemma_octet_unique(s@, e0 + 1, b, e1 as int, x.b, x.end_b());
                    }
                }
            }
            return None;
        }
        let (c, e2) = match read_octet(s, e1 + 1) {
            Some(found) => found,
            None => {
                proof {
                    assert forall|x: Ipv4| x.text() != s@ by {
                        lemma_text_shape(x);
                        if x.text() == s@ {
                            lemma_octet_unique(s@, 0, a, e0 as int, x.a, x.end_a());
                            lemma_octet_unique(s@, e0 + 1, b, e1 as int, x.b, x.end_b());
                        }
                    }
                }
                return None;
            },
        };
        if e2 >= len || bytes[e2] != 46 {
            proof {
                assert forall|x: Ipv4| x.text() != s@ by {
                    lemma_text_shape(x);
                    if x.text() == s@ {
                        lemma_octet_unique(s@, 0, a, e0 as int, x.a, x.end_a());
                        lemma_octet_unique(s@, e0 + 1, b, e1 as int, x.b, x.end_b());
                        lemma_octet_unique(s@, e1 + 1, c, e2 as int, x.c, x.end_c());
                    }
                }
            }
            return None;
        }
        let (d, e3) = match read_octet(s, e2 + 1) {
            Some(found) => found,
            None => {
                proof {
                    assert forall|x: Ipv4| x.text() != s@ by {
                        lemma_text_shape(x);
                        if x.text() == s@ {
                            lemma_octet_unique(s@, 0, a, e0 as int, x.a, x.end_a());
                            lemma_octet_unique(s@, e0 + 1, b, e1 as int, x.b, x.end_b());
                            lemma_octet_unique(s@, e1 + 1, c, e2 as int, x.c, x.end_c());
                        }
                    }
                }
                return None;
            },
        };
        if e3 != len {
            proof {
                assert forall|x: Ipv4| x.text() != s@ by {
                    lemma_text_shape(x);
                    if x.text() == s@ {
                        lemma_octet_unique(s@, 0, a, e0 as int, x.a, x.end_a());
                        lemma_octet_unique(s@, e0 + 1, b, e1 as int, x.b, x.end_b());
                        lemma_octet_unique(s@, e1 + 1, c, e2 as int, x.c, x.end_c());
                        lemma_octet_unique(s@, e2 + 1, d, e3 as int, x.d, x.text().len() as int);
                    }
                }
            }
            return None;
        }
        let r = Ipv4 { a, b, c, d };
        proof {
            let t = s@;
            assert(t =~= t.subrange(0, e0 as int) + seq!['.'] + t.subrange(e0 + 1, e1 as int)
                + seq!['.'] + t.subrange(e1 + 1, e2 as int) + seq!['.'] + t.subrange(
                e2 + 1,
                e3 as int,
            ));
        }
        Some(r)
    }

    /// Where the first octet ends in the address's text.
    spec fn end_a(self) -> int {
        decimal(self.a as nat).len() as int
    }

    /// Where the second octet ends in the address's text.
    spec fn end_b(self) -> int {
        self.end_a() + 1 + decimal(self.b as nat).len()
    }

    /// Where the third octet ends in the address's text.
    spec fn end_c(self) -> int {
        self.end_b() + 1 + decimal(self.c as nat).len()
    }
}

/// The shape of an address's text: four octets, each followed by a dot but
/// the last, which ends the text; all of it ASCII.
proof fn lemma_text_shape(x: Ipv4)
    ensures
        octet_at(x.text(), 0, x.a, x.end_a()),
        x.text()[x.end_a()] == '.',
        octet_at(x.text(), x.end_a() + 1, x.b, x.end_b()),
        x.text()[x.end_b()] == '.',
        octet_at(x.text(), x.end_b() + 1, x.c, x.end_c()),
        x.text()[x.end_c()] == '.',
        octet_at(x.text(), x.end_c() + 1, x.d, x.text().len() as int),
        is_ascii_chars(x.text()),
{
    let t = x.text();
    let da = decimal(x.a as nat);
    let db = decimal(x.b as nat);
    let dc = decimal(x.c as nat);
    let dd = decimal(x.d as nat);
    lemma_decimal_value(x.a as nat);
    lemma_decimal_value(x.b as nat);
    lemma_decimal_value(x.c as nat);
    lemma_decimal_value(x.d as nat);
    assert(t.subrange(0, x.end_a()) =~= da);
    assert(t.subrange(x.end_a() + 1, x.end_b()) =~= db);
    assert(t.subrange(x.end_b() + 1, x.end_c()) =~= dc);
    assert(t.subrange(x.end_c() + 1, t.len() as int) =~= dd);
    assert forall|i: int| 0 <= i < t.len() implies '\0' <= #[trigger] t[i] <= '\u{7f}' by {
        if i < x.end_a() {
            assert(t[i] == da[i]);
        } else if i == x.end_a() {
        } else if i < x.end_b() {
            assert(t[i] == db[i - x.end_a() - 1]);
        } else if i == x.end_b() {
        } else if i < x.end_c() {
            assert(t[i] == dc[i - x.end_b() - 1]);
        } else if i == x.end_c() {
        } else {
            assert(t[i] == dd[i - x.end_c() - 1]);
        }
    }
}

/// Two addresses with the same text are the same address: reading what
/// `to_text` wrote gives the address back.
pub proof fn lemma_text_injective(x: Ipv4, y: Ipv4)
    requires
        x.text() == y.text(),
    ensures
        x == y,
{
    lemma_text_shape(x);
    lemma_text_shape(y);
    let t = x.text();
    lemma_octet_unique(t, 0, x.a, x.end_a(), y.a, y.end_a());
    lemma_octet_unique(t, x.end_a() + 1, x.b, x.end_b(), y.b, y.end_b());
    lemma_octet_unique(t, x.end_b() + 1, x.c, x.end_c(), y.c, y.end_c());
    lemma_octet_unique(t, x.end_c() + 1, x.d, t.len() as int, y.d, t.len() as int);
}

/// Reading the text of an address gives the address.
pub proof fn lemma_parsed_text(x: Ipv4)
    ensures
        Ipv4::parsed(x.text()) == Some(x),
{
    lemma_text_injective(x, choose|y: Ipv4| y.text() == x.text());
}

} // verus!
