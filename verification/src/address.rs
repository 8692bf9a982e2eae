//! IPv4 addresses and their dotted decimal text.

use crate::error::RunError;
use vstd::prelude::*;
use vstd::string::{StrSliceExecFns, StringExecFns};

verus! {

/// An IPv4 address: its four octets, the first one first.
#[derive(Clone, Copy, Debug, PartialEq, Eq, Structural)]
pub struct Ipv4Address(pub u8, pub u8, pub u8, pub u8);

/// Whether a character is one of the ten decimal digits.
pub open spec fn is_digit(c: char) -> bool {
    48 <= c as u32 <= 57
}

/// The character that writes a digit.
pub open spec fn digit(d: int) -> char {
    ((48 + d) as u8) as char
}

/// An octet in decimal, with no zeros in front.
pub open spec fn octet_text(v: u8) -> Seq<char> {
    if v < 10 {
        seq![digit(v as int)]
    } else if v < 100 {
        seq![digit(v as int / 10), digit(v as int % 10)]
    } else {
        seq![digit(v as int / 100), digit((v as int / 10) % 10), digit(v as int % 10)]
    }
}

/// An address in dotted decimal: its four octets in decimal, with a dot
/// between each two.
pub open spec fn dotted(ip: Ipv4Address) -> Seq<char> {
    octet_text(ip.0) + seq!['.'] + octet_text(ip.1) + seq!['.'] + octet_text(ip.2) + seq!['.']
        + octet_text(ip.3)
}

/// The address that a text writes: the one whose dotted decimal form the
/// text is, letter for letter, if there is one.
pub open spec fn parsed(text: Seq<char>) -> Option<Ipv4Address> {
    if exists|ip: Ipv4Address| dotted(ip) == text {
        Some(choose|ip: Ipv4Address| dotted(ip) == text)
    } else {
        None
    }
}

/// From `start` to `end` the text holds the octet `v` in decimal, and no
/// digit follows.
pub open spec fn octet_at(s: Seq<char>, start: int, end: int, v: u8) -> bool {
    &&& 0 <= start <= end <= s.len()
    &&& s.subrange(start, end) == octet_text(v)
    &&& (end == s.len() || !is_digit(s[end]))
}

/// The text is `ip` in dotted decimal, with the dots at `dot1`, `dot2` and `dot3`.
pub open spec fn laid_out(s: Seq<char>, ip: Ipv4Address, dot1: int, dot2: int, dot3: int) -> bool {
    &&& octet_at(s, 0, dot1, ip.0)
    &&& dot1 < s.len() && s[dot1] == '.'
    &&& octet_at(s, dot1 + 1, dot2, ip.1)
    &&& dot2 < s.len() && s[dot2] == '.'
    &&& octet_at(s, dot2 + 1, dot3, ip.2)
    &&& dot3 < s.len() && s[dot3] == '.'
    &&& octet_at(s, dot3 + 1, s.len() as int, ip.3)
}

/// An octet in decimal is one to three digits; its first digit is zero only
/// where the octet is zero.
pub proof fn lemma_octet_text(v: u8)
    ensures
        1 <= octet_text(v).len() <= 3,
        forall|k: int| 0 <= k < octet_text(v).len() ==> is_digit(#[trigger] octet_text(v)[k]),
        octet_text(v)[0] == digit(0) ==> v == 0,
{
}

/// Two octets with the same decimal text are the same octet.
pub proof fn lemma_octet_text_injective(v: u8, w: u8)
    requires
        octet_text(v) == octet_text(w),
    ensures
        v == w,
{
    let a = octet_text(v);
    let b = octet_text(w);
    assert(a.len() == b.len());
    assert(a[0] == b[0]);
    if a.len() >= 2 {
        assert(a[1] == b[1]);
    }
    if a.len() >= 3 {
        assert(a[2] == b[2]);
    }
}

/// At one place a text holds at most one octet.
pub proof fn lemma_octet_at_unique(s: Seq<char>, start: int, e1: int, v1: u8, e2: int, v2: u8)
    requires
        octet_at(s, start, e1, v1),
        octet_at(s, start, e2, v2),
    ensures
        e1 == e2,
        v1 == v2,
{
    lemma_octet_text(v1);
    lemma_octet_text(v2);
    let t1 = s.subrange(start, e1);
    let t2 = s.subrange(start, e2);
    if e1 < e2 {
        assert(t2[e1 - start] == s[e1]);
    }
    if e2 < e1 {
        assert(t1[e2 - start] == s[e2]);
    }
    lemma_octet_text_injective(v1, v2);
}

/// The dotted decimal form of an address is laid out as its four octets
/// with dots between them, and is 7 to 15 characters long.
pub proof fn lemma_dotted_layout(ip: Ipv4Address) -> (p: (int, int, int))
    ensures
        laid_out(dotted(ip), ip, p.0, p.1, p.2),
        7 <= dotted(ip).len() <= 15,
{
    let s = dotted(ip);
    let a = octet_text(ip.0);
    let b = octet_text(ip.1);
    let c = octet_text(ip.2);
    let d = octet_text(ip.3);
    lemma_octet_text(ip.0);
    lemma_octet_text(ip.1);
    lemma_octet_text(ip.2);
    lemma_octet_text(ip.3);
    let dot1 = a.len() as int;
    let dot2 = dot1 + 1 + b.len();
    let dot3 = dot2 + 1 + c.len();
    assert(s.len() == dot3 + 1 + d.len());
    assert(s.subrange(0, dot1) =~= a);
    assert(s.subrange(dot1 + 1, dot2) =~= b);
    assert(s.subrange(dot2 + 1, dot3) =~= c);
    assert(s.subrange(dot3 + 1, s.len() as int) =~= d);
    assert(s[dot1] == '.');
    assert(s[dot2] == '.');
    assert(s[dot3] == '.');
    (dot1, dot2, dot3)
}

/// A text that is laid out as an address in dotted decimal is the dotted
/// decimal form of that address.
pub proof fn lemma_laid_out_is_dotted(s: Seq<char>, ip: Ipv4Address, dot1: int, dot2: int, dot3: int)
    requires
        laid_out(s, ip, dot1, dot2, dot3),
    ensures
        s == dotted(ip),
{
    let a = s.subrange(0, dot1);
    let b = s.subrange(dot1 + 1, dot2);
    let c = s.subrange(dot2 + 1, dot3);
    let d = s.subrange(dot3 + 1, s.len() as int);
    assert(s =~= a + seq!['.'] + b + seq!['.'] + c + seq!['.'] + d);
}

/// A text is laid out as an address in at most one way.
pub proof fn lemma_layout_unique(
    s: Seq<char>,
    x: Ipv4Address,
    dot1: int,
    dot2: int,
    dot3: int,
    y: Ipv4Address,
    q1: int,
    q2: int,
    q3: int,
)
    requires
        laid_out(s, x, dot1, dot2, dot3),
        laid_out(s, y, q1, q2, q3),
    ensures
        x == y,
        dot1 == q1,
        dot2 == q2,
        dot3 == q3,
{
    lemma_octet_at_unique(s, 0, dot1, x.0, q1, y.0);
    lemma_octet_at_unique(s, dot1 + 1, dot2, x.1, q2, y.1);
    lemma_octet_at_unique(s, dot2 + 1, dot3, x.2, q3, y.2);
    lemma_octet_at_unique(s, dot3 + 1, s.len() as int, x.3, s.len() as int, y.3);
}

/// Two addresses with the same dotted decimal form are the same address.
pub proof fn law_dotted_injective(x: Ipv4Address, y: Ipv4Address)
    requires
        dotted(x) == dotted(y),
    ensures
        x == y,
{
    let p = lemma_dotted_layout(x);
    let q = lemma_dotted_layout(y);
    lemma_layout_unique(dotted(x), x, p.0, p.1, p.2, y, q.0, q.1, q.2);
}

/// Reading the dotted decimal form of an address gives the address back.
pub proof fn law_parse_inverts_dotted(ip: Ipv4Address)
    ensures
        parsed(dotted(ip)) == Some(ip),
{
    let found = choose|x: Ipv4Address| dotted(x) == dotted(ip);
    law_dotted_injective(found, ip);
}

/// The text of one digit.
fn digit_text(d: u8) -> (text: &'static str)
    requires
        d <= 9,
    ensures
        text@ == seq![digit(d as int)],
{
    proof {
        reveal_strlit("0");
        reveal_strlit("1");
        reveal_strlit("2");
        reveal_strlit("3");
        reveal_strlit("4");
        reveal_strlit("5");
        reveal_strlit("6");
        reveal_strlit("7");
        reveal_strlit("8");
        reveal_strlit("9");
    }
    let text = if d == 0 {
        "0"
    } else if d == 1 {
        "1"
    } else if d == 2 {
        "2"
    } else if d == 3 {
        "3"
    } else if d == 4 {
        "4"
    } else if d == 5 {
        "5"
    } else if d == 6 {
        "6"
    } else if d == 7 {
        "7"
    } else if d == 8 {
        "8"
    } else {
        "9"
    };
    assert(text@ =~= seq![digit(d as int)]);
    text
}

/// Writes an octet in decimal at the end of a text.
fn push_octet(text: &mut String, v: u8)
    ensures
        final(text)@ == old(text)@ + octet_text(v),
{
    if v >= 100 {
        text.append(digit_text(v / 100));
    }
    if v >= 10 {
        text.append(digit_text((v / 10) % 10));
    }
    text.append(digit_text(v % 10));
    assert(text@ =~= old(text)@ + octet_text(v));
}

/// Writes a dot at the end of a text.
fn push_dot(text: &mut String)
    ensures
        final(text)@ == old(text)@ + seq!['.'],
{
    proof {
        reveal_strlit(".");
    }
    text.append(".");
    assert(text@ =~= old(text)@ + seq!['.']);
}

impl Ipv4Address {
    /// The address in dotted decimal.
    pub fn to_text(&self) -> (text: String)
        ensures
            text@ == dotted(*self),
            parsed(text@) == Some(*self),
    {
        let mut text = String::new();
        push_octet(&mut text, self.0);
        push_dot(&mut text);
        push_octet(&mut text, self.1);
        push_dot(&mut text);
        push_octet(&mut text, self.2);
        push_dot(&mut text);
        push_octet(&mut text, self.3);
        proof {
            assert(text@ =~= dotted(*self));
            law_parse_inverts_dotted(*self);
        }
        text
    }
}

/// The digit at place `i`, if the text has a digit there.
fn digit_at(text: &str, n: usize, i: usize) -> (r: Option<u8>)
    requires
        n == text@.len(),
        i <= n,
    ensures
        match r {
            Some(d) => i < n && d <= 9 && text@[i as int] == digit(d as int),
            None => i == n || !is_digit(text@[i as int]),
        },
{
    if i >= n {
        return None;
    }
    let c = text.get_char(i);
    let code: u32 = c as u32;
    if 48 <= code && code <= 57 {
        let d: u8 = (code - 48) as u8;
        Some(d)
    } else {
        None
    }
}

/// Reads the octet that begins at `start`: one to three digits, with no
/// zero in front of another digit, of a value up to 255, and no digit
/// after them.
fn read_octet(text: &str, n: usize, start: usize) -> (r: Option<(u8, usize)>)
    requires
        n == text@.len(),
        start <= n,
        n <= 15,
    ensures
        match r {
            Some((v, end)) => octet_at(text@, start as int, end as int, v) && start < end,
            None => forall|v: u8, end: int| !octet_at(text@, start as int, end, v),
        },
{
    let ghost s = text@;
    let ghost st = start as int;
    proof {
        assert forall|v: u8, end: int| octet_at(s, st, end, v) implies {
            &&& end - st == octet_text(v).len()
            &&& forall|k: int|
                0 <= k < end - st ==> s[st + k] == #[trigger] octet_text(v)[k]
        } by {
            let t = s.subrange(st, end);
            assert forall|k: int| 0 <= k < end - st implies s[st + k] == #[trigger] octet_text(
                v,
            )[k] by {
                assert(t[k] == s[st + k]);
            }
        }
    }
    let d0 = match digit_at(text, n, start) {
        Some(d) => d,
        None => {
            proof {
                assert forall|v: u8, end: int| !octet_at(s, st, end, v) by {
                    lemma_octet_text(v);
                    if octet_at(s, st, end, v) {
                        assert(s[st + 0] == octet_text(v)[0]);
                    }
                }
            }
            return None;
        },
    };
    let d1 = match digit_at(text, n, start + 1) {
        Some(d) => d,
        None => {
            proof {
                assert(s.subrange(st, st + 1) =~= octet_text(d0));
            }
            return Some((d0, start + 1));
        },
    };
    if d0 == 0 {
        proof {
            assert forall|v: u8, end: int| !octet_at(s, st, end, v) by {
                lemma_octet_text(v);
                if octet_at(s, st, end, v) {
                    assert(s[st + 0] == octet_text(v)[0]);
                }
            }
        }
        return None;
    }
    let d2 = match digit_at(text, n, start + 2) {
        Some(d) => d,
        None => {
            let v: u8 = d0 * 10 + d1;
            proof {
                assert(s.subrange(st, st + 2) =~= octet_text(v));
            }
            return Some((v, start + 2));
        },
    };
    let d3 = digit_at(text, n, start + 3);
    let value: u32 = d0 as u32 * 100 + d1 as u32 * 10 + d2 as u32;
    if d3.is_some() || value > 255 {
        proof {
            assert forall|v: u8, end: int| !octet_at(s, st, end, v) by {
                lemma_octet_text(v);
                if octet_at(s, st, end, v) {
                    assert(s[st + 0] == octet_text(v)[0]);
                    if end - st >= 2 {
                        assert(s[st + 1] == octet_text(v)[1]);
                    }
                    if end - st >= 3 {
                        assert(s[st + 2] == octet_text(v)[2]);
                    }
                }
            }
        }
        return None;
    }
    let v: u8 = value as u8;
    proof {
        assert(s.subrange(st, st + 3) =~= octet_text(v));
    }
    Some((v, start + 3))
}

/// Whether the text has a dot at place `i`.
fn dot_at(text: &str, n: usize, i: usize) -> (r: bool)
    requires
        n == text@.len(),
        i <= n,
    ensures
        r == (i < n && text@[i as int] == '.'),
{
    i < n && text.get_char(i) == '.'
}

/// Reads an address in dotted decimal: four octets in decimal, each of one
/// to three digits with no zero in front of another digit and of a value up
/// to 255, with a dot between each two and nothing else before, between or
/// after them.
pub fn parse_ipv4(text: &str) -> (r: Option<Ipv4Address>)
    ensures
        r == parsed(text@),
{
    let ghost s = text@;
    let ghost known = exists|ip: Ipv4Address| dotted(ip) == s;
    let ghost ip0 = choose|ip: Ipv4Address| dotted(ip) == s;
    let ghost mut q: (int, int, int) = (0, 0, 0);
    proof {
        if known {
            q = lemma_dotted_layout(ip0);
        }
    }
    let n = text.unicode_len();
    if n > 15 {
        return None;
    }
    let (a, dot1) = match read_octet(text, n, 0) {
        Some(found) => found,
        None => {
            return None;
        },
    };
    proof {
        if known {
            lemma_octet_at_unique(s, 0, dot1 as int, a, q.0, ip0.0);
        }
    }
    if !dot_at(text, n, dot1) {
        return None;
    }
    let (b, dot2) = match read_octet(text, n, dot1 + 1) {
        Some(found) => found,
        None => {
            return None;
        },
    };
    proof {
        if known {
            lemma_octet_at_unique(s, dot1 + 1, dot2 as int, b, q.1, ip0.1);
        }
    }
    if !dot_at(text, n, dot2) {
        return None;
    }
    let (c, dot3) = match read_octet(text, n, dot2 + 1) {
        Some(found) => found,
        None => {
            return None;
        },
    };
    proof {
        if known {
            lemma_octet_at_unique(s, dot2 + 1, dot3 as int, c, q.2, ip0.2);
        }
    }
    if !dot_at(text, n, dot3) {
        return None;
    }
    let (d, last) = match read_octet(text, n, dot3 + 1) {
        Some(found) => found,
        None => {
            return None;
        },
    };
    proof {
        if known {
            lemma_octet_at_unique(s, dot3 + 1, last as int, d, n as int, ip0.3);
        }
    }
    if last != n {
        return None;
    }
    let ip = Ipv4Address(a, b, c, d);
    proof {
        lemma_laid_out_is_dotted(s, ip, dot1 as int, dot2 as int, dot3 as int);
        law_parse_inverts_dotted(ip);
    }
    Some(ip)
}

/// Reads the answer of the address service: the body of the answer must be
/// an IPv4 address in dotted decimal, and nothing else.
pub fn fetch_current_ip(body: &str) -> (r: Result<Ipv4Address, RunError>)
    ensures
        r == match parsed(body@) {
            Some(ip) => Ok::<Ipv4Address, RunError>(ip),
            None => Err::<Ipv4Address, RunError>(RunError::Parse),
        },
{
    match parse_ipv4(body) {
        Some(ip) => Ok(ip),
        None => Err(RunError::Parse),
    }
}

} // verus!
