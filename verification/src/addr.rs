//! IPv4 addresses and their dotted-decimal text.

use crate::text::chars_of;
use vstd::prelude::*;
use vstd::string::*;

verus! {

/// An IPv4 address: four octets, the first one leftmost in the text.
#[derive(Clone, Copy, Debug, PartialEq, Eq, Structural)]
pub struct Ipv4Addr {
    pub a: u8,
    pub b: u8,
    pub c: u8,
    pub d: u8,
}

/// The character that stands for the digit `d`.
pub open spec fn digit_char(d: nat) -> char {
    if d == 0 {
        '0'
    } else if d == 1 {
        '1'
    } else if d == 2 {
        '2'
    } else if d == 3 {
        '3'
    } else if d == 4 {
        '4'
    } else if d == 5 {
        '5'
    } else if d == 6 {
        '6'
    } else if d == 7 {
        '7'
    } else if d == 8 {
        '8'
    } else {
        '9'
    }
}

/// The decimal numeral of `n`, without leading zeros.
pub open spec fn decimal(n: nat) -> Seq<char>
    decreases n,
{
    if n < 10 {
        seq![digit_char(n)]
    } else {
        decimal(n / 10).push(digit_char(n % 10))
    }
}

/// The canonical text of an address: its four octets in decimal, with a dot
/// between them.
pub open spec fn dotted(ip: Ipv4Addr) -> Seq<char> {
    decimal(ip.a as nat) + seq!['.'] + decimal(ip.b as nat) + seq!['.'] + decimal(ip.c as nat)
        + seq!['.'] + decimal(ip.d as nat)
}

/// The digit that `c` stands for, if it is one.
pub open spec fn digit_value(c: char) -> Option<nat> {
    if '0' <= c <= '9' {
        Some((c as int - '0' as int) as nat)
    } else {
        None
    }
}

/// Where a left-to-right reading of an address stands: the octets that a dot
/// has closed, and the value of the digits read since.
pub struct Scan {
    pub closed: Seq<u8>,
    pub open: u8,
}

/// Reads one more character: a digit extends the open octet, which may not
/// exceed 255, and a dot closes it.
pub open spec fn scan_step(state: Option<Scan>, c: char) -> Option<Scan> {
    match state {
        Some(scan) => match digit_value(c) {
            Some(d) => if scan.open * 10 + d <= 255 {
                Some(Scan { closed: scan.closed, open: (scan.open * 10 + d) as u8 })
            } else {
                None
            },
            None => if c == '.' {
                Some(Scan { closed: scan.closed.push(scan.open), open: 0 })
            } else {
                None
            },
        },
        None => None,
    }
}

/// Reads `text` from an empty start.
pub open spec fn scan(text: Seq<char>) -> Option<Scan>
    decreases text.len(),
{
    if text.len() == 0 {
        Some(Scan { closed: Seq::empty(), open: 0 })
    } else {
        scan_step(scan(text.drop_last()), text.last())
    }
}

/// Reading the numeral of `n` after a dot, or at the start, leaves `n` open.
proof fn lemma_scan_decimal(before: Seq<char>, closed: Seq<u8>, n: u8)
    requires
        scan(before) == Some(Scan { closed, open: 0 }),
    ensures
        scan(before + decimal(n as nat)) == Some(Scan { closed, open: n }),
    decreases n,
{
    if n < 10 {
        assert(before + decimal(n as nat) =~= before.push(digit_char(n as nat)));
        assert((before + decimal(n as nat)).drop_last() =~= before);
    } else {
        lemma_scan_decimal(before, closed, n / 10);
        let shorter = before + decimal((n / 10) as nat);
        assert(before + decimal(n as nat) =~= shorter.push(digit_char((n % 10) as nat)));
        assert((before + decimal(n as nat)).drop_last() =~= shorter);
    }
}

/// Reading a dot closes the open octet.
proof fn lemma_scan_dot(before: Seq<char>, closed: Seq<u8>, open: u8)
    requires
        scan(before) == Some(Scan { closed, open }),
    ensures
        scan(before + seq!['.']) == Some(Scan { closed: closed.push(open), open: 0 }),
{
    assert((before + seq!['.']).drop_last() =~= before);
}

/// Reading the canonical text of an address gives its octets back.
pub proof fn lemma_scan_dotted(ip: Ipv4Addr)
    ensures
        scan(dotted(ip)) == Some(Scan { closed: seq![ip.a, ip.b, ip.c], open: ip.d }),
{
    let none: Seq<u8> = Seq::empty();
    let t0: Seq<char> = Seq::empty();
    assert(scan(t0) == Some(Scan { closed: none, open: 0 }));
    lemma_scan_decimal(t0, none, ip.a);
    let t1 = t0 + decimal(ip.a as nat);
    lemma_scan_dot(t1, none, ip.a);
    let t2 = t1 + seq!['.'];
    let c1 = none.push(ip.a);
    lemma_scan_decimal(t2, c1, ip.b);
    let t3 = t2 + decimal(ip.b as nat);
    lemma_scan_dot(t3, c1, ip.b);
    let t4 = t3 + seq!['.'];
    let c2 = c1.push(ip.b);
    lemma_scan_decimal(t4, c2, ip.c);
    let t5 = t4 + decimal(ip.c as nat);
    lemma_scan_dot(t5, c2, ip.c);
    let t6 = t5 + seq!['.'];
    let c3 = c2.push(ip.c);
    lemma_scan_decimal(t6, c3, ip.d);
    let t7 = t6 + decimal(ip.d as nat);
    assert(t7 =~= dotted(ip));
    assert(c3 =~= seq![ip.a, ip.b, ip.c]);
}

/// Two addresses with the same canonical text are the same address.
pub proof fn lemma_dotted_injective(first: Ipv4Addr, second: Ipv4Addr)
    requires
        dotted(first) == dotted(second),
    ensures
        first == second,
{
    lemma_scan_dotted(first);
    lemma_scan_dotted(second);
    let octets = seq![first.a, first.b, first.c];
    assert(octets[0] == second.a && octets[1] == second.b && octets[2] == second.c);
}

/// The address that a text is the canonical text of, if it is one.
pub open spec fn address_of(text: Seq<char>) -> Option<Ipv4Addr> {
    if exists|ip: Ipv4Addr| dotted(ip) == text {
        Some(choose|ip: Ipv4Addr| dotted(ip) == text)
    } else {
        None
    }
}

/// A reading that has failed on a prefix fails on the whole text.
proof fn lemma_scan_stuck(text: Seq<char>, prefix: int)
    requires
        0 <= prefix <= text.len(),
        scan(text.take(prefix)) is None,
    ensures
        scan(text) is None,
    decreases text.len() - prefix,
{
    if prefix == text.len() {
        assert(text.take(prefix) =~= text);
    } else {
        assert(text.take(prefix + 1).drop_last() =~= text.take(prefix));
        lemma_scan_stuck(text, prefix + 1);
    }
}

/// The text of one digit.
fn digit_str(d: u8) -> (text: &'static str)
    requires
        d < 10,
    ensures
        text@ == seq![digit_char(d as nat)],
{
    proof {
        reveal_strlit("0");
        reveal_strlit("1");
        reveal_strlit("2");
        reveal_strlit("3");
        reveal_strlit("4");
        reveal_strlit("5");
        reveal_strlit("6");
        reveal_strlit("7");
        reveal_strlit("8");
        reveal_strlit("9");
    }
    let text = match d {
        0 => "0",
        1 => "1",
        2 => "2",
        3 => "3",
        4 => "4",
        5 => "5",
        6 => "6",
        7 => "7",
        8 => "8",
        _ => "9",
    };
    assert(text@ =~= seq![digit_char(d as nat)]);
    text
}

/// Appends the decimal numeral of `n` to `buffer`.
fn append_decimal(buffer: &mut String, n: u8)
    ensures
        final(buffer)@ == old(buffer)@ + decimal(n as nat),
{
    let ghost before = buffer@;
    proof {
        reveal_with_fuel(decimal, 3);
    }
    if n >= 100 {
        buffer.append(digit_str(n / 100));
    }
    if n >= 10 {
        buffer.append(digit_str((n / 10) % 10));
    }
    buffer.append(digit_str(n % 10));
    assert(buffer@ =~= before + decimal(n as nat));
}

impl Ipv4Addr {
    /// The address with the given octets.
    pub fn new(a: u8, b: u8, c: u8, d: u8) -> (ip: Ipv4Addr)
        ensures
            ip == (Ipv4Addr { a, b, c, d }),
    {
        Ipv4Addr { a, b, c, d }
    }

    /// The four octets, the leftmost first.
    pub fn octets(&self) -> (octets: [u8; 4])
        ensures
            octets@ == seq![self.a, self.b, self.c, self.d],
    {
        let octets = [self.a, self.b, self.c, self.d];
        assert(octets@ =~= seq![self.a, self.b, self.c, self.d]);
        octets
    }

    /// The canonical dotted-decimal text of the address.
    pub fn to_text(&self) -> (text: String)
        ensures
            text@ == dotted(*self),
    {
        proof {
            reveal_strlit(".");
        }
        let mut text = String::new();
        append_decimal(&mut text, self.a);
        text.append(".");
        append_decimal(&mut text, self.b);
        text.append(".");
        append_decimal(&mut text, self.c);
        text.append(".");
        append_decimal(&mut text, self.d);
        assert(text@ =~= dotted(*self));
        text
    }

    /// Reads an address from its canonical dotted-decimal text. Any other
    /// text, such as one with a leading zero, a missing octet or an octet
    /// over 255, is no address.
    pub fn parse(text: &str) -> (parsed: Option<Ipv4Addr>)
        ensures
            match parsed {
                Some(ip) => dotted(ip) == text@,
                None => forall|ip: Ipv4Addr| dotted(ip) != text@,
            },
            parsed == address_of(text@),
    {
        let parsed = Self::read(text);
        proof {
            if let Some(ip) = parsed {
                lemma_dotted_injective(ip, address_of(text@).unwrap());
            }
        }
        parsed
    }

    /// Reads the octets of `text` from left to right and accepts them if
    /// their canonical text is `text` itself.
    fn read(text: &str) -> (parsed: Option<Ipv4Addr>)
        ensures
            match parsed {
                Some(ip) => dotted(ip) == text@,
                None => forall|ip: Ipv4Addr| dotted(ip) != text@,
            },
    {
        let chars = chars_of(text);
        let mut closed: Vec<u8> = Vec::new();
        let mut open: u8 = 0;
        let mut at: usize = 0;
        assert(chars@.take(0) =~= Seq::<char>::empty());
        while at < chars.len()
            invariant
                at <= chars.len(),
                chars@ == text@,
                scan(chars@.take(at as int)) == Some(Scan { closed: closed@, open }),
            decreases chars.len() - at,
        {
            let c = chars[at];
            proof {
                assert(chars@.take(at + 1).drop_last() =~= chars@.take(at as int));
                assert(chars@.take(at + 1).last() == c);
            }
            if '0' <= c && c <= '9' {
                let d: u32 = c as u32 - '0' as u32;
                let value: u32 = open as u32 * 10 + d;
                if value > 255 {
                    proof {
                        lemma_scan_stuck(chars@, at + 1);
                        assert forall|ip: Ipv4Addr| dotted(ip) != text@ by {
                            lemma_scan_dotted(ip);
                        }
                    }
                    return None;
                }
                open = value as u8;
            } else if c == '.' {
                closed.push(open);
                open = 0;
            } else {
                proof {
                    lemma_scan_stuck(chars@, at + 1);
                    assert forall|ip: Ipv4Addr| dotted(ip) != text@ by {
                        lemma_scan_dotted(ip);
                    }
                }
                return None;
            }
            at += 1;
        }
        assert(chars@.take(at as int) =~= text@);
        if closed.len() != 3 {
            proof {
                assert forall|ip: Ipv4Addr| dotted(ip) != text@ by {
                    lemma_scan_dotted(ip);
                }
            }
            return None;
        }
        let candidate = Ipv4Addr { a: closed[0], b: closed[1], c: closed[2], d: open };
        let canonical = candidate.to_text();
        let given = text.to_owned();
        if canonical == given {
            Some(candidate)
        } else {
            proof {
                assert forall|ip: Ipv4Addr| dotted(ip) != text@ by {
                    lemma_scan_dotted(ip);
                    if dotted(ip) == text@ {
                        assert(closed@ == seq![ip.a, ip.b, ip.c]);
                        assert(closed@[0] == ip.a && closed@[1] == ip.b && closed@[2] == ip.c);
                        assert(ip == candidate);
                    }
                }
            }
            None
        }
    }
}

} // verus!
