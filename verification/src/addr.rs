//! Socket-address literals. The transport is configured by strings of the
//! form `a.b.c.d:port`; before any connection attempt they must parse, and a
//! string that does not is a configuration error. The grammar is canonical
//! decimal throughout: every number is digits only, without leading zeros,
//! and within range (octets up to 255, port up to 65535).

use vstd::prelude::*;

verus! {

/// An IPv4 socket-address literal `a.b.c.d:port`, held as plain values.
#[derive(Clone, Copy, Debug, PartialEq, Eq, Structural)]
pub struct Ipv4SocketAddr {
    pub a: u8,
    pub b: u8,
    pub c: u8,
    pub d: u8,
    pub port: u16,
}

pub open spec fn is_digit(c: char) -> bool {
    48 <= c as u32 <= 57
}

pub open spec fn digit_val(c: char) -> nat {
    (c as u32 - 48) as nat
}

/// The decimal value of a digit string, most significant digit first.
pub open spec fn dec_val(s: Seq<char>) -> nat
    decreases s.len(),
{
    if s.len() == 0 {
        0
    } else {
        dec_val(s.drop_last()) * 10 + digit_val(s.last())
    }
}

/// A canonical decimal numeral: at least one digit, no leading zero.
pub open spec fn is_dec_str(s: Seq<char>) -> bool {
    &&& s.len() >= 1
    &&& (forall|i: int| 0 <= i < s.len() ==> is_digit(#[trigger] s[i]))
    &&& (s.len() > 1 ==> s[0] != '0')
}

/// A canonical numeral no greater than `max`, or nothing.
pub open spec fn spec_parse_dec(s: Seq<char>, max: nat) -> Option<u32> {
    if is_dec_str(s) && dec_val(s) <= max {
        Some(dec_val(s) as u32)
    } else {
        None
    }
}

/// The index of the first occurrence of `c` in `s`, or `-1` if there is none.
pub open spec fn first_index_of(s: Seq<char>, c: char) -> int
    decreases s.len(),
{
    if s.len() == 0 {
        -1
    } else if s[0] == c {
        0
    } else if first_index_of(s.drop_first(), c) < 0 {
        -1
    } else {
        1 + first_index_of(s.drop_first(), c)
    }
}

/// The pieces before and after the first occurrence of `sep`, or nothing
/// when `sep` does not occur.
pub open spec fn split_once_at(s: Seq<char>, sep: char) -> Option<(Seq<char>, Seq<char>)> {
    let p = first_index_of(s, sep);
    if p < 0 {
        None
    } else {
        Some((s.subrange(0, p), s.subrange(p + 1, s.len() as int)))
    }
}

pub open spec fn spec_parse_octet(s: Seq<char>) -> Option<u8> {
    match spec_parse_dec(s, 255) {
        Some(v) => Some(v as u8),
        None => None,
    }
}

pub open spec fn spec_parse_port(s: Seq<char>) -> Option<u16> {
    match spec_parse_dec(s, 65535) {
        Some(v) => Some(v as u16),
        None => None,
    }
}

/// The grammar of an accepted address string: four octets separated by dots,
/// a colon, and a port, every number canonical and in range.
pub open spec fn spec_parse_socket_addr(s: Seq<char>) -> Option<Ipv4SocketAddr> {
    match split_once_at(s, '.') {
        None => None,
        Some((sa, r1)) => match split_once_at(r1, '.') {
            None => None,
            Some((sb, r2)) => match split_once_at(r2, '.') {
                None => None,
                Some((sc, r3)) => match split_once_at(r3, ':') {
                    None => None,
                    Some((sd, sp)) => match (
                        spec_parse_octet(sa),
                        spec_parse_octet(sb),
                        spec_parse_octet(sc),
                        spec_parse_octet(sd),
                        spec_parse_port(sp),
                    ) {
                        (Some(a), Some(b), Some(c), Some(d), Some(port)) => Some(
                            Ipv4SocketAddr { a, b, c, d, port },
                        ),
                        _ => None,
                    },
                },
            },
        },
    }
}

/// A string parses exactly when the grammar accepts it.
pub open spec fn spec_is_socket_addr(s: Seq<char>) -> bool {
    spec_parse_socket_addr(s) is Some
}

/// The character of a single decimal digit.
pub open spec fn digit_char(d: nat) -> char {
    if d == 0 {
        '0'
    } else if d == 1 {
        '1'
    } else if d == 2 {
        '2'
    } else if d == 3 {
        '3'
    } else if d == 4 {
        '4'
    } else if d == 5 {
        '5'
    } else if d == 6 {
        '6'
    } else if d == 7 {
        '7'
    } else if d == 8 {
        '8'
    } else {
        '9'
    }
}

/// The canonical decimal rendering of a number: digits only, no leading
/// zero (a bare `0` for zero).
pub open spec fn dec_str(n: nat) -> Seq<char>
    decreases n,
{
    if n < 10 {
        seq![digit_char(n)]
    } else {
        dec_str(n / 10).push(digit_char(n % 10))
    }
}

/// The canonical rendering of an address, `a.b.c.d:port`.
pub open spec fn spec_render_addr(addr: Ipv4SocketAddr) -> Seq<char> {
    dec_str(addr.a as nat) + seq!['.'] + dec_str(addr.b as nat) + seq!['.'] + dec_str(
        addr.c as nat,
    ) + seq!['.'] + dec_str(addr.d as nat) + seq![':'] + dec_str(addr.port as nat)
}

proof fn lemma_digit_char(d: nat)
    requires
        d < 10,
    ensures
        is_digit(digit_char(d)),
        digit_val(digit_char(d)) == d,
{
}

/// A canonical rendering is a canonical numeral and reads back as itself.
pub proof fn lemma_dec_str(n: nat)
    ensures
        is_dec_str(dec_str(n)),
        dec_val(dec_str(n)) == n,
        n > 0 ==> dec_str(n)[0] != '0',
    decreases n,
{
    if n < 10 {
        lemma_digit_char(n);
        let s = dec_str(n);
        assert(s.drop_last() =~= Seq::<char>::empty());
        assert(dec_val(s) == dec_val(s.drop_last()) * 10 + digit_val(s.last()));
    } else {
        lemma_dec_str(n / 10);
        lemma_digit_char(n % 10);
        let t = dec_str(n / 10);
        let s = t.push(digit_char(n % 10));
        assert(s.drop_last() =~= t);
        assert(s.last() == digit_char(n % 10));
        assert(dec_val(s) == dec_val(t) * 10 + digit_val(s.last()));
        vstd::arithmetic::div_mod::lemma_fundamental_div_mod(n as int, 10);
        assert forall|i: int| 0 <= i < s.len() implies is_digit(s[i]) by {
            if i < t.len() {
                assert(s[i] == t[i]);
            } else {
                assert(s[i] == digit_char(n % 10));
            }
        }
        assert(s[0] == t[0]);
    }
}

/// Splitting a concatenation whose left piece is free of the separator
/// recovers the two pieces.
proof fn lemma_split_once_at_concat(x: Seq<char>, sep: char, y: Seq<char>)
    requires
        forall|i: int| 0 <= i < x.len() ==> x[i] != sep,
    ensures
        split_once_at(x + seq![sep] + y, sep) == Some((x, y)),
{
    let s = x + seq![sep] + y;
    lemma_first_index_of(s, sep);
    assert(s[x.len() as int] == sep);
    assert forall|i: int| 0 <= i < x.len() implies s[i] != sep by {
        assert(s[i] == x[i]);
    }
    let p = first_index_of(s, sep);
    assert(p == x.len() as int);
    assert(s.subrange(0, p) =~= x);
    assert(s.subrange(p + 1, s.len() as int) =~= y);
}

/// Law: the grammar accepts the canonical rendering of every address, and
/// parsing it gives that address back.
#[verifier::rlimit(60)]
pub proof fn lemma_render_parse_round_trip(addr: Ipv4SocketAddr)
    ensures
        spec_parse_socket_addr(spec_render_addr(addr)) == Some(addr),
{
    let sa = dec_str(addr.a as nat);
    let sb = dec_str(addr.b as nat);
    let sc = dec_str(addr.c as nat);
    let sd = dec_str(addr.d as nat);
    let sp = dec_str(addr.port as nat);
    lemma_dec_str(addr.a as nat);
    lemma_dec_str(addr.b as nat);
    lemma_dec_str(addr.c as nat);
    lemma_dec_str(addr.d as nat);
    lemma_dec_str(addr.port as nat);
    let r3 = sd + seq![':'] + sp;
    let r2 = sc + seq!['.'] + r3;
    let r1 = sb + seq!['.'] + r2;
    let s = spec_render_addr(addr);
    assert(s =~= sa + seq!['.'] + r1);
    assert forall|i: int| 0 <= i < sa.len() implies sa[i] != '.' by {
        assert(is_digit(sa[i]));
    }
    assert forall|i: int| 0 <= i < sb.len() implies sb[i] != '.' by {
        assert(is_digit(sb[i]));
    }
    assert forall|i: int| 0 <= i < sc.len() implies sc[i] != '.' by {
        assert(is_digit(sc[i]));
    }
    assert forall|i: int| 0 <= i < sd.len() implies sd[i] != ':' by {
        assert(is_digit(sd[i]));
    }
    lemma_split_once_at_concat(sa, '.', r1);
    lemma_split_once_at_concat(sb, '.', r2);
    lemma_split_once_at_concat(sc, '.', r3);
    lemma_split_once_at_concat(sd, ':', sp);
    assert(s == sa + seq!['.'] + r1);
    assert(split_once_at(s, '.') == Some((sa, r1)));
    assert(split_once_at(r1, '.') == Some((sb, r2)));
    assert(split_once_at(r2, '.') == Some((sc, r3)));
    assert(split_once_at(r3, ':') == Some((sd, sp)));
    assert(spec_parse_octet(sa) == Some(addr.a));
    assert(spec_parse_octet(sb) == Some(addr.b));
    assert(spec_parse_octet(sc) == Some(addr.c));
    assert(spec_parse_octet(sd) == Some(addr.d));
    assert(spec_parse_port(sp) == Some(addr.port));
}

/// Where `first_index_of` points, `c` stands, and nowhere earlier; where it
/// is negative, `c` does not occur at all.
pub proof fn lemma_first_index_of(s: Seq<char>, c: char)
    ensures
        ({
            let p = first_index_of(s, c);
            &&& p >= 0 ==> 0 <= p < s.len() && s[p] == c && (forall|i: int|
                0 <= i < p ==> s[i] != c)
            &&& p < 0 ==> (forall|i: int| 0 <= i < s.len() ==> s[i] != c)
        }),
    decreases s.len(),
{
    if s.len() == 0 {
    } else if s[0] == c {
    } else {
        let sub = s.drop_first();
        lemma_first_index_of(sub, c);
        let q = first_index_of(sub, c);
        if q >= 0 {
            assert(s[q + 1] == sub[q]);
            assert forall|i: int| 0 <= i < q + 1 implies s[i] != c by {
                if i > 0 {
                    assert(s[i] == sub[i - 1]);
                }
            }
        } else {
            assert forall|i: int| 0 <= i < s.len() implies s[i] != c by {
                if i > 0 {
                    assert(s[i] == sub[i - 1]);
                }
            }
        }
    }
}

/// Appending digits to a numeral never lowers its value.
pub proof fn lemma_dec_val_extend(s: Seq<char>, i: int, j: int)
    requires
        0 <= i <= j <= s.len(),
    ensures
        dec_val(s.subrange(0, i)) <= dec_val(s.subrange(0, j)),
    decreases j - i,
{
    if i < j {
        lemma_dec_val_extend(s, i, j - 1);
        assert(s.subrange(0, j).drop_last() =~= s.subrange(0, j - 1));
        assert(dec_val(s.subrange(0, j)) == dec_val(s.subrange(0, j - 1)) * 10 + digit_val(
            s.subrange(0, j).last(),
        ));
    }
}

/// Splits at the first occurrence of `sep`, as `split_once_at` says.
fn split_once<'a>(s: &'a str, sep: char) -> (r: Option<(&'a str, &'a str)>)
    ensures
        match r {
            Some(pieces) => split_once_at(s@, sep) == Some((pieces.0@, pieces.1@)),
            None => split_once_at(s@, sep) is None,
        },
{
    let n = s.unicode_len();
    let mut i: usize = 0;
    while i < n
        invariant
            n == s@.len(),
            i <= n,
            forall|j: int| 0 <= j < i ==> s@[j] != sep,
        decreases n - i,
    {
        if s.get_char(i) == sep {
            proof {
                lemma_first_index_of(s@, sep);
                assert(s@[i as int] == sep);
                assert(first_index_of(s@, sep) == i as int);
            }
            let left = s.substring_char(0, i);
            let right = s.substring_char(i + 1, n);
            return Some((left, right));
        }
        i += 1;
    }
    proof {
        lemma_first_index_of(s@, sep);
    }
    None
}

/// Reads a canonical decimal numeral worth at most `max`, as
/// `spec_parse_dec` says.
fn parse_decimal(s: &str, max: u32) -> (r: Option<u32>)
    requires
        10 * (max as int) + 9 <= u32::MAX,
    ensures
        r == spec_parse_dec(s@, max as nat),
{
    let n = s.unicode_len();
    if n == 0 {
        return None;
    }
    let mut acc: u32 = 0;
    let mut i: usize = 0;
    while i < n
        invariant
            n == s@.len(),
            0 < n,
            i <= n,
            10 * (max as int) + 9 <= u32::MAX,
            forall|j: int| 0 <= j < i ==> is_digit(#[trigger] s@[j]),
            i > 0 && n > 1 ==> s@[0] != '0',
            acc == dec_val(s@.subrange(0, i as int)),
            acc <= max,
        decreases n - i,
    {
        let c = s.get_char(i);
        let u = c as u32;
        if u < 48 || u > 57 {
            proof {
                assert(!is_digit(s@[i as int]));
            }
            return None;
        }
        if i == 0 && u == 48 && n > 1 {
            proof {
                assert(s@[0] as u32 == 48 && '0' as u32 == 48);
                assert(s@[0] == '0');
            }
            return None;
        }
        let d = u - 48;
        let newacc = acc * 10 + d;
        proof {
            assert(s@.subrange(0, i + 1).drop_last() =~= s@.subrange(0, i as int));
            assert(s@.subrange(0, i + 1).last() == s@[i as int]);
            assert(dec_val(s@.subrange(0, i + 1)) == dec_val(s@.subrange(0, i as int)) * 10
                + digit_val(s@[i as int]));
        }
        if newacc > max {
            proof {
                lemma_dec_val_extend(s@, i + 1, n as int);
                assert(s@.subrange(0, n as int) =~= s@);
                assert(dec_val(s@) > max);
            }
            return None;
        }
        acc = newacc;
        i += 1;
    }
    proof {
        assert(s@.subrange(0, n as int) =~= s@);
        assert(is_dec_str(s@));
    }
    Some(acc)
}

/// Parses a socket-address literal `a.b.c.d:port`, exactly as the grammar
/// `spec_parse_socket_addr` accepts it.
pub fn parse_socket_addr(s: &str) -> (r: Option<Ipv4SocketAddr>)
    ensures
        r == spec_parse_socket_addr(s@),
{
    let (oct_a, rest1) = match split_once(s, '.') {
        Some(pieces) => pieces,
        None => {
            return None;
        },
    };
    let (oct_b, rest2) = match split_once(rest1, '.') {
        Some(pieces) => pieces,
        None => {
            return None;
        },
    };
    let (oct_c, rest3) = match split_once(rest2, '.') {
        Some(pieces) => pieces,
        None => {
            return None;
        },
    };
    let (oct_d, port_str) = match split_once(rest3, ':') {
        Some(pieces) => pieces,
        None => {
            return None;
        },
    };
    let a = match parse_decimal(oct_a, 255) {
        Some(v) => v,
        None => {
            return None;
        },
    };
    let b = match parse_decimal(oct_b, 255) {
        Some(v) => v,
        None => {
            return None;
        },
    };
    let c = match parse_decimal(oct_c, 255) {
        Some(v) => v,
        None => {
            return None;
        },
    };
    let d = match parse_decimal(oct_d, 255) {
        Some(v) => v,
        None => {
            return None;
        },
    };
    let port = match parse_decimal(port_str, 65535) {
        Some(v) => v,
        None => {
            return None;
        },
    };
    Some(
        Ipv4SocketAddr {
            a: a as u8,
            b: b as u8,
            c: c as u8,
            d: d as u8,
            port: port as u16,
        },
    )
}

} // verus!
