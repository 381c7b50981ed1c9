//! Network address values and their textual forms.
//!
//! Addresses are held as plain numeric fields, so that contracts can speak
//! of them directly.  The accepted textual forms follow the standard
//! dotted-decimal syntax: four octets of at most three digits, without
//! leading zeroes, and for socket addresses a decimal port after a colon.

use crate::config_value_decoder::ConfigValueDecoder;
use crate::numeric::digit_value;
use crate::numeric::is_digit;
use crate::numeric::scan_digits;
use crate::numeric::scan_digits_exec;
use crate::text::split_on;
use crate::text::split_string;
use vstd::prelude::*;
use vstd::string::StrSliceExecFns;

verus! {

/// An IPv4 address: four octets, most significant first.
#[derive(Debug, PartialEq, Eq, Structural, Clone, Copy)]
pub struct Ipv4Value {
    pub a: u8,
    pub b: u8,
    pub c: u8,
    pub d: u8,
}

impl Ipv4Value {
    /// The address `a.b.c.d`.
    pub fn new(a: u8, b: u8, c: u8, d: u8) -> (r: Ipv4Value)
        ensures
            r == (Ipv4Value { a, b, c, d }),
    {
        Ipv4Value { a, b, c, d }
    }
}

/// An IPv4 socket address: an address and a port.
#[derive(Debug, PartialEq, Eq, Structural, Clone, Copy)]
pub struct SockV4Value {
    pub ip: Ipv4Value,
    pub port: u16,
}

/// Whether every character of `g` is a decimal digit.
pub open spec fn all_digits(g: Seq<char>) -> bool {
    forall|j: int| 0 <= j < g.len() ==> is_digit(#[trigger] g[j])
}

/// The numeric value of a digit sequence, most significant digit first.
pub open spec fn digits_value_from(g: Seq<char>, acc: int) -> int
    decreases g.len(),
{
    if g.len() == 0 {
        acc
    } else {
        digits_value_from(g.drop_first(), acc * 10 + digit_value(g[0]))
    }
}

/// The numeric value of a digit sequence.
pub open spec fn digits_value(g: Seq<char>) -> int {
    digits_value_from(g, 0)
}

/// On digit strings, the scan only grows its accumulator.
proof fn lemma_digits_value_ge_acc(g: Seq<char>, acc: int)
    requires
        0 <= acc,
        all_digits(g),
    ensures
        digits_value_from(g, acc) >= acc,
    decreases g.len(),
{
    if g.len() > 0 {
        assert(all_digits(g.drop_first())) by {
            assert forall|j: int| 0 <= j < g.drop_first().len() implies is_digit(
                #[trigger] g.drop_first()[j],
            ) by {
                assert(g.drop_first()[j] == g[j + 1]);
            }
        }
        lemma_digits_value_ge_acc(g.drop_first(), acc * 10 + digit_value(g[0]));
    }
}

/// The bounded digit scan succeeds exactly on all-digit sequences whose
/// value fits the bound, and then yields that value.
pub proof fn lemma_scan_digits_value(g: Seq<char>, acc: int, max: int)
    requires
        0 <= acc <= max,
    ensures
        scan_digits(g, acc, max) matches Ok(v) ==> all_digits(g) && v == digits_value_from(g, acc)
            && v <= max,
        (all_digits(g) && digits_value_from(g, acc) <= max) ==> scan_digits(g, acc, max) == Ok::<
            int,
            crate::numeric::IntParseError,
        >(digits_value_from(g, acc)),
    decreases g.len(),
{
    if g.len() > 0 {
        if is_digit(g[0]) {
            let next = acc * 10 + digit_value(g[0]);
            if next <= max {
                lemma_scan_digits_value(g.drop_first(), next, max);
            } else if all_digits(g) {
                assert(all_digits(g.drop_first())) by {
                    assert forall|j: int| 0 <= j < g.drop_first().len() implies is_digit(
                        #[trigger] g.drop_first()[j],
                    ) by {
                        assert(g.drop_first()[j] == g[j + 1]);
                    }
                }
                lemma_digits_value_ge_acc(g.drop_first(), next);
            }
            assert(all_digits(g) ==> all_digits(g.drop_first())) by {
                if all_digits(g) {
                    assert forall|j: int| 0 <= j < g.drop_first().len() implies is_digit(
                        #[trigger] g.drop_first()[j],
                    ) by {
                        assert(g.drop_first()[j] == g[j + 1]);
                    }
                }
            }
            assert(all_digits(g.drop_first()) && is_digit(g[0]) ==> all_digits(g)) by {
                if all_digits(g.drop_first()) && is_digit(g[0]) {
                    assert forall|j: int| 0 <= j < g.len() implies is_digit(#[trigger] g[j]) by {
                        if j > 0 {
                            assert(is_digit(g.drop_first()[j - 1]));
                        }
                    }
                }
            }
        }
    }
}

/// Whether `g` is a valid dotted-decimal octet: one to three digits, no
/// leading zero, value at most 255.
pub open spec fn valid_octet(g: Seq<char>) -> bool {
    &&& g.len() >= 1
    &&& all_digits(g)
    &&& (g.len() == 1 || g[0] != '0')
    &&& digits_value(g) <= 255
}

/// The dotted-decimal reading of `s` as an IPv4 address: four valid
/// octets separated by dots, and nothing else.
pub open spec fn ipv4_spec(s: Seq<char>) -> Option<Ipv4Value> {
    let gs = split_on(s, '.');
    if gs.len() == 4 && valid_octet(gs[0]) && valid_octet(gs[1]) && valid_octet(gs[2])
        && valid_octet(gs[3]) {
        Some(
            Ipv4Value {
                a: digits_value(gs[0]) as u8,
                b: digits_value(gs[1]) as u8,
                c: digits_value(gs[2]) as u8,
                d: digits_value(gs[3]) as u8,
            },
        )
    } else {
        None
    }
}

/// Reads one octet.
fn parse_octet(g: &str) -> (r: Option<u8>)
    ensures
        r == if valid_octet(g@) {
            Some(digits_value(g@) as u8)
        } else {
            None::<u8>
        },
{
    proof {
        lemma_scan_digits_value(g@, 0, 255);
    }
    let n = g.unicode_len();
    if n == 0 {
        return None;
    }
    if n > 1 && g.get_char(0) == '0' {
        proof {
            lemma_scan_digits_value(g@, 0, 255);
        }
        return None;
    }
    proof {
        assert(g@.skip(0) =~= g@);
    }
    match scan_digits_exec(g, 0, 0, 255) {
        Ok(v) => Some(v as u8),
        Err(_) => None,
    }
}

/// Reads `raw` as an IPv4 address, exactly as [`ipv4_spec`] describes.
pub fn parse_ipv4(raw: &str) -> (r: Option<Ipv4Value>)
    ensures
        r == ipv4_spec(raw@),
{
    let parts = split_string(raw, '.');
    if parts.len() != 4 {
        return None;
    }
    let a = parse_octet(parts[0].as_str());
    let b = parse_octet(parts[1].as_str());
    let c = parse_octet(parts[2].as_str());
    let d = parse_octet(parts[3].as_str());
    match (a, b, c, d) {
        (Some(a), Some(b), Some(c), Some(d)) => Some(Ipv4Value { a, b, c, d }),
        _ => None,
    }
}

/// Whether `g` is a valid decimal port: digits only, value at most 65535;
/// leading zeroes are accepted.
pub open spec fn valid_port(g: Seq<char>) -> bool {
    &&& g.len() >= 1
    &&& all_digits(g)
    &&& digits_value(g) <= 65535
}

/// The reading of `s` as an IPv4 socket address: a dotted-decimal address,
/// one colon, and a decimal port.
pub open spec fn sock_v4_spec(s: Seq<char>) -> Option<SockV4Value> {
    let gs = split_on(s, ':');
    if gs.len() == 2 {
        match ipv4_spec(gs[0]) {
            Some(ip) => if valid_port(gs[1]) {
                Some(SockV4Value { ip, port: digits_value(gs[1]) as u16 })
            } else {
                None
            },
            None => None,
        }
    } else {
        None
    }
}

/// Reads `raw` as an IPv4 socket address, exactly as [`sock_v4_spec`]
/// describes.
pub fn parse_sock_v4(raw: &str) -> (r: Option<SockV4Value>)
    ensures
        r == sock_v4_spec(raw@),
{
    let parts = split_string(raw, ':');
    if parts.len() != 2 {
        return None;
    }
    let ip = match parse_ipv4(parts[0].as_str()) {
        Some(ip) => ip,
        None => {
            return None;
        },
    };
    proof {
        lemma_scan_digits_value(parts[1]@, 0, 65535);
        assert(parts[1]@.skip(0) =~= parts[1]@);
    }
    if parts[1].as_str().unicode_len() == 0 {
        return None;
    }
    match scan_digits_exec(parts[1].as_str(), 0, 0, 65535) {
        Ok(v) => Some(SockV4Value { ip, port: v as u16 }),
        Err(_) => None,
    }
}

/// The fixed message for a malformed IPv4 address.
pub open spec fn ipv4_error_message() -> Seq<char> {
    "invalid IPv4 address syntax"@
}

/// The fixed message for a malformed socket address.
pub open spec fn sock_error_message() -> Seq<char> {
    "invalid socket address syntax"@
}

impl ConfigValueDecoder for Ipv4Value {
    /// Decodes a dotted-decimal IPv4 address.
    fn decode(raw: String) -> (r: Result<Ipv4Value, String>)
        ensures
            match ipv4_spec(raw@) {
                Some(ip) => r matches Ok(x) && x == ip,
                None => r matches Err(m) && m@ == ipv4_error_message(),
            },
    {
        match parse_ipv4(raw.as_str()) {
            Some(ip) => Ok(ip),
            None => Err("invalid IPv4 address syntax".to_owned()),
        }
    }
}

impl ConfigValueDecoder for SockV4Value {
    /// Decodes an IPv4 socket address of the form `address:port`.
    fn decode(raw: String) -> (r: Result<SockV4Value, String>)
        ensures
            match sock_v4_spec(raw@) {
                Some(sa) => r matches Ok(x) && x == sa,
                None => r matches Err(m) && m@ == sock_error_message(),
            },
    {
        match parse_sock_v4(raw.as_str()) {
            Some(sa) => Ok(sa),
            None => Err("invalid socket address syntax".to_owned()),
        }
    }
}

/// An IPv6 address: eight 16-bit groups, most significant first.
#[derive(Debug, PartialEq, Eq, Structural, Clone, Copy)]
pub struct Ipv6Value {
    pub g0: u16,
    pub g1: u16,
    pub g2: u16,
    pub g3: u16,
    pub g4: u16,
    pub g5: u16,
    pub g6: u16,
    pub g7: u16,
}

impl Ipv6Value {
    /// The address with the given eight groups.
    pub fn new(g0: u16, g1: u16, g2: u16, g3: u16, g4: u16, g5: u16, g6: u16, g7: u16) -> (r:
        Ipv6Value)
        ensures
            r == (Ipv6Value { g0, g1, g2, g3, g4, g5, g6, g7 }),
    {
        Ipv6Value { g0, g1, g2, g3, g4, g5, g6, g7 }
    }
}

/// An IPv6 socket address: an address and a port.
#[derive(Debug, PartialEq, Eq, Structural, Clone, Copy)]
pub struct SockV6Value {
    pub ip: Ipv6Value,
    pub port: u16,
}

/// Whether `c` is a hexadecimal digit, of either case.
pub open spec fn is_hex(c: char) -> bool {
    is_digit(c) || ('a' <= c && c <= 'f') || ('A' <= c && c <= 'F')
}

/// The numeric value of the hexadecimal digit `c`.
pub open spec fn hex_value(c: char) -> int {
    if is_digit(c) {
        digit_value(c)
    } else if 'a' <= c && c <= 'f' {
        c as int - 'a' as int + 10
    } else {
        c as int - 'A' as int + 10
    }
}

/// Whether every character of `g` is a hexadecimal digit.
pub open spec fn all_hex(g: Seq<char>) -> bool {
    forall|j: int| 0 <= j < g.len() ==> is_hex(#[trigger] g[j])
}

/// The value of a hexadecimal digit sequence, most significant first.
pub open spec fn hex_fold(g: Seq<char>, acc: int) -> int
    decreases g.len(),
{
    if g.len() == 0 {
        acc
    } else {
        hex_fold(g.drop_first(), acc * 16 + hex_value(g[0]))
    }
}

/// Whether `g` is one IPv6 group: one to four hexadecimal digits.
pub open spec fn is_h16(g: Seq<char>) -> bool {
    1 <= g.len() <= 4 && all_hex(g)
}

/// The value of one IPv6 group.
pub open spec fn h16_value(g: Seq<char>) -> int {
    hex_fold(g, 0)
}

/// Sixteen to the power `i`.
pub open spec fn pow16(i: int) -> int
    decreases i,
{
    if i <= 0 {
        1
    } else {
        16 * pow16(i - 1)
    }
}

/// A hexadecimal fold of `g` starting below `pow16(k)` stays below
/// `pow16(k + g.len())`.
proof fn lemma_hex_fold_bound(g: Seq<char>, acc: int, k: int)
    requires
        0 <= acc < pow16(k),
        0 <= k,
        all_hex(g),
    ensures
        0 <= hex_fold(g, acc) < pow16(k + g.len()),
    decreases g.len(),
{
    if g.len() > 0 {
        assert(all_hex(g.drop_first())) by {
            assert forall|j: int| 0 <= j < g.drop_first().len() implies is_hex(
                #[trigger] g.drop_first()[j],
            ) by {
                assert(g.drop_first()[j] == g[j + 1]);
            }
        }
        assert(0 <= acc * 16 + hex_value(g[0]) < 16 * pow16(k)) by (nonlinear_arith)
            requires
                0 <= acc < pow16(k),
                0 <= hex_value(g[0]) < 16,
        ;
        lemma_hex_fold_bound(g.drop_first(), acc * 16 + hex_value(g[0]), k + 1);
    }
}

/// The first position at or after `i` where two colons stand side by
/// side.
pub open spec fn find_double_colon(s: Seq<char>, i: int) -> Option<int>
    decreases s.len() - i,
{
    if !(0 <= i && i + 1 < s.len()) {
        None
    } else if s[i] == ':' && s[i + 1] == ':' {
        Some(i)
    } else {
        find_double_colon(s, i + 1)
    }
}

/// The values of a group list in which every group must be one IPv6
/// group.
pub open spec fn groups_values(gs: Seq<Seq<char>>) -> Option<Seq<int>>
    decreases gs.len(),
{
    if gs.len() == 0 {
        Some(Seq::empty())
    } else if is_h16(gs[0]) {
        match groups_values(gs.drop_first()) {
            Some(vs) => Some(seq![h16_value(gs[0])] + vs),
            None => None,
        }
    } else {
        None
    }
}

/// Whether the group holds a dot, marking an embedded dotted-decimal
/// IPv4 tail.
pub open spec fn has_dot(g: Seq<char>) -> bool {
    exists|j: int| 0 <= j < g.len() && g[j] == '.'
}

/// The values of a trailing group list: every group one IPv6 group,
/// except that the last may be a dotted-decimal IPv4 address, which
/// counts as two groups.
pub open spec fn groups_values_tail(gs: Seq<Seq<char>>) -> Option<Seq<int>> {
    if gs.len() > 0 && has_dot(gs.last()) {
        match (groups_values(gs.drop_last()), ipv4_spec(gs.last())) {
            (Some(vs), Some(ip)) => Some(
                vs + seq![ip.a as int * 256 + ip.b as int, ip.c as int * 256 + ip.d as int],
            ),
            _ => None,
        }
    } else {
        groups_values(gs)
    }
}

/// The address with the given group values.
pub open spec fn ipv6_of_groups(vs: Seq<int>) -> Ipv6Value {
    Ipv6Value {
        g0: vs[0] as u16,
        g1: vs[1] as u16,
        g2: vs[2] as u16,
        g3: vs[3] as u16,
        g4: vs[4] as u16,
        g5: vs[5] as u16,
        g6: vs[6] as u16,
        g7: vs[7] as u16,
    }
}

/// The reading of `s` as an IPv6 address.  Without a double colon, the
/// colon-separated groups must amount to exactly eight: eight
/// hexadecimal groups, or six and a trailing dotted-decimal IPv4
/// address.  With one, the groups before it and after it amount to at
/// most seven together, and the double colon stands for the missing
/// zero groups; a second double colon, an empty group or anything else
/// malformed is rejected.
pub open spec fn ipv6_spec(s: Seq<char>) -> Option<Ipv6Value> {
    match find_double_colon(s, 0) {
        None => match groups_values_tail(split_on(s, ':')) {
            Some(vs) => if vs.len() == 8 {
                Some(ipv6_of_groups(vs))
            } else {
                None
            },
            None => None,
        },
        Some(k) => {
            let left = s.take(k);
            let right = s.skip(k + 2);
            let lgs = if left.len() == 0 {
                Seq::<Seq<char>>::empty()
            } else {
                split_on(left, ':')
            };
            let rgs = if right.len() == 0 {
                Seq::<Seq<char>>::empty()
            } else {
                split_on(right, ':')
            };
            match (groups_values(lgs), groups_values_tail(rgs)) {
                (Some(lv), Some(rv)) => if lv.len() + rv.len() <= 7 {
                    Some(
                        ipv6_of_groups(
                            lv + Seq::new((8 - lv.len() - rv.len()) as nat, |i: int| 0int) + rv,
                        ),
                    )
                } else {
                    None
                },
                _ => None,
            }
        },
    }
}

/// Reads one IPv6 group of at most four hexadecimal digits, from
/// position `start`, extending the value `acc`.
fn hex_scan(g: &str, start: usize, acc: u32, Ghost(k): Ghost<int>) -> (r: Option<u32>)
    requires
        start <= g@.len(),
        g@.len() <= 4,
        0 <= k,
        (acc as int) < pow16(k),
        k + (g@.len() - start) <= 4,
    ensures
        match r {
            Some(v) => all_hex(g@.skip(start as int)) && v as int == hex_fold(
                g@.skip(start as int),
                acc as int,
            ) && v < 65536,
            None => !all_hex(g@.skip(start as int)),
        },
    decreases g@.len() - start,
{
    proof {
        reveal_with_fuel(pow16, 6);
        if all_hex(g@.skip(start as int)) {
            lemma_hex_fold_bound(g@.skip(start as int), acc as int, k);
            lemma_pow16_increases(k + (g@.len() - start), 4);
        }
    }
    if start == g.unicode_len() {
        proof {
            assert(g@.skip(start as int).len() == 0);
        }
        return Some(acc);
    }
    let c = g.get_char(start);
    proof {
        assert(g@.skip(start as int)[0] == g@[start as int]);
        assert(g@.skip(start as int).drop_first() =~= g@.skip(start as int + 1));
        lemma_all_hex_step(g@, start as int);
    }
    let d: u32 = if c >= '0' && c <= '9' {
        c as u32 - 48
    } else if c >= 'a' && c <= 'f' {
        c as u32 - 97 + 10
    } else if c >= 'A' && c <= 'F' {
        c as u32 - 65 + 10
    } else {
        proof {
            assert(!is_hex(g@[start as int]));
        }
        return None;
    };
    proof {
        assert(d as int == hex_value(c));
        assert((acc as int) * 16 + (d as int) < 16 * pow16(k)) by (nonlinear_arith)
            requires
                0 <= (acc as int) < pow16(k),
                0 <= (d as int) < 16,
        ;
        assert(16 * pow16(k) == pow16(k + 1));
        assert(pow16(k + 1) <= pow16(4)) by {
            lemma_pow16_increases(k + 1, 4);
        }
    }
    let next: u32 = acc * 16 + d;
    hex_scan(g, start + 1, next, Ghost(k + 1))
}

/// A suffix is all hexadecimal exactly when its head is and the rest is.
proof fn lemma_all_hex_step(s: Seq<char>, i: int)
    requires
        0 <= i < s.len(),
    ensures
        all_hex(s.skip(i)) <==> (is_hex(s[i]) && all_hex(s.skip(i + 1))),
{
    if is_hex(s[i]) && all_hex(s.skip(i + 1)) {
        assert forall|j: int| 0 <= j < s.skip(i).len() implies is_hex(#[trigger] s.skip(i)[j]) by {
            if j == 0 {
                assert(s.skip(i)[0] == s[i]);
            } else {
                assert(s.skip(i)[j] == s.skip(i + 1)[j - 1]);
            }
        }
    }
    if all_hex(s.skip(i)) {
        assert(s.skip(i)[0] == s[i]);
        assert forall|j: int| 0 <= j < s.skip(i + 1).len() implies is_hex(
            #[trigger] s.skip(i + 1)[j],
        ) by {
            assert(s.skip(i + 1)[j] == s.skip(i)[j + 1]);
        }
    }
}

/// Sixteen's powers are positive.
proof fn lemma_pow16_pos(i: int)
    ensures
        pow16(i) >= 1,
    decreases i,
{
    if i > 0 {
        lemma_pow16_pos(i - 1);
    }
}

/// Sixteen's powers increase with the exponent.
proof fn lemma_pow16_increases(a: int, b: int)
    requires
        0 <= a <= b,
    ensures
        pow16(a) <= pow16(b),
    decreases b - a,
{
    if a < b {
        lemma_pow16_increases(a, b - 1);
        lemma_pow16_pos(b - 1);
        assert(pow16(b) == 16 * pow16(b - 1));
    }
}

/// Reads one IPv6 group.
fn parse_h16(g: &str) -> (r: Option<u16>)
    ensures
        match r {
            Some(v) => is_h16(g@) && v as int == h16_value(g@),
            None => !is_h16(g@),
        },
{
    let n = g.unicode_len();
    if n == 0 || n > 4 {
        return None;
    }
    proof {
        assert(g@.skip(0) =~= g@);
        reveal_with_fuel(pow16, 2);
    }
    match hex_scan(g, 0, 0, Ghost(0)) {
        Some(v) => Some(v as u16),
        None => None,
    }
}

/// The values of the group list from position `start` on.
fn parse_groups_from(gs: &Vec<String>, start: usize) -> (r: Option<Vec<u16>>)
    requires
        start <= gs@.len(),
    ensures
        match r {
            Some(vs) => groups_values(gs.deep_view().skip(start as int)) == Some(
                Seq::new(vs@.len(), |i: int| vs@[i] as int),
            ),
            None => groups_values(gs.deep_view().skip(start as int)) is None,
        },
    decreases gs@.len() - start,
{
    if start == gs.len() {
        proof {
            assert(gs.deep_view().skip(start as int).len() == 0);
            assert(Seq::new(0, |i: int| 0int) =~= Seq::<int>::empty());
        }
        let r: Vec<u16> = Vec::new();
        proof {
            assert(Seq::new(r@.len(), |i: int| r@[i] as int) =~= Seq::<int>::empty());
        }
        return Some(r);
    }
    proof {
        assert(gs.deep_view().skip(start as int)[0] == gs@[start as int]@);
        assert(gs.deep_view().skip(start as int).drop_first() =~= gs.deep_view().skip(
            start as int + 1,
        ));
    }
    match parse_h16(gs[start].as_str()) {
        None => None,
        Some(v) => {
            match parse_groups_from(gs, start + 1) {
                Some(rest) => {
                    let ghost tail = Seq::new(rest@.len(), |i: int| rest@[i] as int);
                    let mut vs: Vec<u16> = Vec::new();
                    vs.push(v);
                    let mut i: usize = 0;
                    while i < rest.len()
                        invariant
                            0 <= i <= rest@.len(),
                            vs@.len() == 1 + i as int,
                            vs@[0] == v,
                            forall|j: int| 0 <= j < i as int ==> vs@[j + 1] == rest@[j],
                        decreases rest@.len() - i,
                    {
                        vs.push(rest[i]);
                        i = i + 1;
                    }
                    proof {
                        assert(Seq::new(vs@.len(), |i: int| vs@[i] as int) =~= seq![v as int]
                            + tail);
                    }
                    Some(vs)
                },
                None => None,
            }
        },
    }
}

/// The values of a group list in executable form.
fn parse_groups(gs: &Vec<String>) -> (r: Option<Vec<u16>>)
    ensures
        match r {
            Some(vs) => groups_values(gs.deep_view()) == Some(
                Seq::new(vs@.len(), |i: int| vs@[i] as int),
            ),
            None => groups_values(gs.deep_view()) is None,
        },
{
    proof {
        assert(gs.deep_view().skip(0) =~= gs.deep_view());
    }
    parse_groups_from(gs, 0)
}

/// Whether the string holds a dot.
fn contains_dot(g: &str) -> (r: bool)
    ensures
        r == has_dot(g@),
{
    let n = g.unicode_len();
    let mut i: usize = 0;
    while i < n
        invariant
            0 <= i <= n,
            n == g@.len(),
            forall|j: int| 0 <= j < i as int ==> g@[j] != '.',
        decreases n - i,
    {
        if g.get_char(i) == '.' {
            return true;
        }
        i = i + 1;
    }
    false
}

/// The values of a trailing group list, the last group possibly a
/// dotted-decimal IPv4 address.
#[verifier::loop_isolation(false)]
fn parse_groups_tail(gs: &Vec<String>) -> (r: Option<Vec<u16>>)
    ensures
        match r {
            Some(vs) => groups_values_tail(gs.deep_view()) == Some(
                Seq::new(vs@.len(), |i: int| vs@[i] as int),
            ),
            None => groups_values_tail(gs.deep_view()) is None,
        },
{
    if gs.len() > 0 && contains_dot(gs[gs.len() - 1].as_str()) {
        proof {
            assert(gs.deep_view().last() == gs@[gs@.len() - 1]@);
            assert(has_dot(gs.deep_view().last()));
        }
        let mut heads: Vec<String> = Vec::new();
        let mut i: usize = 0;
        while i < gs.len() - 1
            invariant
                0 <= i <= gs.len() - 1,
                heads@.len() == i as int,
                forall|j: int| 0 <= j < i as int ==> heads@[j]@ == gs@[j]@,
            decreases gs.len() - 1 - i,
        {
            heads.push(gs[i].clone());
            i = i + 1;
        }
        proof {
            assert(heads.deep_view() =~= gs.deep_view().drop_last());
        }
        let ip = match parse_ipv4(gs[gs.len() - 1].as_str()) {
            Some(ip) => ip,
            None => {
                return None;
            },
        };
        match parse_groups(&heads) {
            Some(mut vs) => {
                let ghost before = Seq::new(vs@.len(), |i: int| vs@[i] as int);
                let hi: u16 = (ip.a as u16) * 256 + (ip.b as u16);
                let lo: u16 = (ip.c as u16) * 256 + (ip.d as u16);
                vs.push(hi);
                vs.push(lo);
                proof {
                    assert(Seq::new(vs@.len(), |i: int| vs@[i] as int) =~= before + seq![
                        hi as int,
                        lo as int,
                    ]);
                }
                Some(vs)
            },
            None => None,
        }
    } else {
        proof {
            if gs@.len() > 0 {
                assert(gs.deep_view().last() == gs@[gs@.len() - 1]@);
            }
        }
        parse_groups(gs)
    }
}

/// Finds the first double colon.
#[verifier::loop_isolation(false)]
fn find_dc_exec(raw: &str) -> (r: Option<usize>)
    ensures
        match r {
            Some(k) => find_double_colon(raw@, 0) == Some(k as int) && k + 2 <= raw@.len(),
            None => find_double_colon(raw@, 0) is None,
        },
{
    let n = raw.unicode_len();
    if n < 2 {
        return None;
    }
    let mut i: usize = 0;
    while i < n - 1
        invariant
            0 <= i <= n - 1,
            find_double_colon(raw@, 0) == find_double_colon(raw@, i as int),
        decreases n - i,
    {
        if raw.get_char(i) == ':' && raw.get_char(i + 1) == ':' {
            return Some(i);
        }
        i = i + 1;
    }
    None
}

/// Reads `raw` as an IPv6 address, exactly as [`ipv6_spec`] describes.
#[verifier::loop_isolation(false)]
pub fn parse_ipv6(raw: &str) -> (r: Option<Ipv6Value>)
    ensures
        r == ipv6_spec(raw@),
{
    let n = raw.unicode_len();
    let dc = find_dc_exec(raw);
    match dc {
        None => {
            proof {
                assert(find_double_colon(raw@, 0) is None);
            }
            let gs = split_string(raw, ':');
            match parse_groups_tail(&gs) {
                Some(vs) => {
                    if vs.len() == 8 {
                        Some(
                            Ipv6Value {
                                g0: vs[0],
                                g1: vs[1],
                                g2: vs[2],
                                g3: vs[3],
                                g4: vs[4],
                                g5: vs[5],
                                g6: vs[6],
                                g7: vs[7],
                            },
                        )
                    } else {
                        None
                    }
                },
                None => None,
            }
        },
        Some(k) => {
            proof {
                assert(find_double_colon(raw@, 0) == Some(k as int));
            }
            let left = raw.substring_char(0, k);
            let right = raw.substring_char(k + 2, n);
            proof {
                assert(left@ =~= raw@.take(k as int));
                assert(right@ =~= raw@.skip(k as int + 2));
            }
            let lgs: Vec<String> = if left.unicode_len() == 0 {
                Vec::new()
            } else {
                split_string(left, ':')
            };
            let rgs: Vec<String> = if right.unicode_len() == 0 {
                Vec::new()
            } else {
                split_string(right, ':')
            };
            proof {
                if left@.len() == 0 {
                    assert(lgs.deep_view() =~= Seq::<Seq<char>>::empty());
                }
                if right@.len() == 0 {
                    assert(rgs.deep_view() =~= Seq::<Seq<char>>::empty());
                }
            }
            let lv = match parse_groups(&lgs) {
                Some(lv) => lv,
                None => {
                    return None;
                },
            };
            let rv = match parse_groups_tail(&rgs) {
                Some(rv) => rv,
                None => {
                    return None;
                },
            };
            if lv.len() > 7 {
                return None;
            }
            if rv.len() > 7 - lv.len() {
                return None;
            }
            let mut vs: Vec<u16> = Vec::new();
            let mut i: usize = 0;
            while i < lv.len()
                invariant
                    0 <= i <= lv.len(),
                    vs@.len() == i as int,
                    forall|j: int| 0 <= j < i as int ==> vs@[j] == lv@[j],
                decreases lv.len() - i,
            {
                vs.push(lv[i]);
                i = i + 1;
            }
            let zeros = 8 - lv.len() - rv.len();
            let mut z: usize = 0;
            while z < zeros
                invariant
                    0 <= z <= zeros,
                    vs@.len() == lv@.len() + z as int,
                    forall|j: int| 0 <= j < lv@.len() ==> vs@[j] == lv@[j],
                    forall|j: int| lv@.len() <= j < vs@.len() ==> vs@[j] == 0u16,
                decreases zeros - z,
            {
                vs.push(0);
                z = z + 1;
            }
            let mut t: usize = 0;
            while t < rv.len()
                invariant
                    0 <= t <= rv.len(),
                    vs@.len() == lv@.len() + zeros as int + t as int,
                    forall|j: int| 0 <= j < lv@.len() ==> vs@[j] == lv@[j],
                    forall|j: int| lv@.len() <= j < lv@.len() + zeros as int ==> vs@[j] == 0u16,
                    forall|j: int|
                        lv@.len() + zeros as int <= j < vs@.len() ==> vs@[j] == rv@[j - lv@.len()
                            - zeros as int],
                decreases rv.len() - t,
            {
                vs.push(rv[t]);
                t = t + 1;
            }
            proof {
                let lvs = Seq::new(lv@.len(), |i: int| lv@[i] as int);
                let rvs = Seq::new(rv@.len(), |i: int| rv@[i] as int);
                let whole = lvs + Seq::new((8 - lvs.len() - rvs.len()) as nat, |i: int| 0int)
                    + rvs;
                assert(Seq::new(vs@.len(), |i: int| vs@[i] as int) =~= whole);
                assert(whole.len() == 8);
            }
            Some(
                Ipv6Value {
                    g0: vs[0],
                    g1: vs[1],
                    g2: vs[2],
                    g3: vs[3],
                    g4: vs[4],
                    g5: vs[5],
                    g6: vs[6],
                    g7: vs[7],
                },
            )
        },
    }
}

/// The first position at or after `i` where `c` stands.
pub open spec fn find_char(s: Seq<char>, c: char, i: int) -> Option<int>
    decreases s.len() - i,
{
    if !(0 <= i < s.len()) {
        None
    } else if s[i] == c {
        Some(i)
    } else {
        find_char(s, c, i + 1)
    }
}

/// The reading of `s` as an IPv6 socket address: the address in square
/// brackets, then a colon and a decimal port.
pub open spec fn sock_v6_spec(s: Seq<char>) -> Option<SockV6Value> {
    if s.len() >= 2 && s[0] == '[' {
        match find_char(s, ']', 0) {
            Some(k) => if k + 1 < s.len() && s[k + 1] == ':' {
                match ipv6_spec(s.subrange(1, k)) {
                    Some(ip) => if valid_port(s.skip(k + 2)) {
                        Some(SockV6Value { ip, port: digits_value(s.skip(k + 2)) as u16 })
                    } else {
                        None
                    },
                    None => None,
                }
            } else {
                None
            },
            None => None,
        }
    } else {
        None
    }
}

/// Finds the first closing bracket.
#[verifier::loop_isolation(false)]
fn find_bracket(raw: &str) -> (r: Option<usize>)
    ensures
        match r {
            Some(k) => find_char(raw@, ']', 0) == Some(k as int) && k < raw@.len()
                && raw@.index(k as int) == ']',
            None => find_char(raw@, ']', 0) is None,
        },
{
    let n = raw.unicode_len();
    let mut i: usize = 0;
    while i < n
        invariant
            0 <= i <= n,
            find_char(raw@, ']', 0) == find_char(raw@, ']', i as int),
        decreases n - i,
    {
        if raw.get_char(i) == ']' {
            return Some(i);
        }
        i = i + 1;
    }
    None
}

/// Reads `raw` as an IPv6 socket address, exactly as [`sock_v6_spec`]
/// describes.
pub fn parse_sock_v6(raw: &str) -> (r: Option<SockV6Value>)
    ensures
        r == sock_v6_spec(raw@),
{
    let n = raw.unicode_len();
    if n < 2 || raw.get_char(0) != '[' {
        return None;
    }
    let k = match find_bracket(raw) {
        Some(k) => k,
        None => {
            return None;
        },
    };
    if k + 1 >= n || raw.get_char(k + 1) != ':' {
        return None;
    }
    let addr = raw.substring_char(1, k);
    proof {
        assert(addr@ =~= raw@.subrange(1, k as int));
    }
    let ip = match parse_ipv6(addr) {
        Some(ip) => ip,
        None => {
            return None;
        },
    };
    let port_text = raw.substring_char(k + 2, n);
    proof {
        assert(port_text@ =~= raw@.skip(k as int + 2));
        lemma_scan_digits_value(port_text@, 0, 65535);
        assert(port_text@.skip(0) =~= port_text@);
    }
    if port_text.unicode_len() == 0 {
        return None;
    }
    match scan_digits_exec(port_text, 0, 0, 65535) {
        Ok(v) => Some(SockV6Value { ip, port: v as u16 }),
        Err(_) => None,
    }
}

/// An IP address of either family.
#[derive(Debug, PartialEq, Eq, Structural, Clone, Copy)]
pub enum IpValue {
    V4(Ipv4Value),
    V6(Ipv6Value),
}

/// A socket address of either family.
#[derive(Debug, PartialEq, Eq, Structural, Clone, Copy)]
pub enum SockValue {
    V4(SockV4Value),
    V6(SockV6Value),
}

/// The reading of `s` as an IP address of either family: the
/// dotted-decimal form first, else the IPv6 form.
pub open spec fn ip_any_spec(s: Seq<char>) -> Option<IpValue> {
    match ipv4_spec(s) {
        Some(ip) => Some(IpValue::V4(ip)),
        None => match ipv6_spec(s) {
            Some(ip) => Some(IpValue::V6(ip)),
            None => None,
        },
    }
}

/// The reading of `s` as a socket address of either family: the IPv4
/// form first, else the bracketed IPv6 form.
pub open spec fn sock_any_spec(s: Seq<char>) -> Option<SockValue> {
    match sock_v4_spec(s) {
        Some(sa) => Some(SockValue::V4(sa)),
        None => match sock_v6_spec(s) {
            Some(sa) => Some(SockValue::V6(sa)),
            None => None,
        },
    }
}

/// Reads `raw` as an IP address of either family.
pub fn parse_ip_any(raw: &str) -> (r: Option<IpValue>)
    ensures
        r == ip_any_spec(raw@),
{
    match parse_ipv4(raw) {
        Some(ip) => Some(IpValue::V4(ip)),
        None => match parse_ipv6(raw) {
            Some(ip) => Some(IpValue::V6(ip)),
            None => None,
        },
    }
}

/// Reads `raw` as a socket address of either family.
pub fn parse_sock_any(raw: &str) -> (r: Option<SockValue>)
    ensures
        r == sock_any_spec(raw@),
{
    match parse_sock_v4(raw) {
        Some(sa) => Some(SockValue::V4(sa)),
        None => match parse_sock_v6(raw) {
            Some(sa) => Some(SockValue::V6(sa)),
            None => None,
        },
    }
}

/// The fixed message for a malformed IPv6 address.
pub open spec fn ipv6_error_message() -> Seq<char> {
    "invalid IPv6 address syntax"@
}

/// The fixed message for a malformed IP address of unknown family.
pub open spec fn ip_error_message() -> Seq<char> {
    "invalid IP address syntax"@
}

impl ConfigValueDecoder for Ipv6Value {
    /// Decodes an IPv6 address in its standard textual forms.
    fn decode(raw: String) -> (r: Result<Ipv6Value, String>)
        ensures
            match ipv6_spec(raw@) {
                Some(ip) => r matches Ok(x) && x == ip,
                None => r matches Err(m) && m@ == ipv6_error_message(),
            },
    {
        match parse_ipv6(raw.as_str()) {
            Some(ip) => Ok(ip),
            None => Err("invalid IPv6 address syntax".to_owned()),
        }
    }
}

impl ConfigValueDecoder for IpValue {
    /// Decodes an IP address of either family.
    fn decode(raw: String) -> (r: Result<IpValue, String>)
        ensures
            match ip_any_spec(raw@) {
                Some(ip) => r matches Ok(x) && x == ip,
                None => r matches Err(m) && m@ == ip_error_message(),
            },
    {
        match parse_ip_any(raw.as_str()) {
            Some(ip) => Ok(ip),
            None => Err("invalid IP address syntax".to_owned()),
        }
    }
}

impl ConfigValueDecoder for SockV6Value {
    /// Decodes an IPv6 socket address of the form `[address]:port`.
    fn decode(raw: String) -> (r: Result<SockV6Value, String>)
        ensures
            match sock_v6_spec(raw@) {
                Some(sa) => r matches Ok(x) && x == sa,
                None => r matches Err(m) && m@ == sock_error_message(),
            },
    {
        match parse_sock_v6(raw.as_str()) {
            Some(sa) => Ok(sa),
            None => Err("invalid socket address syntax".to_owned()),
        }
    }
}

impl ConfigValueDecoder for SockValue {
    /// Decodes a socket address of either family.
    fn decode(raw: String) -> (r: Result<SockValue, String>)
        ensures
            match sock_any_spec(raw@) {
                Some(sa) => r matches Ok(x) && x == sa,
                None => r matches Err(m) && m@ == sock_error_message(),
            },
    {
        match parse_sock_any(raw.as_str()) {
            Some(sa) => Ok(sa),
            None => Err("invalid socket address syntax".to_owned()),
        }
    }
}

} // verus!
