//! The address under which an instance is reached: `host` or `host:port`, the
//! host a name or a bracketed IPv6 literal.

use vstd::prelude::*;
use vstd::utf8::*;

use crate::federation::prior_home_challenge_rate_limit::CallerAddr;
use crate::text;
use crate::text::cut;

verus! {

/// The longest address.
pub const MAX_DOMAIN_LEN: usize = 255;

/// Whether a byte may stand in a host name.
pub open spec fn is_name_byte(b: u8) -> bool {
    ||| 0x61 <= b <= 0x7a
    ||| 0x41 <= b <= 0x5a
    ||| 0x30 <= b <= 0x39
    ||| b == 0x2d
    ||| b == 0x2e
}

/// Whether a byte may stand between the brackets of an IPv6 literal.
pub open spec fn is_literal_byte(b: u8) -> bool {
    ||| 0x61 <= b <= 0x66
    ||| 0x41 <= b <= 0x46
    ||| 0x30 <= b <= 0x39
    ||| b == 0x3a
    ||| b == 0x2e
}

/// Whether a host is written in `b`: a name, or an IPv6 literal in brackets.
pub open spec fn is_host(b: Seq<u8>) -> bool {
    ||| b.len() > 0 && forall|i: int| 0 <= i < b.len() ==> is_name_byte(#[trigger] b[i])
    ||| b.len() > 2 && b[0] == 0x5b && b.last() == 0x5d && forall|i: int|
        0 < i < b.len() - 1 ==> is_literal_byte(#[trigger] b[i])
}

/// Whether a port is written in `b`: one to five digits.
pub open spec fn is_port(b: Seq<u8>) -> bool {
    &&& 1 <= b.len() <= 5
    &&& forall|i: int| 0 <= i < b.len() ==> 0x30 <= #[trigger] b[i] <= 0x39
    &&& text::decimal(b) <= u16::MAX
}

/// Whether the address `b` is the host `b[..n]`, followed by a port where
/// anything follows.
pub open spec fn splits_at(b: Seq<u8>, n: int) -> bool {
    &&& 0 < n <= b.len()
    &&& is_host(b.take(n))
    &&& n < b.len() ==> b[n] == 0x3a && is_port(b.skip(n + 1))
}

/// Whether `b` is an address.
pub open spec fn is_authority(b: Seq<u8>) -> bool {
    b.len() <= MAX_DOMAIN_LEN && exists|n: int| #[trigger] splits_at(b, n)
}

/// Whether a text is an address.
pub open spec fn is_instance_domain(s: Seq<char>) -> bool {
    is_authority(encode_utf8(s))
}

/// An address in its parts.
#[derive(Debug)]
pub struct InstanceDomain {
    pub host: String,
    pub port: Option<u16>,
}

/// A text that is no address.
#[derive(Clone, Copy, Debug, PartialEq, Eq)]
pub struct InvalidDomain;

fn name_byte(b: u8) -> (yes: bool)
    ensures
        yes == is_name_byte(b),
{
    (0x61 <= b && b <= 0x7a) || (0x41 <= b && b <= 0x5a) || (0x30 <= b && b <= 0x39) || b == 0x2d
        || b == 0x2e
}

fn literal_byte(b: u8) -> (yes: bool)
    ensures
        yes == is_literal_byte(b),
{
    (0x61 <= b && b <= 0x66) || (0x41 <= b && b <= 0x46) || (0x30 <= b && b <= 0x39) || b == 0x3a
        || b == 0x2e
}

/// Where the host of an address ends, if it starts with one.
fn host_end(b: &[u8]) -> (end: Option<usize>)
    ensures
        match end {
            Some(n) => 0 < n <= b@.len() && is_host(b@.take(n as int)) && (n < b@.len()
                ==> b@[n as int] < 0x80) && forall|m: int|
                #[trigger] splits_at(b@, m) ==> m == n,
            None => forall|m: int| !(#[trigger] splits_at(b@, m)),
        },
{
    if b.len() == 0 {
        return None;
    }
    let mut i: usize = 1;
    if b[0] == 0x5b {
        while i < b.len() && literal_byte(b[i])
            invariant
                1 <= i <= b.len(),
                b@[0] == 0x5b,
                forall|j: int| 0 < j < i ==> is_literal_byte(#[trigger] b@[j]),
            decreases b.len() - i,
        {
            i += 1;
        }
        let closed: bool = i < b.len() && b[i] == 0x5d && i > 1;
        proof {
            assert forall|m: int| #[trigger] splits_at(b@, m) implies closed && m == i + 1 by {
                let h = b@.take(m);
                assert(h[0] == 0x5b);
                assert(!is_name_byte(h[0]));
                assert(h.last() == b@[m - 1]);
                assert(h[m - 1] == 0x5d);
                if m - 1 < i {
                    assert(is_literal_byte(b@[m - 1]));
                } else if i < m - 1 {
                    assert(is_literal_byte(h[i as int]));
                    assert(h[i as int] == b@[i as int]);
                }
            }
        }
        if !closed {
            return None;
        }
        let end: usize = i + 1;
        proof {
            let h = b@.take(end as int);
            assert forall|j: int| 0 < j < h.len() - 1 implies is_literal_byte(#[trigger] h[j]) by {
                assert(h[j] == b@[j]);
            }
            assert(h.last() == b@[i as int]);
            if end < b@.len() && b@[end as int] >= 0x80 {
                assert(!splits_at(b@, end as int));
            }
        }
        if end < b.len() && b[end] >= 0x80 {
            return None;
        }
        Some(end)
    } else {
        if !name_byte(b[0]) {
            proof {
                assert forall|m: int| !(#[trigger] splits_at(b@, m)) by {
                    if splits_at(b@, m) {
                        assert(b@.take(m)[0] == b@[0]);
                    }
                }
            }
            return None;
        }
        while i < b.len() && name_byte(b[i])
            invariant
                1 <= i <= b.len(),
                forall|j: int| 0 <= j < i ==> is_name_byte(#[trigger] b@[j]),
            decreases b.len() - i,
        {
            i += 1;
        }
        proof {
            let h = b@.take(i as int);
            assert forall|j: int| 0 <= j < h.len() implies is_name_byte(#[trigger] h[j]) by {
                assert(h[j] == b@[j]);
            }
            assert forall|m: int| #[trigger] splits_at(b@, m) implies m == i by {
                let g = b@.take(m);
                assert(g[0] == b@[0]);
                if i < m {
                    assert(is_name_byte(g[i as int]));
                    assert(g[i as int] == b@[i as int]);
                } else if m < i {
                    assert(is_name_byte(b@[m]));
                }
            }
        }
        if i < b.len() && b[i] >= 0x80 {
            assert(!splits_at(b@, i as int));
            return None;
        }
        Some(i)
    }
}

/// The port that `b` writes, if it writes one.
fn read_port(b: &[u8]) -> (port: Option<u16>)
    ensures
        match port {
            Some(p) => is_port(b@) && p == text::decimal(b@),
            None => !is_port(b@),
        },
{
    if b.len() == 0 || b.len() > 5 {
        return None;
    }
    let mut n: u32 = 0;
    let mut i: usize = 0;
    assert(b@.take(0) =~= Seq::<u8>::empty());
    while i < b.len()
        invariant
            i <= b.len() <= 5,
            forall|j: int| 0 <= j < i ==> 0x30 <= #[trigger] b@[j] <= 0x39,
            n == text::decimal(b@.take(i as int)),
            i == 0 ==> n == 0,
            i == 1 ==> n <= 9,
            i == 2 ==> n <= 99,
            i == 3 ==> n <= 999,
            i == 4 ==> n <= 9_999,
            i == 5 ==> n <= 99_999,
        decreases b.len() - i,
    {
        if b[i] < 0x30 || b[i] > 0x39 {
            return None;
        }
        assert(b@.take(i + 1).drop_last() =~= b@.take(i as int));
        assert(b@.take(i + 1).last() == b@[i as int]);
        n = n * 10 + (b[i] - 0x30) as u32;
        i += 1;
    }
    assert(b@.take(i as int) =~= b@);
    if n > u16::MAX as u32 {
        return None;
    }
    Some(n as u16)
}

/// Reads an address.
pub fn parse_instance_domain(s: &str) -> (domain: Result<InstanceDomain, InvalidDomain>)
    ensures
        domain is Ok <==> is_instance_domain(s@),
        domain matches Ok(d) ==> exists|n: int|
            #[trigger] splits_at(encode_utf8(s@), n) && encode_utf8(d.host@) == encode_utf8(
                s@,
            ).take(n) && (d.port is Some <==> n < encode_utf8(s@).len()) && (d.port is Some
                ==> d.port->Some_0 == text::decimal(encode_utf8(s@).skip(n + 1))),
{
    let b: &[u8] = s.as_bytes();
    let ghost all = encode_utf8(s@);
    assert(b@ == all);
    if b.len() > MAX_DOMAIN_LEN {
        return Err(InvalidDomain);
    }
    let n: usize = match host_end(b) {
        Some(n) => n,
        None => return Err(InvalidDomain),
    };
    let mut port: Option<u16> = None;
    if n < b.len() {
        if b[n] != 0x3a {
            assert(!splits_at(all, n as int));
            return Err(InvalidDomain);
        }
        let tail: &[u8] = vstd::slice::slice_subrange(b, n + 1, b.len());
        assert(tail@ =~= all.skip(n + 1));
        port = read_port(tail);
        if port.is_none() {
            assert(!splits_at(all, n as int));
            return Err(InvalidDomain);
        }
    }
    let parts: (&str, &str) = cut(s, n);
    let host: String = parts.0.to_owned();
    proof {
        assert(splits_at(all, n as int));
    }
    Ok(InstanceDomain { host, port })
}

/// Whether an IPv4 address belongs to no public network: loopback, private,
/// link-local with the metadata services, shared by a carrier, or none at all.
pub open spec fn is_private_v4(o: Seq<u8>) -> bool {
    ||| o[0] == 0
    ||| o[0] == 10
    ||| o[0] == 127
    ||| o[0] == 100 && 64 <= o[1] <= 127
    ||| o[0] == 169 && o[1] == 254
    ||| o[0] == 172 && 16 <= o[1] <= 31
    ||| o[0] == 192 && o[1] == 168
}

/// Whether an IPv6 address belongs to no public network: loopback, none at
/// all, link-local, unique-local, or the form of such an IPv4 address.
pub open spec fn is_private_v6(o: Seq<u8>) -> bool {
    let head_is_zero = forall|i: int| 0 <= i < 10 ==> #[trigger] o[i] == 0;
    ||| head_is_zero && o.subrange(10, 15) == seq![0u8, 0, 0, 0, 0] && o[15] <= 1
    ||| o[0] == 0xfe && 0x80 <= o[1] <= 0xbf
    ||| 0xfc <= o[0] <= 0xfd
    ||| head_is_zero && o[10] == 0xff && o[11] == 0xff && is_private_v4(o.subrange(12, 16))
}

/// Whether no request goes out to an address.
pub open spec fn is_blocked_address(addr: CallerAddr) -> bool {
    match addr {
        CallerAddr::V4(o) => is_private_v4(o@),
        CallerAddr::V6(o) => is_private_v6(o@),
    }
}

fn private_v4(a: u8, b: u8) -> (yes: bool)
    ensures
        forall|o: Seq<u8>|
            o.len() == 4 && o[0] == a && o[1] == b ==> yes == #[trigger] is_private_v4(o),
{
    a == 0 || a == 10 || a == 127 || (a == 100 && 64 <= b && b <= 127) || (a == 169 && b == 254)
        || (a == 172 && 16 <= b && b <= 31) || (a == 192 && b == 168)
}

/// Whether no request goes out to an address.
pub fn blocked_address(addr: &CallerAddr) -> (blocked: bool)
    ensures
        blocked == is_blocked_address(*addr),
{
    match addr {
        CallerAddr::V4(o) => private_v4(o[0], o[1]),
        CallerAddr::V6(o) => {
            let ghost v = o@;
            let mut zeros: usize = 0;
            while zeros < 10 && o[zeros] == 0
                invariant
                    zeros <= 10,
                    v == o@,
                    forall|i: int| 0 <= i < zeros ==> #[trigger] v[i] == 0,
                decreases 10 - zeros,
            {
                zeros += 1;
            }
            let head_is_zero: bool = zeros == 10;
            let tail_is_zero: bool = o[10] == 0 && o[11] == 0 && o[12] == 0 && o[13] == 0 && o[14]
                == 0;
            let mapped: bool = private_v4(o[12], o[13]);
            proof {
                if !head_is_zero {
                    assert(v[zeros as int] != 0);
                }
                let mid = v.subrange(10, 15);
                if tail_is_zero {
                    assert(mid =~= seq![0u8, 0, 0, 0, 0]);
                } else {
                    assert(mid[0] == v[10] && mid[1] == v[11] && mid[2] == v[12] && mid[3]
                        == v[13] && mid[4] == v[14]);
                    let z = seq![0u8, 0, 0, 0, 0];
                    assert(z[0] == 0 && z[1] == 0 && z[2] == 0 && z[3] == 0 && z[4] == 0);
                }
                let last = v.subrange(12, 16);
                assert(last[0] == v[12] && last[1] == v[13]);
                assert(mapped == is_private_v4(last));
            }
            (head_is_zero && tail_is_zero && o[15] <= 1) || (o[0] == 0xfe && 0x80 <= o[1] && o[1]
                <= 0xbf) || (0xfc <= o[0] && o[0] <= 0xfd) || (head_is_zero && o[10] == 0xff
                && o[11] == 0xff && mapped)
        },
    }
}

/// Every name of letters, digits, hyphens and dots is an address, of itself
/// as the host and without a port, as long as it is not longer than 255
/// characters.
pub proof fn law_names_are_addresses(s: &str, domain: Result<InstanceDomain, InvalidDomain>)
    requires
        call_ensures(parse_instance_domain, (s,), domain),
        1 <= s@.len() <= 255,
        forall|i: int|
            0 <= i < s@.len() ==> 'a' <= #[trigger] s@[i] <= 'z' || 'A' <= s@[i] <= 'Z' || '0'
                <= s@[i] <= '9' || s@[i] == '-' || s@[i] == '.',
    ensures
        domain matches Ok(d) && d.host@ == s@ && d.port is None,
{
    let b = encode_utf8(s@);
    assert(is_ascii_chars(s@));
    is_ascii_chars_encode_utf8(s@);
    assert forall|i: int| 0 <= i < b.len() implies is_name_byte(#[trigger] b[i]) by {
        assert(b[i] == s@[i] as u8);
    }
    let n = b.len() as int;
    assert(b.take(n) =~= b);
    assert(splits_at(b, n));
    if let Ok(d) = domain {
        let m = choose|m: int|
            #[trigger] splits_at(b, m) && encode_utf8(d.host@) == b.take(m) && (d.port is Some
                <==> m < b.len()) && (d.port is Some ==> d.port->Some_0 == text::decimal(
                b.skip(m + 1),
            ));
        if m < b.len() {
            assert(is_name_byte(b[m]));
        }
        assert(b.take(m) =~= b);
        encode_utf8_decode_utf8(d.host@);
        encode_utf8_decode_utf8(s@);
    }
}

/// An address is never empty nor longer than 255 bytes, and holds nothing but
/// letters, digits, hyphens, dots, colons and brackets.
pub proof fn law_addresses_hold_no_other_bytes(
    s: &str,
    domain: Result<InstanceDomain, InvalidDomain>,
    i: int,
)
    requires
        call_ensures(parse_instance_domain, (s,), domain),
        domain is Ok,
    ensures
        1 <= encode_utf8(s@).len() <= 255,
        0 <= i < encode_utf8(s@).len() ==> ({
            let b = encode_utf8(s@)[i];
            ||| 0x61 <= b <= 0x7a
            ||| 0x41 <= b <= 0x5a
            ||| 0x2d <= b <= 0x2e
            ||| 0x30 <= b <= 0x3a
            ||| b == 0x5b
            ||| b == 0x5d
        }),
{
    let b = encode_utf8(s@);
    let n = choose|n: int| #[trigger] splits_at(b, n);
    if 0 <= i < b.len() {
        if i < n {
            assert(b.take(n)[i] == b[i]);
        } else if i > n {
            assert(b.skip(n + 1)[i - n - 1] == b[i]);
        }
    }
}

/// A port behind the host is the number that its one to five digits write, up
/// to the last port; an address ends with its host where none is there.
pub proof fn law_ports_are_numbers(
    s: &str,
    domain: Result<InstanceDomain, InvalidDomain>,
)
    requires
        call_ensures(parse_instance_domain, (s,), domain),
        domain is Ok,
    ensures
        ({
            let b = encode_utf8(s@);
            let host = encode_utf8(domain->Ok_0.host@);
            &&& 0 < host.len() <= b.len() && b.take(host.len() as int) == host
            &&& domain->Ok_0.port is None <==> host == b
            &&& domain->Ok_0.port matches Some(p) ==> ({
                let digits = b.skip(host.len() as int + 1);
                &&& b[host.len() as int] == 0x3a
                &&& 1 <= digits.len() <= 5
                &&& text::are_digits(digits)
                &&& p == text::decimal(digits)
            })
        }),
{
    let d = domain->Ok_0;
    let b = encode_utf8(s@);
    let n = choose|n: int|
        #[trigger] splits_at(b, n) && encode_utf8(d.host@) == b.take(n) && (d.port is Some <==> n
            < b.len()) && (d.port is Some ==> d.port->Some_0 == text::decimal(b.skip(n + 1)));
    assert(b.take(n).len() == n);
    if n == b.len() {
        assert(b.take(n) =~= b);
    }
}

/// No request goes out to this machine, to the networks that are private,
/// shared or local to a link, or to no network at all, in either version of
/// the protocol; to every other address it may.
pub proof fn law_private_networks_are_closed(
    v4: [u8; 4],
    v4_blocked: bool,
    v6: [u8; 16],
    v6_blocked: bool,
)
    requires
        call_ensures(blocked_address, (&CallerAddr::V4(v4),), v4_blocked),
        call_ensures(blocked_address, (&CallerAddr::V6(v6),), v6_blocked),
    ensures
        v4_blocked <==> v4@[0] == 0 || v4@[0] == 10 || v4@[0] == 127 || (v4@[0] == 100 && 64
            <= v4@[1] < 128) || (v4@[0] == 169 && v4@[1] == 254) || (v4@[0] == 172 && 16 <= v4@[1]
            < 32) || (v4@[0] == 192 && v4@[1] == 168),
        v6@[0] == 0xfc || v6@[0] == 0xfd ==> v6_blocked,
        v6@[0] == 0xfe && 0x80 <= v6@[1] < 0xc0 ==> v6_blocked,
        (forall|i: int| 0 <= i < 15 ==> #[trigger] v6@[i] == 0) && v6@[15] <= 1 ==> v6_blocked,
        (forall|i: int| 0 <= i < 10 ==> #[trigger] v6@[i] == 0) && v6@[10] == 0xff && v6@[11]
            == 0xff && v6@.subrange(12, 16) == v4@ ==> v6_blocked == v4_blocked,
        0 < v6@[0] < 0xfc || v6@[0] == 0xff ==> !v6_blocked,
        v6@[0] == 0xfe && !(0x80 <= v6@[1] < 0xc0) ==> !v6_blocked,
{
    if (forall|i: int| 0 <= i < 15 ==> #[trigger] v6@[i] == 0) && v6@[15] <= 1 {
        assert(v6@.subrange(10, 15) =~= seq![0u8, 0, 0, 0, 0]);
    }
    if v6@[10] == 0xff {
        assert(v6@.subrange(10, 15)[0] == 0xff);
        assert(v6@.subrange(10, 15) != seq![0u8, 0, 0, 0, 0]);
    }
}

/// An IPv6 literal in brackets is an address: hexadecimal digits of either
/// case, colons and dots, at least one of them.
pub proof fn law_literals_are_addresses(s: &str, domain: Result<InstanceDomain, InvalidDomain>)
    requires
        call_ensures(parse_instance_domain, (s,), domain),
        3 <= s@.len() <= 255,
        s@[0] == '[' && s@.last() == ']',
        forall|i: int|
            0 < i < s@.len() - 1 ==> 'a' <= #[trigger] s@[i] <= 'f' || 'A' <= s@[i] <= 'F' || '0'
                <= s@[i] <= '9' || s@[i] == ':' || s@[i] == '.',
    ensures
        domain matches Ok(d) && d.host@ == s@ && d.port is None,
{
    let b = encode_utf8(s@);
    assert(is_ascii_chars(s@));
    is_ascii_chars_encode_utf8(s@);
    assert forall|i: int| 0 < i < b.len() - 1 implies is_literal_byte(#[trigger] b[i]) by {
        assert(b[i] == s@[i] as u8);
    }
    let n = b.len() as int;
    assert(b[0] == 0x5b && b[n - 1] == 0x5d);
    assert(b.take(n) =~= b);
    assert(splits_at(b, n));
    if let Ok(d) = domain {
        let m = choose|m: int|
            #[trigger] splits_at(b, m) && encode_utf8(d.host@) == b.take(m) && (d.port is Some
                <==> m < b.len()) && (d.port is Some ==> d.port->Some_0 == text::decimal(
                b.skip(m + 1),
            ));
        if m < b.len() {
            let h = b.take(m);
            assert(h[0] == 0x5b);
            assert(h.last() == b[m - 1]);
            if m > 1 {
                assert(is_literal_byte(b[m - 1]));
            }
        }
        assert(b.take(m) =~= b);
        encode_utf8_decode_utf8(d.host@);
        encode_utf8_decode_utf8(s@);
    }
}

/// A name with a colon and a port behind it is an address: the port has one to
/// five digits, and no more than there are ports.
pub proof fn law_names_may_have_a_port(
    s: &str,
    name: Seq<char>,
    port: Seq<char>,
    domain: Result<InstanceDomain, InvalidDomain>,
)
    requires
        call_ensures(parse_instance_domain, (s,), domain),
        s@ == name + seq![':'] + port,
        1 <= name.len() && s@.len() <= 255,
        forall|i: int|
            0 <= i < name.len() ==> 'a' <= #[trigger] name[i] <= 'z' || 'A' <= name[i] <= 'Z'
                || '0' <= name[i] <= '9' || name[i] == '-' || name[i] == '.',
        1 <= port.len() <= 5,
        forall|i: int| 0 <= i < port.len() ==> '0' <= #[trigger] port[i] <= '9',
        text::decimal(encode_utf8(port)) <= 65535,
    ensures
        domain matches Ok(d) && d.host@ == name && d.port == Some(
            text::decimal(encode_utf8(port)) as u16,
        ),
{
    let b = encode_utf8(s@);
    let colon = seq![':'];
    assert(is_ascii_chars(name) && is_ascii_chars(colon) && is_ascii_chars(port));
    is_ascii_chars_encode_utf8(name);
    is_ascii_chars_encode_utf8(colon);
    is_ascii_chars_encode_utf8(port);
    text::lemma_utf8_concat(name, colon);
    text::lemma_utf8_concat(name + colon, port);
    let h = encode_utf8(name);
    let p = encode_utf8(port);
    let n = h.len() as int;
    assert(b == h + encode_utf8(colon) + p);
    assert(encode_utf8(colon)[0] == 0x3a);
    assert(b.take(n) =~= h);
    assert(b.skip(n + 1) =~= p);
    assert(b[n] == 0x3a);
    assert forall|i: int| 0 <= i < h.len() implies is_name_byte(#[trigger] h[i]) by {
        assert(h[i] == name[i] as u8);
    }
    assert forall|i: int| 0 <= i < p.len() implies 0x30 <= #[trigger] p[i] <= 0x39 by {
        assert(p[i] == port[i] as u8);
    }
    assert(is_port(p));
    assert(splits_at(b, n));
    if let Ok(d) = domain {
        let m = choose|m: int|
            #[trigger] splits_at(b, m) && encode_utf8(d.host@) == b.take(m) && (d.port is Some
                <==> m < b.len()) && (d.port is Some ==> d.port->Some_0 == text::decimal(
                b.skip(m + 1),
            ));
        if m < n {
            assert(is_name_byte(h[m]));
            assert(b[m] == h[m]);
        }
        if m > n {
            assert(b.take(m)[n] == 0x3a);
            assert(b.take(m)[0] == h[0]);
            assert(is_name_byte(h[0]));
        }
        encode_utf8_decode_utf8(d.host@);
        encode_utf8_decode_utf8(name);
    }
}

} // verus!
