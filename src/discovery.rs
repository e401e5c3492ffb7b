//! UDP discovery: probe recognition, the reply format, reply parsing, and
//! the sorted, de-duplicated list of peers found.
use crate::addr::{addr_lt, lemma_addr_lt_order, IpAddress, PeerAddr};
use crate::bytes::{append_bytes, copy_range};
use crate::fields::utf8_string;
use vstd::prelude::*;
use vstd::string::StringSliceAdditionalSpecFns;
use vstd::utf8::{
    encode_utf8, encode_utf8_valid_utf8, is_ascii_chars, is_ascii_chars_encode_utf8, valid_utf8,
    valid_utf8_concat,
};

verus! {

/// The ASCII byte of `:`.
pub const COLON: u8 = 58;

/// The ASCII byte of `+`.
pub const PLUS: u8 = 43;

/// A datagram is a probe when its payload starts with the magic bytes.
pub open spec fn spec_is_probe(payload: Seq<u8>, magic: Seq<u8>) -> bool {
    magic.len() <= payload.len() && payload.take(magic.len() as int) == magic
}

pub fn is_probe(payload: &[u8], magic: &str) -> (r: bool)
    ensures
        r == spec_is_probe(payload@, magic.spec_bytes()),
{
    let m = magic.as_bytes();
    if m.len() > payload.len() {
        return false;
    }
    let mut i: usize = 0;
    while i < m.len()
        invariant
            m@.len() <= payload@.len(),
            m@ == magic.spec_bytes(),
            i <= m@.len(),
            forall|j: int| 0 <= j < i ==> payload@[j] == m@[j],
        decreases m@.len() - i,
    {
        if payload[i] != m[i] {
            assert(payload@.take(m@.len() as int)[i as int] == payload@[i as int]);
            assert(payload@.take(m@.len() as int) != m@);
            assert(!spec_is_probe(payload@, magic.spec_bytes()));
            return false;
        }
        i = i + 1;
    }
    assert(payload@.take(m@.len() as int) =~= m@);
    true
}

/// Decimal digits of `n`, most significant first, in ASCII.
pub open spec fn dec_digits(n: nat) -> Seq<u8>
    decreases n,
{
    if n < 10 {
        seq![(48 + n) as u8]
    } else {
        dec_digits(n / 10).push((48 + n % 10) as u8)
    }
}

fn put_decimal(out: &mut Vec<u8>, n: u16)
    ensures
        final(out)@ == old(out)@ + dec_digits(n as nat),
    decreases n,
{
    if n >= 10 {
        put_decimal(out, n / 10);
    }
    out.push(48u8 + (n % 10) as u8);
    assert(final(out)@ =~= old(out)@ + dec_digits(n as nat));
}

/// The reply a responder sends: `"{magic}:{port}"` in ASCII.
pub open spec fn spec_reply(magic: Seq<u8>, port: u16) -> Seq<u8> {
    magic + seq![COLON] + dec_digits(port as nat)
}

pub fn discovery_reply(magic: &str, port: u16) -> (r: Vec<u8>)
    ensures
        r@ == spec_reply(magic.spec_bytes(), port),
{
    let mut out: Vec<u8> = Vec::new();
    append_bytes(&mut out, magic.as_bytes());
    out.push(COLON);
    put_decimal(&mut out, port);
    assert(out@ =~= spec_reply(magic.spec_bytes(), port));
    out
}

pub open spec fn is_digit(b: u8) -> bool {
    48 <= b <= 57
}

pub open spec fn all_digits(s: Seq<u8>) -> bool {
    forall|i: int| 0 <= i < s.len() ==> is_digit(#[trigger] s[i])
}

/// The number that a string of decimal digits denotes.
pub open spec fn dec_value(s: Seq<u8>) -> nat
    decreases s.len(),
{
    if s.len() == 0 {
        0
    } else {
        dec_value(s.drop_last()) * 10 + (s.last() - 48) as nat
    }
}

/// A port in decimal, as `u16`'s parser reads it: an optional `+`, then one
/// or more digits whose value fits 16 bits.
pub open spec fn spec_parse_port(s: Seq<u8>) -> Option<u16> {
    let d = if s.len() > 0 && s[0] == PLUS {
        s.skip(1)
    } else {
        s
    };
    if d.len() > 0 && all_digits(d) && dec_value(d) <= 65535 {
        Some(dec_value(d) as u16)
    } else {
        None
    }
}

proof fn lemma_dec_value_grows(d: Seq<u8>, k: int, j: int)
    requires
        0 <= k <= j <= d.len(),
        all_digits(d),
    ensures
        dec_value(d.take(k)) <= dec_value(d.take(j)),
    decreases j - k,
{
    if k < j {
        lemma_dec_value_grows(d, k, j - 1);
        assert(d.take(j).drop_last() =~= d.take(j - 1));
        assert(is_digit(d[j - 1]));
    }
}

fn parse_port(s: &[u8], from: usize) -> (r: Option<u16>)
    requires
        from <= s@.len(),
    ensures
        r == spec_parse_port(s@.skip(from as int)),
{
    let ghost t = s@.skip(from as int);
    let start: usize = if from < s.len() && s[from] == PLUS {
        from + 1
    } else {
        from
    };
    let ghost d = s@.skip(start as int);
    assert(d =~= (if t.len() > 0 && t[0] == PLUS { t.skip(1) } else { t }));
    if start == s.len() {
        return None;
    }
    let mut v: u32 = 0;
    let mut i: usize = start;
    while i < s.len()
        invariant
            start <= i <= s@.len(),
            d == s@.skip(start as int),
            t == s@.skip(from as int),
            d == (if t.len() > 0 && t[0] == PLUS { t.skip(1) } else { t }),
            forall|j: int| 0 <= j < i - start ==> is_digit(#[trigger] d[j]),
            v as nat == dec_value(d.take(i - start)),
            v <= 65535,
        decreases s@.len() - i,
    {
        let b = s[i];
        if b < 48 || b > 57 {
            assert(d[i - start] == s@[i as int]);
            assert(!is_digit(d[i - start]));
            assert(!all_digits(d));
            assert(spec_parse_port(s@.skip(from as int)) is None);
            return None;
        }
        let ghost k = i - start;
        assert(d.take(k + 1).drop_last() =~= d.take(k));
        assert(d.take(k + 1).last() == b);
        v = v * 10 + (b - 48) as u32;
        i = i + 1;
        assert(v as nat == dec_value(d.take(i - start)));
        if v > 65535 {
            proof {
                if all_digits(d) {
                    lemma_dec_value_grows(d, i - start, d.len() as int);
                    assert(d.take(d.len() as int) =~= d);
                }
            }
            return None;
        }
    }
    assert(d.take(s@.len() - start) =~= d);
    Some(v as u16)
}

pub open spec fn colon_at(s: Seq<u8>, i: int) -> bool {
    &&& 0 <= i < s.len()
    &&& s[i] == COLON
    &&& forall|j: int| 0 <= j < i ==> s[j] != COLON
}

/// What a reply from `ip` yields: the sender's IP with the port written after
/// the first `:` of a valid UTF-8 payload.
pub open spec fn spec_parse_reply(payload: Seq<u8>, ip: IpAddress) -> Option<PeerAddr> {
    if valid_utf8(payload) && exists|i: int| colon_at(payload, i) {
        let i = choose|i: int| colon_at(payload, i);
        match spec_parse_port(payload.skip(i + 1)) {
            Some(port) => Some(PeerAddr { ip, port }),
            None => None,
        }
    } else {
        None
    }
}

pub fn parse_discovery_reply(payload: &[u8], ip: IpAddress) -> (r: Option<PeerAddr>)
    ensures
        r == spec_parse_reply(payload@, ip),
{
    let copy = copy_range(payload, 0, payload.len());
    assert(copy@ =~= payload@);
    if utf8_string(copy).is_none() {
        return None;
    }
    let mut i: usize = 0;
    while i < payload.len()
        invariant
            i <= payload@.len(),
            valid_utf8(payload@),
            forall|j: int| 0 <= j < i ==> payload@[j] != COLON,
        decreases payload@.len() - i,
    {
        if payload[i] == COLON {
            assert(colon_at(payload@, i as int));
            let ghost c = choose|k: int| colon_at(payload@, k);
            assert(c == i as int) by {
                if c < i {
                } else if c > i {
                    assert(payload@[i as int] != COLON);
                }
            }
            return match parse_port(payload, i + 1) {
                Some(port) => Some(PeerAddr { ip, port }),
                None => None,
            };
        }
        i = i + 1;
    }
    assert(!exists|k: int| colon_at(payload@, k));
    None
}

pub open spec fn strictly_sorted(s: Seq<PeerAddr>) -> bool {
    forall|i: int, j: int| 0 <= i < j < s.len() ==> addr_lt(#[trigger] s[i], #[trigger] s[j])
}

/// The peers found, sorted in address order with duplicates removed.
pub fn collect_peers(found: &Vec<PeerAddr>) -> (r: Vec<PeerAddr>)
    ensures
        strictly_sorted(r@),
        forall|a: PeerAddr| r@.contains(a) <==> found@.contains(a),
{
    let mut out: Vec<PeerAddr> = Vec::new();
    let mut k: usize = 0;
    while k < found.len()
        invariant
            k <= found@.len(),
            strictly_sorted(out@),
            forall|a: PeerAddr| out@.contains(a) <==> found@.take(k as int).contains(a),
        decreases found@.len() - k,
    {
        let x = found[k];
        let mut i: usize = 0;
        while i < out.len() && out[i].less_than(&x)
            invariant
                i <= out@.len(),
                forall|j: int| 0 <= j < i ==> addr_lt(#[trigger] out@[j], x),
            decreases out@.len() - i,
        {
            i = i + 1;
        }
        let ghost before = out@;
        assert(found@.take(k + 1) =~= found@.take(k as int).push(x));
        if i < out.len() && out[i] == x {
            assert(out@.contains(x));
            assert forall|a: PeerAddr| out@.contains(a) <==> found@.take(k + 1).contains(a) by {
                if found@.take(k + 1).contains(a) && a != x {
                    let w = choose|w: int| 0 <= w < found@.take(k + 1).len() && #[trigger] found@.take(k + 1)[w] == a;
                    assert(found@.take(k as int)[w] == a);
                    assert(found@.take(k as int).contains(a));
                }
            }
        } else {
            out.insert(i, x);
            assert(out@ == before.insert(i as int, x));
            assert forall|p: int, q: int| 0 <= p < q < out@.len() implies addr_lt(
                #[trigger] out@[p],
                #[trigger] out@[q],
            ) by {
                if q < i {
                } else if q == i {
                } else if p < i {
                    lemma_addr_lt_order(out@[p], x, out@[q]);
                    if x != before[i as int] {
                        lemma_addr_lt_order(x, before[i as int], out@[q]);
                        lemma_addr_lt_order(before[i as int], x, x);
                    }
                } else if p == i {
                    lemma_addr_lt_order(x, before[i as int], out@[q]);
                    if x != before[i as int] {
                        lemma_addr_lt_order(before[i as int], x, x);
                    }
                } else {
                }
            }
            assert forall|a: PeerAddr| out@.contains(a) <==> found@.take(k + 1).contains(a) by {
                if out@.contains(a) {
                    let w = choose|w: int| 0 <= w < out@.len() && out@[w] == a;
                    if a != x {
                        if w < i {
                            assert(before[w] == a);
                        } else {
                            assert(w != i);
                            assert(before[w - 1] == a);
                        }
                        assert(before.contains(a));
                        assert(found@.take(k as int).contains(a));
                        let u = choose|u: int| 0 <= u < found@.take(k as int).len() && #[trigger] found@.take(k as int)[u] == a;
                        assert(found@.take(k + 1)[u] == a);
                    } else {
                        assert(found@.take(k + 1)[k as int] == x);
                    }
                }
                if found@.take(k + 1).contains(a) {
                    if a == x {
                        assert(out@[i as int] == x);
                    } else {
                        let w = choose|w: int| 0 <= w < found@.take(k + 1).len() && #[trigger] found@.take(k + 1)[w] == a;
                        assert(found@.take(k as int)[w] == a);
                        assert(found@.take(k as int).contains(a));
                        assert(before.contains(a));
                        let v = choose|v: int| 0 <= v < before.len() && before[v] == a;
                        if v < i {
                            assert(out@[v] == a);
                        } else {
                            assert(out@[v + 1] == a);
                        }
                    }
                }
            }
        }
        k = k + 1;
    }
    assert(found@.take(found@.len() as int) =~= found@);
    out
}

/// The soft deadline of a discovery round, in milliseconds.
pub fn discovery_window_ms(response_ttl_ms: u64) -> (r: u64)
    ensures
        r == if response_ttl_ms >= 100 { response_ttl_ms } else { 100 },
{
    if response_ttl_ms >= 100 {
        response_ttl_ms
    } else {
        100
    }
}

/// Where probes go: the configured or overriding IPv4 broadcast address, else
/// the limited broadcast address 255.255.255.255.
pub fn probe_target(broadcast: Option<u32>, port: u16) -> (r: PeerAddr)
    ensures
        r.port == port,
        r.ip == IpAddress::V4(
            match broadcast {
                Some(b) => b,
                None => 0xffff_ffffu32,
            },
        ),
{
    let ip = match broadcast {
        Some(b) => b,
        None => 0xffff_ffffu32,
    };
    PeerAddr { ip: IpAddress::V4(ip), port }
}


proof fn lemma_dec_digits(n: nat)
    ensures
        dec_digits(n).len() > 0,
        all_digits(dec_digits(n)),
        dec_value(dec_digits(n)) == n,
    decreases n,
{
    if n >= 10 {
        lemma_dec_digits(n / 10);
        let d = dec_digits(n);
        assert(d.drop_last() =~= dec_digits(n / 10));
        assert(d.last() == (48 + n % 10) as u8);
        assert((d.last() - 48) as nat == n % 10);
        assert(dec_value(d) == dec_value(d.drop_last()) * 10 + (d.last() - 48) as nat);
        assert(n == (n / 10) * 10 + n % 10) by (nonlinear_arith);
        assert forall|i: int| 0 <= i < d.len() implies is_digit(#[trigger] d[i]) by {
            if i < d.len() - 1 {
                assert(d[i] == dec_digits(n / 10)[i]);
            }
        }
    } else {
        let d = dec_digits(n);
        assert(d.drop_last() =~= Seq::<u8>::empty());
        assert(dec_value(d) == dec_value(d.drop_last()) * 10 + (d.last() - 48) as nat);
    }
}

/// The port a responder writes into its reply reads back as the same port.
pub proof fn lemma_port_round_trip(port: u16)
    ensures
        spec_parse_port(dec_digits(port as nat)) == Some(port),
{
    lemma_dec_digits(port as nat);
    assert(is_digit(dec_digits(port as nat)[0]));
}


proof fn lemma_ascii_valid(b: Seq<u8>)
    requires
        forall|i: int| 0 <= i < b.len() ==> b[i] < 128,
    ensures
        valid_utf8(b),
{
    let c = Seq::new(b.len(), |i: int| b[i] as char);
    assert forall|i: int| 0 <= i < c.len() implies (#[trigger] c[i]) as u8 == b[i] by {
        let x = b[i];
        assert((x as char) as u8 == x);
    }
    assert(is_ascii_chars(c));
    is_ascii_chars_encode_utf8(c);
    assert(encode_utf8(c) =~= b);
    encode_utf8_valid_utf8(c);
}

/// A responder's reply, received from `ip`, yields that address with the
/// responder's port, whenever the magic holds no `:`.
pub proof fn lemma_reply_round_trip(magic: Seq<char>, port: u16, ip: IpAddress)
    requires
        forall|i: int| 0 <= i < encode_utf8(magic).len() ==> encode_utf8(magic)[i] != COLON,
    ensures
        spec_parse_reply(spec_reply(encode_utf8(magic), port), ip) == Some(PeerAddr { ip, port }),
{
    let m = encode_utf8(magic);
    let digits = dec_digits(port as nat);
    let tail = seq![COLON] + digits;
    let r = spec_reply(m, port);
    lemma_dec_digits(port as nat);
    assert(r =~= m + tail);
    assert forall|i: int| 0 <= i < tail.len() implies tail[i] < 128 by {
        if i > 0 {
            assert(tail[i] == digits[i - 1]);
            assert(is_digit(digits[i - 1]));
        }
    }
    lemma_ascii_valid(tail);
    encode_utf8_valid_utf8(magic);
    valid_utf8_concat(m, tail);
    let k = m.len() as int;
    assert(colon_at(r, k));
    let c = choose|i: int| colon_at(r, i);
    assert(c == k) by {
        if c < k {
            assert(r[c] == m[c]);
        } else if c > k {
            assert(r[k] == COLON);
        }
    }
    assert(r.skip(k + 1) =~= digits);
    lemma_port_round_trip(port);
}


/// A responder's answer to one datagram: the reply `"{magic}:{port}"` for a
/// probe, nothing for anything else.
pub fn respond_to_datagram(payload: &[u8], magic: &str, port: u16) -> (r: Option<Vec<u8>>)
    ensures
        spec_is_probe(payload@, magic.spec_bytes()) ==> (r matches Some(v) && v@ == spec_reply(
            magic.spec_bytes(),
            port,
        )),
        !spec_is_probe(payload@, magic.spec_bytes()) ==> r is None,
{
    if is_probe(payload, magic) {
        Some(discovery_reply(magic, port))
    } else {
        None
    }
}

/// When every reply gathered names the same peer, however often it came,
/// the discovered list is exactly that peer.
pub proof fn lemma_single_responder(found: Seq<PeerAddr>, a: PeerAddr, r: Seq<PeerAddr>)
    requires
        found.len() > 0,
        forall|i: int| 0 <= i < found.len() ==> found[i] == a,
        strictly_sorted(r),
        forall|x: PeerAddr| r.contains(x) <==> found.contains(x),
    ensures
        r == seq![a],
{
    assert(found.contains(found[0]));
    assert(r.contains(a));
    let k = choose|k: int| 0 <= k < r.len() && r[k] == a;
    assert forall|i: int| 0 <= i < r.len() implies r[i] == a by {
        assert(r.contains(r[i]));
        let j = choose|j: int| 0 <= j < found.len() && found[j] == r[i];
    }
    if r.len() > 1 {
        assert(addr_lt(r[0], r[1]));
        lemma_addr_lt_order(a, a, a);
    }
    assert(r =~= seq![a]);
}

} // verus!
