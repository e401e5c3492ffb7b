//! Field encodings of the payload format: the spec encoders, their parsers,
//! the executable readers and writers, and the lemmas that tie them together.
use crate::bytes::{append_bytes, copy_range, le64, lemma_le64};
use vstd::bytes::*;
use vstd::prelude::*;
use vstd::slice::slice_subrange;
use vstd::utf8::*;

verus! {

broadcast use {encode_utf8_valid_utf8, encode_utf8_decode_utf8};

pub open spec fn enc_u64(x: u64) -> Seq<u8> {
    le64(x)
}

pub open spec fn enc_i64(x: i64) -> Seq<u8> {
    le64(x as u64)
}

pub open spec fn enc_bool(b: bool) -> Seq<u8> {
    seq![if b { 1u8 } else { 0u8 }]
}

/// A byte string: its length as a `u64`, then its bytes.
pub open spec fn enc_bytes(b: Seq<u8>) -> Seq<u8> {
    le64(b.len() as u64) + b
}

/// A text: the length-prefixed UTF-8 encoding of its characters.
pub open spec fn enc_str(c: Seq<char>) -> Seq<u8> {
    enc_bytes(encode_utf8(c))
}

pub open spec fn enc_opt_str(o: Option<Seq<char>>) -> Seq<u8> {
    match o {
        None => seq![0u8],
        Some(c) => seq![1u8] + enc_str(c),
    }
}

/// What a parser yields: the value read and the bytes after it.
pub type Parsed<T> = Option<(T, Seq<u8>)>;

pub open spec fn parse_u64(s: Seq<u8>) -> Parsed<u64> {
    if s.len() >= 8 {
        Some((spec_u64_from_le_bytes(s.take(8)), s.skip(8)))
    } else {
        None
    }
}

pub open spec fn parse_i64(s: Seq<u8>) -> Parsed<i64> {
    match parse_u64(s) {
        Some((x, r)) => Some((x as i64, r)),
        None => None,
    }
}

pub open spec fn parse_bool(s: Seq<u8>) -> Parsed<bool> {
    if s.len() >= 1 && s[0] <= 1 {
        Some((s[0] == 1, s.skip(1)))
    } else {
        None
    }
}

pub open spec fn parse_fixed(s: Seq<u8>, n: nat) -> Parsed<Seq<u8>> {
    if s.len() >= n {
        Some((s.take(n as int), s.skip(n as int)))
    } else {
        None
    }
}

pub open spec fn parse_bytes(s: Seq<u8>) -> Parsed<Seq<u8>> {
    match parse_u64(s) {
        Some((n, r)) => parse_fixed(r, n as nat),
        None => None,
    }
}

pub open spec fn parse_str(s: Seq<u8>) -> Parsed<Seq<char>> {
    match parse_bytes(s) {
        Some((b, r)) => if valid_utf8(b) {
            Some((decode_utf8(b), r))
        } else {
            None
        },
        None => None,
    }
}

pub open spec fn parse_opt_str(s: Seq<u8>) -> Parsed<Option<Seq<char>>> {
    if s.len() >= 1 && s[0] == 0 {
        Some((None, s.skip(1)))
    } else if s.len() >= 1 && s[0] == 1 {
        match parse_str(s.skip(1)) {
            Some((c, r)) => Some((Some(c), r)),
            None => None,
        }
    } else {
        None
    }
}

pub proof fn lemma_u64(x: u64, rest: Seq<u8>)
    ensures
        parse_u64(enc_u64(x) + rest) == Some((x, rest)),
{
    lemma_le64(x);
    let s = enc_u64(x) + rest;
    assert(s.take(8) =~= le64(x));
    assert(s.skip(8) =~= rest);
}

pub proof fn lemma_i64(x: i64, rest: Seq<u8>)
    ensures
        parse_i64(enc_i64(x) + rest) == Some((x, rest)),
{
    lemma_u64(x as u64, rest);
    assert((x as u64) as i64 == x) by (bit_vector);
}

pub proof fn lemma_bool(b: bool, rest: Seq<u8>)
    ensures
        parse_bool(enc_bool(b) + rest) == Some((b, rest)),
{
    assert((enc_bool(b) + rest).skip(1) =~= rest);
}

pub proof fn lemma_fixed(b: Seq<u8>, rest: Seq<u8>)
    ensures
        parse_fixed(b + rest, b.len()) == Some((b, rest)),
{
    assert((b + rest).take(b.len() as int) =~= b);
    assert((b + rest).skip(b.len() as int) =~= rest);
}

pub proof fn lemma_bytes(b: Seq<u8>, rest: Seq<u8>)
    requires
        b.len() <= u64::MAX,
    ensures
        parse_bytes(enc_bytes(b) + rest) == Some((b, rest)),
{
    lemma_u64(b.len() as u64, b + rest);
    assert(enc_bytes(b) + rest =~= enc_u64(b.len() as u64) + (b + rest));
    lemma_fixed(b, rest);
}

pub proof fn lemma_str(c: Seq<char>, rest: Seq<u8>)
    requires
        encode_utf8(c).len() <= u64::MAX,
    ensures
        parse_str(enc_str(c) + rest) == Some((c, rest)),
{
    lemma_bytes(encode_utf8(c), rest);
}

pub proof fn lemma_opt_str(o: Option<Seq<char>>, rest: Seq<u8>)
    requires
        o matches Some(c) ==> encode_utf8(c).len() <= u64::MAX,
    ensures
        parse_opt_str(enc_opt_str(o) + rest) == Some((o, rest)),
{
    match o {
        None => {
            assert((enc_opt_str(o) + rest).skip(1) =~= rest);
        },
        Some(c) => {
            lemma_str(c, rest);
            assert((enc_opt_str(o) + rest).skip(1) =~= enc_str(c) + rest);
        },
    }
}

/// Relies on `String::from_utf8`: it accepts exactly the valid UTF-8 byte
/// strings and yields the characters they encode.
#[verifier::external_body]
pub(crate) fn utf8_string(bytes: Vec<u8>) -> (r: Option<String>)
    ensures
        r is Some <==> valid_utf8(bytes@),
        r matches Some(s) ==> s@ == decode_utf8(bytes@),
{
    String::from_utf8(bytes).ok()
}

pub fn put_u64(out: &mut Vec<u8>, x: u64)
    ensures
        final(out)@ == old(out)@ + enc_u64(x),
{
    let b = u64_to_le_bytes(x);
    append_bytes(out, b.as_slice());
}

pub fn put_i64(out: &mut Vec<u8>, x: i64)
    ensures
        final(out)@ == old(out)@ + enc_i64(x),
{
    put_u64(out, x as u64);
}

pub fn put_bool(out: &mut Vec<u8>, b: bool)
    ensures
        final(out)@ == old(out)@ + enc_bool(b),
{
    out.push(if b { 1u8 } else { 0u8 });
}

pub fn put_bytes(out: &mut Vec<u8>, b: &[u8])
    ensures
        final(out)@ == old(out)@ + enc_bytes(b@),
        b@.len() <= u64::MAX,
{
    put_u64(out, b.len() as u64);
    append_bytes(out, b);
    assert(final(out)@ =~= old(out)@ + enc_bytes(b@));
}

pub fn put_str(out: &mut Vec<u8>, s: &String)
    ensures
        final(out)@ == old(out)@ + enc_str(s@),
        encode_utf8(s@).len() <= u64::MAX,
{
    let b = s.as_str().as_bytes();
    put_bytes(out, b);
}

pub fn put_opt_str(out: &mut Vec<u8>, o: &Option<String>)
    ensures
        final(out)@ == old(out)@ + enc_opt_str(opt_view(o)),
        opt_view(o) matches Some(c) ==> encode_utf8(c).len() <= u64::MAX,
{
    match o {
        None => {
            out.push(0u8);
        },
        Some(s) => {
            out.push(1u8);
            put_str(out, s);
            assert(final(out)@ =~= old(out)@ + enc_opt_str(opt_view(o)));
        },
    }
}

pub open spec fn opt_view(o: &Option<String>) -> Option<Seq<char>> {
    match o {
        Some(s) => Some(s@),
        None => None,
    }
}

/// Copies a vector of exactly `N` bytes into an array.
pub fn to_array<const N: usize>(v: &Vec<u8>) -> (r: [u8; N])
    requires
        v@.len() == N,
    ensures
        r@ == v@,
{
    let mut r: [u8; N] = [0u8; N];
    let mut i: usize = 0;
    while i < N
        invariant
            v@.len() == N,
            r@.len() == N,
            i <= N,
            forall|j: int| 0 <= j < i ==> r@[j] == v@[j],
        decreases N - i,
    {
        r[i] = v[i];
        i = i + 1;
    }
    assert(r@ =~= v@);
    r
}

/// A reader's result: the value and the position after it, which matches the
/// spec parser on the bytes from `pos` on.
pub open spec fn reads<T>(b: Seq<u8>, pos: usize, spec: Parsed<T>, r: Option<(T, usize)>) -> bool {
    &&& r is Some <==> spec is Some
    &&& r matches Some((v, p)) ==> p <= b.len() && spec == Some((v, b.skip(p as int)))
}

pub fn get_u64(b: &[u8], pos: usize) -> (r: Option<(u64, usize)>)
    requires
        pos <= b@.len(),
    ensures
        reads(b@, pos, parse_u64(b@.skip(pos as int)), r),
{
    if b.len() - pos < 8 {
        return None;
    }
    let s = slice_subrange(b, pos, pos + 8);
    let x = u64_from_le_bytes(s);
    assert(s@ =~= b@.skip(pos as int).take(8));
    assert(b@.skip(pos as int).skip(8) =~= b@.skip(pos + 8));
    Some((x, pos + 8))
}

pub fn get_i64(b: &[u8], pos: usize) -> (r: Option<(i64, usize)>)
    requires
        pos <= b@.len(),
    ensures
        reads(b@, pos, parse_i64(b@.skip(pos as int)), r),
{
    match get_u64(b, pos) {
        Some((x, p)) => Some((x as i64, p)),
        None => None,
    }
}

pub fn get_bool(b: &[u8], pos: usize) -> (r: Option<(bool, usize)>)
    requires
        pos <= b@.len(),
    ensures
        reads(b@, pos, parse_bool(b@.skip(pos as int)), r),
{
    if pos < b.len() && b[pos] <= 1 {
        assert(b@.skip(pos as int).skip(1) =~= b@.skip(pos + 1));
        Some((b[pos] == 1, pos + 1))
    } else {
        None
    }
}

pub fn get_fixed(b: &[u8], pos: usize, n: usize) -> (r: Option<(Vec<u8>, usize)>)
    requires
        pos <= b@.len(),
    ensures
        r is Some <==> parse_fixed(b@.skip(pos as int), n as nat) is Some,
        r matches Some((v, p)) ==> p <= b@.len() && parse_fixed(b@.skip(pos as int), n as nat)
            == Some((v@, b@.skip(p as int))),
{
    if b.len() - pos < n {
        return None;
    }
    let v = copy_range(b, pos, pos + n);
    assert(v@ =~= b@.skip(pos as int).take(n as int));
    assert(b@.skip(pos as int).skip(n as int) =~= b@.skip(pos + n));
    Some((v, pos + n))
}

pub fn get_bytes(b: &[u8], pos: usize) -> (r: Option<(Vec<u8>, usize)>)
    requires
        pos <= b@.len(),
    ensures
        r is Some <==> parse_bytes(b@.skip(pos as int)) is Some,
        r matches Some((v, p)) ==> p <= b@.len() && parse_bytes(b@.skip(pos as int)) == Some(
            (v@, b@.skip(p as int)),
        ),
{
    match get_u64(b, pos) {
        Some((n, p)) => {
            if (b.len() - p) as u64 >= n {
                get_fixed(b, p, n as usize)
            } else {
                None
            }
        },
        None => None,
    }
}

pub fn get_str(b: &[u8], pos: usize) -> (r: Option<(String, usize)>)
    requires
        pos <= b@.len(),
    ensures
        r is Some <==> parse_str(b@.skip(pos as int)) is Some,
        r matches Some((s, p)) ==> p <= b@.len() && parse_str(b@.skip(pos as int)) == Some(
            (s@, b@.skip(p as int)),
        ),
{
    match get_bytes(b, pos) {
        Some((v, p)) => match utf8_string(v) {
            Some(s) => Some((s, p)),
            None => None,
        },
        None => None,
    }
}

pub fn get_opt_str(b: &[u8], pos: usize) -> (r: Option<(Option<String>, usize)>)
    requires
        pos <= b@.len(),
    ensures
        r is Some <==> parse_opt_str(b@.skip(pos as int)) is Some,
        r matches Some((o, p)) ==> p <= b@.len() && parse_opt_str(b@.skip(pos as int)) == Some(
            (opt_view(&o), b@.skip(p as int)),
        ),
{
    if pos < b.len() && b[pos] == 0 {
        assert(b@.skip(pos as int).skip(1) =~= b@.skip(pos + 1));
        Some((None, pos + 1))
    } else if pos < b.len() && b[pos] == 1 {
        assert(b@.skip(pos as int).skip(1) =~= b@.skip(pos + 1));
        match get_str(b, pos + 1) {
            Some((s, p)) => Some((Some(s), p)),
            None => None,
        }
    } else {
        None
    }
}

} // verus!
