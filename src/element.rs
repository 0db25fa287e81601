//! Conversion between flat element vectors and big-endian byte strings, one
//! function per element type, sequential and on a rayon pool.
use vstd::prelude::*;
use rayon::ThreadPool;
use rayon::iter::{IntoParallelRefIterator, ParallelIterator};
use crate::bytes::{
    be_bytes, be_stream, be_value, be_words, lemma_be_bytes_len, read_be_u16, read_be_u32,
    read_be_u64, u16_be_bytes, u32_be_bytes, u64_be_bytes,
};

verus! {

#[verifier::external_type_specification]
#[verifier::external_body]
pub struct ExThreadPool(ThreadPool);

/// The bit pattern of an element, read as an unsigned number: the value an
/// element of this width stores on disk.
pub open spec fn word_u8(x: u8) -> nat {
    x as nat
}

pub open spec fn word_i16(x: i16) -> nat {
    (x as u16) as nat
}

pub open spec fn word_i32(x: i32) -> nat {
    (x as u32) as nat
}

pub open spec fn word_u32(x: u32) -> nat {
    x as nat
}

pub open spec fn word_u64(x: u64) -> nat {
    x as nat
}

pub open spec fn words_u8(v: Seq<u8>) -> Seq<nat> {
    v.map_values(|x: u8| word_u8(x))
}

pub open spec fn words_i16(v: Seq<i16>) -> Seq<nat> {
    v.map_values(|x: i16| word_i16(x))
}

pub open spec fn words_i32(v: Seq<i32>) -> Seq<nat> {
    v.map_values(|x: i32| word_i32(x))
}

pub open spec fn words_u32(v: Seq<u32>) -> Seq<nat> {
    v.map_values(|x: u32| word_u32(x))
}

pub open spec fn words_u64(v: Seq<u64>) -> Seq<nat> {
    v.map_values(|x: u64| word_u64(x))
}

/// Appending one more word to the encoded prefix of `ws`.
proof fn lemma_stream_step(ws: Seq<nat>, i: int, n: nat)
    requires
        0 <= i < ws.len(),
    ensures
        be_stream(ws.take(i + 1), n) == be_stream(ws.take(i), n) + be_bytes(ws[i], n),
{
    assert(ws.take(i + 1).drop_last() =~= ws.take(i));
}

/// The single byte of a `u8`.
pub fn u8_bytes(x: u8) -> (r: Vec<u8>)
    ensures
        r@ == be_bytes(word_u8(x), 1),
{
    let r = vec![x];
    assert(be_bytes(0, 0) =~= Seq::<u8>::empty());
    assert(r@ =~= be_bytes(word_u8(x), 1));
    r
}

/// The two bytes of an `i16` in two's complement, most significant first.
pub fn i16_bytes(x: i16) -> (r: Vec<u8>)
    ensures
        r@ == be_bytes(word_i16(x), 2),
{
    u16_be_bytes(x as u16)
}

/// The four bytes of an `i32` in two's complement, most significant first.
pub fn i32_bytes(x: i32) -> (r: Vec<u8>)
    ensures
        r@ == be_bytes(word_i32(x), 4),
{
    u32_be_bytes(x as u32)
}

/// The four bytes of a `u32`, most significant first.
pub fn u32_bytes(x: u32) -> (r: Vec<u8>)
    ensures
        r@ == be_bytes(word_u32(x), 4),
{
    u32_be_bytes(x)
}

/// The eight bytes of a `u64`, most significant first.
pub fn u64_bytes(x: u64) -> (r: Vec<u8>)
    ensures
        r@ == be_bytes(word_u64(x), 8),
{
    u64_be_bytes(x)
}

/// A byte string read as one-byte words is the string itself.
pub proof fn lemma_bytes_as_u8_words(raw: Seq<u8>)
    ensures
        be_words(raw, 1) == words_u8(raw),
{
    assert forall|i: int| 0 <= i < raw.len() implies #[trigger] be_words(raw, 1)[i] == words_u8(
        raw,
    )[i] by {
        let s = raw.subrange(i, i + 1);
        assert(s.drop_last() =~= Seq::<u8>::empty());
        assert(be_value(Seq::<u8>::empty()) == 0);
    }
    assert(be_words(raw, 1) =~= words_u8(raw));
}

/// `raw` read as consecutive big-endian `i16` values.
pub fn decode_i16(raw: &Vec<u8>) -> (r: Vec<i16>)
    ensures
        words_i16(r@) == be_words(raw@, 2),
{
    let n = raw.len() / 2;
    let mut v: Vec<i16> = Vec::with_capacity(n);
    let mut i: usize = 0;
    while i < n
        invariant
            n == raw@.len() / 2,
            raw@.len() <= usize::MAX,
            i <= n,
            v@.len() == i,
            forall|j: int|
                0 <= j < i ==> #[trigger] word_i16(v@[j]) == be_value(raw@.subrange(j * 2, j * 2 + 2)),
        decreases n - i,
    {
        assert(2 * i + 2 <= raw@.len()) by {
            vstd::arithmetic::div_mod::lemma_fundamental_div_mod(raw@.len() as int, 2);
        }
        let w = read_be_u16(raw.as_slice(), 2 * i);
        let x = #[verifier::truncate] (w as i16);
        assert(x as u16 == w) by (bit_vector)
            requires
                x == w as i16,
        ;
        v.push(x);
        i = i + 1;
    }
    assert(words_i16(v@) =~= be_words(raw@, 2));
    v
}

/// `raw` read as consecutive big-endian `i32` values.
pub fn decode_i32(raw: &Vec<u8>) -> (r: Vec<i32>)
    ensures
        words_i32(r@) == be_words(raw@, 4),
{
    let n = raw.len() / 4;
    let mut v: Vec<i32> = Vec::with_capacity(n);
    let mut i: usize = 0;
    while i < n
        invariant
            n == raw@.len() / 4,
            raw@.len() <= usize::MAX,
            i <= n,
            v@.len() == i,
            forall|j: int|
                0 <= j < i ==> #[trigger] word_i32(v@[j]) == be_value(raw@.subrange(j * 4, j * 4 + 4)),
        decreases n - i,
    {
        assert(4 * i + 4 <= raw@.len()) by {
            vstd::arithmetic::div_mod::lemma_fundamental_div_mod(raw@.len() as int, 4);
        }
        let w = read_be_u32(raw.as_slice(), 4 * i);
        let x = #[verifier::truncate] (w as i32);
        assert(x as u32 == w) by (bit_vector)
            requires
                x == w as i32,
        ;
        v.push(x);
        i = i + 1;
    }
    assert(words_i32(v@) =~= be_words(raw@, 4));
    v
}

/// `raw` read as consecutive big-endian `u32` values.
pub fn decode_u32(raw: &Vec<u8>) -> (r: Vec<u32>)
    ensures
        words_u32(r@) == be_words(raw@, 4),
{
    let n = raw.len() / 4;
    let mut v: Vec<u32> = Vec::with_capacity(n);
    let mut i: usize = 0;
    while i < n
        invariant
            n == raw@.len() / 4,
            raw@.len() <= usize::MAX,
            i <= n,
            v@.len() == i,
            forall|j: int|
                0 <= j < i ==> #[trigger] word_u32(v@[j]) == be_value(raw@.subrange(j * 4, j * 4 + 4)),
        decreases n - i,
    {
        assert(4 * i + 4 <= raw@.len()) by {
            vstd::arithmetic::div_mod::lemma_fundamental_div_mod(raw@.len() as int, 4);
        }
        let w = read_be_u32(raw.as_slice(), 4 * i);
        let x = #[verifier::truncate] (w as u32);
        assert(x as u32 == w) by (bit_vector)
            requires
                x == w as u32,
        ;
        v.push(x);
        i = i + 1;
    }
    assert(words_u32(v@) =~= be_words(raw@, 4));
    v
}

/// `raw` read as consecutive big-endian `u64` values.
pub fn decode_u64(raw: &Vec<u8>) -> (r: Vec<u64>)
    ensures
        words_u64(r@) == be_words(raw@, 8),
{
    let n = raw.len() / 8;
    let mut v: Vec<u64> = Vec::with_capacity(n);
    let mut i: usize = 0;
    while i < n
        invariant
            n == raw@.len() / 8,
            raw@.len() <= usize::MAX,
            i <= n,
            v@.len() == i,
            forall|j: int|
                0 <= j < i ==> #[trigger] word_u64(v@[j]) == be_value(raw@.subrange(j * 8, j * 8 + 8)),
        decreases n - i,
    {
        assert(8 * i + 8 <= raw@.len()) by {
            vstd::arithmetic::div_mod::lemma_fundamental_div_mod(raw@.len() as int, 8);
        }
        let w = read_be_u64(raw.as_slice(), 8 * i);
        let x = #[verifier::truncate] (w as u64);
        assert(x as u64 == w) by (bit_vector)
            requires
                x == w as u64,
        ;
        v.push(x);
        i = i + 1;
    }
    assert(words_u64(v@) =~= be_words(raw@, 8));
    v
}

/// Appends the big-endian encoding of each element of `v` to `out`, in order.
pub fn encode_u8(v: &Vec<u8>, out: &mut Vec<u8>)
    ensures
        final(out)@ == old(out)@ + be_stream(words_u8(v@), 1),
{
    let ghost ws = words_u8(v@);
    let ghost start = out@;
    let mut i: usize = 0;
    while i < v.len()
        invariant
            i <= v@.len(),
            ws == words_u8(v@),
            out@ == start + be_stream(ws.take(i as int), 1),
        decreases v@.len() - i,
    {
        let mut b = u8_bytes(v[i]);
        proof {
            lemma_stream_step(ws, i as int, 1);
        }
        out.append(&mut b);
        i = i + 1;
        assert(out@ =~= start + be_stream(ws.take(i as int), 1));
    }
    assert(ws.take(v@.len() as int) =~= ws);
}

/// Relies on rayon: `ThreadPool::install` runs the work on `pool`, and
/// `par_iter` flattened with `flat_map_iter` and collected into a `Vec` keeps
/// the elements' order.
#[verifier::external_body]
pub(crate) fn par_encode_u8(pool: &ThreadPool, v: &Vec<u8>) -> (r: Vec<u8>)
    ensures
        r@ == be_stream(words_u8(v@), 1),
{
    pool.install(|| v.par_iter().flat_map_iter(|&x| u8_bytes(x)).collect())
}

/// Appends the big-endian encoding of each element of `v` to `out`, in order.
pub fn encode_i16(v: &Vec<i16>, out: &mut Vec<u8>)
    ensures
        final(out)@ == old(out)@ + be_stream(words_i16(v@), 2),
{
    let ghost ws = words_i16(v@);
    let ghost start = out@;
    let mut i: usize = 0;
    while i < v.len()
        invariant
            i <= v@.len(),
            ws == words_i16(v@),
            out@ == start + be_stream(ws.take(i as int), 2),
        decreases v@.len() - i,
    {
        let mut b = i16_bytes(v[i]);
        proof {
            lemma_stream_step(ws, i as int, 2);
        }
        out.append(&mut b);
        i = i + 1;
        assert(out@ =~= start + be_stream(ws.take(i as int), 2));
    }
    assert(ws.take(v@.len() as int) =~= ws);
}

/// Relies on rayon: `ThreadPool::install` runs the work on `pool`, and
/// `par_iter` flattened with `flat_map_iter` and collected into a `Vec` keeps
/// the elements' order.
#[verifier::external_body]
pub(crate) fn par_encode_i16(pool: &ThreadPool, v: &Vec<i16>) -> (r: Vec<u8>)
    ensures
        r@ == be_stream(words_i16(v@), 2),
{
    pool.install(|| v.par_iter().flat_map_iter(|&x| i16_bytes(x)).collect())
}

/// Appends the big-endian encoding of each element of `v` to `out`, in order.
pub fn encode_i32(v: &Vec<i32>, out: &mut Vec<u8>)
    ensures
        final(out)@ == old(out)@ + be_stream(words_i32(v@), 4),
{
    let ghost ws = words_i32(v@);
    let ghost start = out@;
    let mut i: usize = 0;
    while i < v.len()
        invariant
            i <= v@.len(),
            ws == words_i32(v@),
            out@ == start + be_stream(ws.take(i as int), 4),
        decreases v@.len() - i,
    {
        let mut b = i32_bytes(v[i]);
        proof {
            lemma_stream_step(ws, i as int, 4);
        }
        out.append(&mut b);
        i = i + 1;
        assert(out@ =~= start + be_stream(ws.take(i as int), 4));
    }
    assert(ws.take(v@.len() as int) =~= ws);
}

/// Relies on rayon: `ThreadPool::install` runs the work on `pool`, and
/// `par_iter` flattened with `flat_map_iter` and collected into a `Vec` keeps
/// the elements' order.
#[verifier::external_body]
pub(crate) fn par_encode_i32(pool: &ThreadPool, v: &Vec<i32>) -> (r: Vec<u8>)
    ensures
        r@ == be_stream(words_i32(v@), 4),
{
    pool.install(|| v.par_iter().flat_map_iter(|&x| i32_bytes(x)).collect())
}

/// Appends the big-endian encoding of each element of `v` to `out`, in order.
pub fn encode_u32(v: &Vec<u32>, out: &mut Vec<u8>)
    ensures
        final(out)@ == old(out)@ + be_stream(words_u32(v@), 4),
{
    let ghost ws = words_u32(v@);
    let ghost start = out@;
    let mut i: usize = 0;
    while i < v.len()
        invariant
            i <= v@.len(),
            ws == words_u32(v@),
            out@ == start + be_stream(ws.take(i as int), 4),
        decreases v@.len() - i,
    {
        let mut b = u32_bytes(v[i]);
        proof {
            lemma_stream_step(ws, i as int, 4);
        }
        out.append(&mut b);
        i = i + 1;
        assert(out@ =~= start + be_stream(ws.take(i as int), 4));
    }
    assert(ws.take(v@.len() as int) =~= ws);
}

/// Relies on rayon: `ThreadPool::install` runs the work on `pool`, and
/// `par_iter` flattened with `flat_map_iter` and collected into a `Vec` keeps
/// the elements' order.
#[verifier::external_body]
pub(crate) fn par_encode_u32(pool: &ThreadPool, v: &Vec<u32>) -> (r: Vec<u8>)
    ensures
        r@ == be_stream(words_u32(v@), 4),
{
    pool.install(|| v.par_iter().flat_map_iter(|&x| u32_bytes(x)).collect())
}

/// Appends the big-endian encoding of each element of `v` to `out`, in order.
pub fn encode_u64(v: &Vec<u64>, out: &mut Vec<u8>)
    ensures
        final(out)@ == old(out)@ + be_stream(words_u64(v@), 8),
{
    let ghost ws = words_u64(v@);
    let ghost start = out@;
    let mut i: usize = 0;
    while i < v.len()
        invariant
            i <= v@.len(),
            ws == words_u64(v@),
            out@ == start + be_stream(ws.take(i as int), 8),
        decreases v@.len() - i,
    {
        let mut b = u64_bytes(v[i]);
        proof {
            lemma_stream_step(ws, i as int, 8);
        }
        out.append(&mut b);
        i = i + 1;
        assert(out@ =~= start + be_stream(ws.take(i as int), 8));
    }
    assert(ws.take(v@.len() as int) =~= ws);
}

/// Relies on rayon: `ThreadPool::install` runs the work on `pool`, and
/// `par_iter` flattened with `flat_map_iter` and collected into a `Vec` keeps
/// the elements' order.
#[verifier::external_body]
pub(crate) fn par_encode_u64(pool: &ThreadPool, v: &Vec<u64>) -> (r: Vec<u8>)
    ensures
        r@ == be_stream(words_u64(v@), 8),
{
    pool.install(|| v.par_iter().flat_map_iter(|&x| u64_bytes(x)).collect())
}

} // verus!
