//! The image buffer: one shaped array of one of five element types, decoded
//! from its big-endian payload and encoded back with record padding.
use vstd::prelude::*;
use rayon::ThreadPool;
use crate::array::{
    NdArray, dims_i16, dims_i32, dims_u32, dims_u64, dims_u8, elems_i16, elems_i32, elems_u32,
    elems_u64, elems_u8, from_shape_vec_i16, from_shape_vec_i32, from_shape_vec_u32,
    from_shape_vec_u64, from_shape_vec_u8, nonzero_product, product, shape_accepts, shape_i16,
    shape_i32, shape_u32, shape_u64, shape_u8, to_vec_i16, to_vec_i32, to_vec_u32, to_vec_u64,
    to_vec_u8,
};
use crate::bytes::{
    RECORD_LEN, be_stream, be_words, lemma_be_stream_layout, lemma_be_words_of_stream, pad_len,
    pad_to_record, padded, radix, zeros,
};
use crate::element::{
    decode_i16, decode_i32, decode_u32, decode_u64, encode_i16, encode_i32, encode_u32,
    encode_u64, encode_u8, lemma_bytes_as_u8_words, par_encode_i16, par_encode_i32,
    par_encode_u32, par_encode_u64, par_encode_u8, words_i16, words_i32, words_u32, words_u64,
    words_u8,
};

verus! {

/// The element type of an image, as declared by the header's BITPIX code.
/// Floating-point elements are held as their IEEE-754 bit patterns.
#[derive(Clone, Copy, Debug, PartialEq, Eq, Structural)]
pub enum DataType {
    U8,
    I16,
    I32,
    F32,
    F64,
}

/// Why an image could not be decoded.
#[derive(Clone, Copy, Debug, PartialEq, Eq, Structural)]
pub enum CodecError {
    /// The type code names none of the five element types.
    UnsupportedType,
    /// The payload length is not the element count of the shape times the
    /// element width, or the shape is too large for an array.
    ShapeMismatch,
}

/// The element type that a BITPIX code declares, if any.
pub open spec fn bitpix_type(code: i32) -> Option<DataType> {
    if code == 8 {
        Some(DataType::U8)
    } else if code == 16 {
        Some(DataType::I16)
    } else if code == 32 {
        Some(DataType::I32)
    } else if code == -32 {
        Some(DataType::F32)
    } else if code == -64 {
        Some(DataType::F64)
    } else {
        None
    }
}

/// Whether `len` payload bytes decode as an array of `shape` and type `t`.
pub open spec fn decodable(shape: Seq<usize>, t: DataType, len: nat) -> bool {
    &&& nonzero_product(shape) <= isize::MAX
    &&& product(shape) * t.width() == len
}

impl DataType {
    /// Bytes per element on disk.
    pub open spec fn width(self) -> nat {
        match self {
            DataType::U8 => 1,
            DataType::I16 => 2,
            DataType::I32 => 4,
            DataType::F32 => 4,
            DataType::F64 => 8,
        }
    }

    /// Bytes per element on disk.
    pub fn nbytes(&self) -> (r: usize)
        ensures
            r == self.width(),
    {
        match self {
            DataType::U8 => 1,
            DataType::I16 => 2,
            DataType::I32 => 4,
            DataType::F32 => 4,
            DataType::F64 => 8,
        }
    }

    /// The element type that a BITPIX code declares.
    pub fn from_bitpix(code: i32) -> (r: Option<DataType>)
        ensures
            r == bitpix_type(code),
    {
        if code == 8 {
            Some(DataType::U8)
        } else if code == 16 {
            Some(DataType::I16)
        } else if code == 32 {
            Some(DataType::I32)
        } else if code == -32 {
            Some(DataType::F32)
        } else if code == -64 {
            Some(DataType::F64)
        } else {
            None
        }
    }
}

/// The nonzero product of a prefix never exceeds that of the whole shape.
proof fn lemma_nonzero_product_prefix(shape: Seq<usize>, k: int)
    requires
        0 <= k <= shape.len(),
    ensures
        nonzero_product(shape.take(k)) <= nonzero_product(shape),
    decreases shape.len(),
{
    if k < shape.len() {
        let init = shape.drop_last();
        lemma_nonzero_product_prefix(init, k);
        assert(init.take(k) =~= shape.take(k));
        let p = nonzero_product(init);
        let d = shape.last();
        if d != 0 {
            assert(p <= p * d) by (nonlinear_arith)
                requires
                    d >= 1,
            ;
        }
    } else {
        assert(shape.take(k) =~= shape);
    }
}

/// Length in bytes of the payload of an array of `shape` and type `t`, or
/// `None` where the shape is too large for an array or the length for `usize`.
pub fn payload_len(shape: &Vec<usize>, t: DataType) -> (r: Option<usize>)
    ensures
        r is Some <==> nonzero_product(shape@) <= isize::MAX && product(shape@) * t.width()
            <= usize::MAX,
        r matches Some(n) ==> n == product(shape@) * t.width(),
{
    let mut nz: usize = 1;
    let mut has_zero = false;
    let mut i: usize = 0;
    while i < shape.len()
        invariant
            i <= shape@.len(),
            nz == nonzero_product(shape@.take(i as int)),
            nz <= isize::MAX,
            product(shape@.take(i as int)) == (if has_zero {
                0
            } else {
                nz as nat
            }),
        decreases shape@.len() - i,
    {
        let d = shape[i];
        let ghost pre = shape@.take(i as int);
        let ghost next = shape@.take(i + 1);
        assert(next.drop_last() =~= pre);
        if d != 0 {
            let m = nz.checked_mul(d);
            if m.is_none() || m.unwrap() > isize::MAX as usize {
                proof {
                    lemma_nonzero_product_prefix(shape@, i + 1);
                }
                return None;
            }
            nz = m.unwrap();
            if has_zero {
                assert(product(next) == 0 * d);
            }
        } else {
            assert(product(next) == product(pre) * 0);
            has_zero = true;
        }
        i = i + 1;
    }
    assert(shape@.take(shape@.len() as int) =~= shape@);
    let p: usize = if has_zero {
        0
    } else {
        nz
    };
    p.checked_mul(t.nbytes())
}

/// An image buffer: an element type and, for that type only, a shaped array.
///
/// A buffer made by [`Data::new`] holds no array yet.
pub struct Data {
    u8_array: Option<NdArray<u8>>,
    i16_array: Option<NdArray<i16>>,
    i32_array: Option<NdArray<i32>>,
    f32_array: Option<NdArray<u32>>,
    f64_array: Option<NdArray<u64>>,
    dtype: DataType,
}

impl Data {
    /// The active element type.
    pub closed spec fn kind(self) -> DataType {
        self.dtype
    }

    /// Whether the slot of element type `t` holds an array.
    pub closed spec fn populated(self, t: DataType) -> bool {
        match t {
            DataType::U8 => self.u8_array is Some,
            DataType::I16 => self.i16_array is Some,
            DataType::I32 => self.i32_array is Some,
            DataType::F32 => self.f32_array is Some,
            DataType::F64 => self.f64_array is Some,
        }
    }

    /// Whether the buffer holds an array.
    pub open spec fn has_array(self) -> bool {
        self.populated(self.kind())
    }

    /// The extents of the array, one per axis.
    pub closed spec fn dims(self) -> Seq<usize> {
        match self.dtype {
            DataType::U8 => match self.u8_array {
                Some(a) => dims_u8(a),
                None => Seq::empty(),
            },
            DataType::I16 => match self.i16_array {
                Some(a) => dims_i16(a),
                None => Seq::empty(),
            },
            DataType::I32 => match self.i32_array {
                Some(a) => dims_i32(a),
                None => Seq::empty(),
            },
            DataType::F32 => match self.f32_array {
                Some(a) => dims_u32(a),
                None => Seq::empty(),
            },
            DataType::F64 => match self.f64_array {
                Some(a) => dims_u64(a),
                None => Seq::empty(),
            },
        }
    }

    /// The elements of the array in row-major order, each as its bit pattern
    /// read as an unsigned number; empty when there is no array.
    pub closed spec fn words(self) -> Seq<nat> {
        match self.dtype {
            DataType::U8 => match self.u8_array {
                Some(a) => words_u8(elems_u8(a)),
                None => Seq::empty(),
            },
            DataType::I16 => match self.i16_array {
                Some(a) => words_i16(elems_i16(a)),
                None => Seq::empty(),
            },
            DataType::I32 => match self.i32_array {
                Some(a) => words_i32(elems_i32(a)),
                None => Seq::empty(),
            },
            DataType::F32 => match self.f32_array {
                Some(a) => words_u32(elems_u32(a)),
                None => Seq::empty(),
            },
            DataType::F64 => match self.f64_array {
                Some(a) => words_u64(elems_u64(a)),
                None => Seq::empty(),
            },
        }
    }

    /// The on-disk payload: each element in big-endian order, without padding.
    pub open spec fn payload(self) -> Seq<u8> {
        be_stream(self.words(), self.kind().width())
    }

    /// Only the active slot may hold an array, and an array's element count
    /// is the product of its extents, as `ndarray` demands.
    #[verifier::type_invariant]
    pub closed spec fn wf(self) -> bool {
        &&& forall|t: DataType| #[trigger] self.populated(t) ==> t == self.dtype
        &&& self.has_array() ==> shape_accepts(self.dims(), self.words().len())
    }

    /// An empty buffer: no array, element type `U8`.
    pub fn new() -> (r: Data)
        ensures
            r.kind() == DataType::U8,
            forall|t: DataType| !#[trigger] r.populated(t),
            r.payload() == Seq::<u8>::empty(),
    {
        Data {
            u8_array: None,
            i16_array: None,
            i32_array: None,
            f32_array: None,
            f64_array: None,
            dtype: DataType::U8,
        }
    }

    /// Decodes a payload of exactly `product(shape) * width` big-endian bytes
    /// into a buffer whose only array has type `dtype` and extents `shape`.
    pub fn image_buffer_to_ndarray(databuf: Vec<u8>, shape: Vec<usize>, dtype: DataType) -> (r:
        Result<Data, CodecError>)
        ensures
            r is Ok <==> decodable(shape@, dtype, databuf@.len()),
            r is Err ==> r == Err::<Data, CodecError>(CodecError::ShapeMismatch),
            r matches Ok(d) ==> {
                &&& d.kind() == dtype
                &&& forall|t: DataType| #[trigger] d.populated(t) <==> t == dtype
                &&& d.dims() == shape@
                &&& d.words() == be_words(databuf@, dtype.width())
            },
    {
        let len = databuf.len();
        let total = payload_len(&shape, dtype);
        if total.is_none() || total.unwrap() != len {
            return Err(CodecError::ShapeMismatch);
        }
        let ghost n = product(shape@);
        let ghost raw = databuf@;
        match dtype {
            DataType::U8 => {
                proof {
                    lemma_bytes_as_u8_words(raw);
                }
                match from_shape_vec_u8(shape, databuf) {
                    Ok(a) => {
                        Ok(Data { u8_array: Some(a), i16_array: None, i32_array: None, f32_array: None, f64_array: None, dtype })
                    },
                    Err(_) => {
                        return Err(CodecError::ShapeMismatch);
                    },
                }
            },
            DataType::I16 => {
                let v = decode_i16(&databuf);
                assert(v@.len() == n) by {
                    assert(words_i16(v@).len() == v@.len());
                    vstd::arithmetic::div_mod::lemma_div_by_multiple(n as int, 2);
                }
                match from_shape_vec_i16(shape, v) {
                    Ok(a) => {
                        Ok(Data { u8_array: None, i16_array: Some(a), i32_array: None, f32_array: None, f64_array: None, dtype })
                    },
                    Err(_) => {
                        return Err(CodecError::ShapeMismatch);
                    },
                }
            },
            DataType::I32 => {
                let v = decode_i32(&databuf);
                assert(v@.len() == n) by {
                    assert(words_i32(v@).len() == v@.len());
                    vstd::arithmetic::div_mod::lemma_div_by_multiple(n as int, 4);
                }
                match from_shape_vec_i32(shape, v) {
                    Ok(a) => {
                        Ok(Data { u8_array: None, i16_array: None, i32_array: Some(a), f32_array: None, f64_array: None, dtype })
                    },
                    Err(_) => {
                        return Err(CodecError::ShapeMismatch);
                    },
                }
            },
            DataType::F32 => {
                let v = decode_u32(&databuf);
                assert(v@.len() == n) by {
                    assert(words_u32(v@).len() == v@.len());
                    vstd::arithmetic::div_mod::lemma_div_by_multiple(n as int, 4);
                }
                match from_shape_vec_u32(shape, v) {
                    Ok(a) => {
                        Ok(Data { u8_array: None, i16_array: None, i32_array: None, f32_array: Some(a), f64_array: None, dtype })
                    },
                    Err(_) => {
                        return Err(CodecError::ShapeMismatch);
                    },
                }
            },
            DataType::F64 => {
                let v = decode_u64(&databuf);
                assert(v@.len() == n) by {
                    assert(words_u64(v@).len() == v@.len());
                    vstd::arithmetic::div_mod::lemma_div_by_multiple(n as int, 8);
                }
                match from_shape_vec_u64(shape, v) {
                    Ok(a) => {
                        Ok(Data { u8_array: None, i16_array: None, i32_array: None, f32_array: None, f64_array: Some(a), dtype })
                    },
                    Err(_) => {
                        return Err(CodecError::ShapeMismatch);
                    },
                }
            },
        }
    }

    /// The active element type.
    pub fn dtype(&self) -> (r: DataType)
        ensures
            r == self.kind(),
    {
        self.dtype
    }

    /// The extents of the array, one per axis, if the buffer holds one.
    pub fn shape(&self) -> (r: Option<Vec<usize>>)
        ensures
            r is Some <==> self.has_array(),
            r matches Some(s) ==> s@ == self.dims(),
    {
        match self.dtype {
            DataType::U8 => match &self.u8_array {
                Some(a) => Some(shape_u8(a)),
                None => None,
            },
            DataType::I16 => match &self.i16_array {
                Some(a) => Some(shape_i16(a)),
                None => None,
            },
            DataType::I32 => match &self.i32_array {
                Some(a) => Some(shape_i32(a)),
                None => None,
            },
            DataType::F32 => match &self.f32_array {
                Some(a) => Some(shape_u32(a)),
                None => None,
            },
            DataType::F64 => match &self.f64_array {
                Some(a) => Some(shape_u64(a)),
                None => None,
            },
        }
    }

    /// The `u8` elements in row-major order, if the buffer holds such an array.
    pub fn u8_values(&self) -> (r: Option<Vec<u8>>)
        ensures
            r is Some <==> self.populated(DataType::U8),
            r matches Some(v) ==> self.kind() == DataType::U8 && words_u8(v@) == self.words(),
    {
        proof {
            use_type_invariant(self);
        }
        match &self.u8_array {
            Some(a) => {
                assert(self.populated(DataType::U8));
                Some(to_vec_u8(a))
            },
            None => None,
        }
    }

    /// The `i16` elements in row-major order, if the buffer holds such an array.
    pub fn i16_values(&self) -> (r: Option<Vec<i16>>)
        ensures
            r is Some <==> self.populated(DataType::I16),
            r matches Some(v) ==> self.kind() == DataType::I16 && words_i16(v@) == self.words(),
    {
        proof {
            use_type_invariant(self);
        }
        match &self.i16_array {
            Some(a) => {
                assert(self.populated(DataType::I16));
                Some(to_vec_i16(a))
            },
            None => None,
        }
    }

    /// The `i32` elements in row-major order, if the buffer holds such an array.
    pub fn i32_values(&self) -> (r: Option<Vec<i32>>)
        ensures
            r is Some <==> self.populated(DataType::I32),
            r matches Some(v) ==> self.kind() == DataType::I32 && words_i32(v@) == self.words(),
    {
        proof {
            use_type_invariant(self);
        }
        match &self.i32_array {
            Some(a) => {
                assert(self.populated(DataType::I32));
                Some(to_vec_i32(a))
            },
            None => None,
        }
    }

    /// The bit patterns of the `f32` elements in row-major order, if the buffer holds such an array.
    pub fn f32_bits(&self) -> (r: Option<Vec<u32>>)
        ensures
            r is Some <==> self.populated(DataType::F32),
            r matches Some(v) ==> self.kind() == DataType::F32 && words_u32(v@) == self.words(),
    {
        proof {
            use_type_invariant(self);
        }
        match &self.f32_array {
            Some(a) => {
                assert(self.populated(DataType::F32));
                Some(to_vec_u32(a))
            },
            None => None,
        }
    }

    /// The bit patterns of the `f64` elements in row-major order, if the buffer holds such an array.
    pub fn f64_bits(&self) -> (r: Option<Vec<u64>>)
        ensures
            r is Some <==> self.populated(DataType::F64),
            r matches Some(v) ==> self.kind() == DataType::F64 && words_u64(v@) == self.words(),
    {
        proof {
            use_type_invariant(self);
        }
        match &self.f64_array {
            Some(a) => {
                assert(self.populated(DataType::F64));
                Some(to_vec_u64(a))
            },
            None => None,
        }
    }

    /// The payload in big-endian order, computed on `pool`, without padding.
    pub fn ndarray_to_buffer_parallel(&self, pool: &ThreadPool) -> (r: Vec<u8>)
        ensures
            r@ == self.payload(),
    {
        match self.dtype {
            DataType::U8 => match &self.u8_array {
                Some(a) => {
                    let v = to_vec_u8(a);
                    par_encode_u8(pool, &v)
                },
                None => Vec::new(),
            },
            DataType::I16 => match &self.i16_array {
                Some(a) => {
                    let v = to_vec_i16(a);
                    par_encode_i16(pool, &v)
                },
                None => Vec::new(),
            },
            DataType::I32 => match &self.i32_array {
                Some(a) => {
                    let v = to_vec_i32(a);
                    par_encode_i32(pool, &v)
                },
                None => Vec::new(),
            },
            DataType::F32 => match &self.f32_array {
                Some(a) => {
                    let v = to_vec_u32(a);
                    par_encode_u32(pool, &v)
                },
                None => Vec::new(),
            },
            DataType::F64 => match &self.f64_array {
                Some(a) => {
                    let v = to_vec_u64(a);
                    par_encode_u64(pool, &v)
                },
                None => Vec::new(),
            },
        }
    }

    /// The payload in big-endian order on `pool`, padded with zero bytes to
    /// a whole number of records: the bytes to write in one piece.
    pub fn write_to_buffer(&self, pool: &ThreadPool) -> (r: Vec<u8>)
        ensures
            r@ == padded(self.payload()),
    {
        let mut buf = self.ndarray_to_buffer_parallel(pool);
        pad_to_record(&mut buf);
        buf
    }

    /// The payload in big-endian order, element by element, padded with zero
    /// bytes to a whole number of records.
    pub fn ndarray_to_buffer(&self) -> (r: Vec<u8>)
        ensures
            r@ == padded(self.payload()),
    {
        let mut out: Vec<u8> = Vec::new();
        match self.dtype {
            DataType::U8 => {
                if let Some(a) = &self.u8_array {
                    let v = to_vec_u8(a);
                    encode_u8(&v, &mut out);
                }
            },
            DataType::I16 => {
                if let Some(a) = &self.i16_array {
                    let v = to_vec_i16(a);
                    encode_i16(&v, &mut out);
                }
            },
            DataType::I32 => {
                if let Some(a) = &self.i32_array {
                    let v = to_vec_i32(a);
                    encode_i32(&v, &mut out);
                }
            },
            DataType::F32 => {
                if let Some(a) = &self.f32_array {
                    let v = to_vec_u32(a);
                    encode_u32(&v, &mut out);
                }
            },
            DataType::F64 => {
                if let Some(a) = &self.f64_array {
                    let v = to_vec_u64(a);
                    encode_u64(&v, &mut out);
                }
            },
        }
        assert(out@ =~= self.payload());
        pad_to_record(&mut out);
        out
    }

    /// Decodes a payload whose element type is given by a BITPIX code.
    pub fn read_from_buffer(bitpix: i32, shape: Vec<usize>, databuf: Vec<u8>) -> (r: Result<
        Data,
        CodecError,
    >)
        ensures
            bitpix_type(bitpix) is None ==> r == Err::<Data, CodecError>(
                CodecError::UnsupportedType,
            ),
            bitpix_type(bitpix) matches Some(t) ==> {
                &&& r is Ok <==> decodable(shape@, t, databuf@.len())
                &&& r is Err ==> r == Err::<Data, CodecError>(CodecError::ShapeMismatch)
                &&& r matches Ok(d) ==> {
                    &&& d.kind() == t
                    &&& forall|u: DataType| #[trigger] d.populated(u) <==> u == t
                    &&& d.dims() == shape@
                    &&& d.words() == be_words(databuf@, t.width())
                }
            },
    {
        match DataType::from_bitpix(bitpix) {
            Some(t) => Data::image_buffer_to_ndarray(databuf, shape, t),
            None => Err(CodecError::UnsupportedType),
        }
    }
}

/// The number of values that one element of each width can take.
proof fn lemma_radix_of_widths()
    ensures
        radix(1) == 256,
        radix(2) == 65536,
        radix(4) == 4294967296,
        radix(8) == 18446744073709551616,
{
    assert(radix(0) == 1);
    assert(radix(1) == 256);
    assert(radix(2) == 65536);
    assert(radix(3) == 16777216);
    assert(radix(4) == 4294967296);
    assert(radix(5) == 1099511627776);
    assert(radix(6) == 281474976710656);
    assert(radix(7) == 72057594037927936);
    assert(radix(8) == 18446744073709551616);
}

/// Every element's bit pattern fits in the element's width.
proof fn lemma_words_fit(d: Data)
    ensures
        forall|i: int|
            0 <= i < d.words().len() ==> #[trigger] d.words()[i] < radix(d.kind().width()),
{
    lemma_radix_of_widths();
}

/// Padding: the padded length is the least multiple of the record size that
/// is at least the payload length, the payload comes first unchanged, and the
/// bytes after it are zero. A payload that fills whole records gets none.
pub proof fn lemma_padding_least_multiple(payload: Seq<u8>)
    ensures
        padded(payload).len() as int % (RECORD_LEN as int) == 0,
        padded(payload).len() >= payload.len(),
        forall|m: int|
            #![trigger m % (RECORD_LEN as int)]
            m % (RECORD_LEN as int) == 0 && m >= payload.len() ==> m >= padded(payload).len(),
        payload.len() as int % (RECORD_LEN as int) == 0 ==> padded(payload) == payload,
        padded(payload).take(payload.len() as int) == payload,
        forall|i: int|
            payload.len() <= i < padded(payload).len() ==> #[trigger] padded(payload)[i] == 0,
{
    let len = payload.len();
    let p = padded(payload);
    assert(p.take(len as int) =~= payload);
    if len % 2880 == 0 {
        assert(p =~= payload);
    }
    assert(p.len() == len + pad_len(len));
    assert forall|m: int| #![trigger m % (RECORD_LEN as int)]
        m % (RECORD_LEN as int) == 0 && m >= len implies m >= padded(payload).len() by {
        assert(m >= p.len()) by (nonlinear_arith)
            requires
                m % 2880 == 0,
                m >= len,
                p.len() == len + ((2880 - len % 2880) % 2880),
        ;
    }
}

/// Round trip: the sequential encoding of a buffer, cut to
/// `product(shape) * width` bytes, is accepted by the decoder with the
/// buffer's own shape and element type, and decodes to its elements bit for bit.
pub proof fn lemma_round_trip(d: Data)
    requires
        d.wf(),
        d.has_array(),
    ensures
        ({
            let n = product(d.dims()) * d.kind().width();
            &&& n <= padded(d.payload()).len()
            &&& decodable(d.dims(), d.kind(), n)
            &&& be_words(padded(d.payload()).take(n as int), d.kind().width()) == d.words()
        }),
{
    let w = d.kind().width();
    let p = d.payload();
    lemma_be_stream_layout(d.words(), w);
    lemma_words_fit(d);
    lemma_be_words_of_stream(d.words(), w);
    assert(padded(p).take(p.len() as int) =~= p);
}

/// The two encoders agree: the parallel payload, followed by the record
/// padding, is exactly what the sequential encoder writes, and stripping the
/// padding from either gives the same bytes.
pub proof fn lemma_parallel_matches_sequential(d: Data)
    ensures
        padded(d.payload()).take(d.payload().len() as int) == d.payload(),
        padded(d.payload()) == d.payload() + zeros(pad_len(d.payload().len())),
{
    assert(padded(d.payload()).take(d.payload().len() as int) =~= d.payload());
}

/// An array with no elements encodes to no bytes at all: its payload is empty,
/// and an empty payload takes no padding record.
pub proof fn lemma_empty_array_encodes_to_nothing(d: Data)
    requires
        d.wf(),
        d.has_array(),
        product(d.dims()) == 0,
    ensures
        d.words().len() == 0,
        d.payload().len() == 0,
        padded(d.payload()).len() == 0,
{
    lemma_be_stream_layout(d.words(), d.kind().width());
}

} // verus!
