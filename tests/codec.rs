use fits_image::bytes::{pad_to_record, padding_len, RECORD_LEN};
use fits_image::element::{
    decode_i16, decode_i32, decode_u32, decode_u64, encode_i16, i16_bytes, i32_bytes, u32_bytes,
    u64_bytes, u8_bytes,
};
use fits_image::image::{payload_len, CodecError, Data, DataType};

fn pool(threads: usize) -> rayon::ThreadPool {
    rayon::ThreadPoolBuilder::new().num_threads(threads).build().unwrap()
}

fn slots(d: &Data) -> [bool; 5] {
    [
        d.u8_values().is_some(),
        d.i16_values().is_some(),
        d.i32_values().is_some(),
        d.f32_bits().is_some(),
        d.f64_bits().is_some(),
    ]
}

fn payload_of(t: DataType, n: usize) -> Vec<u8> {
    let w = t.nbytes();
    (0..n * w).map(|i| (i * 37 + 11) as u8).collect()
}

fn check_round_trip(t: DataType, shape: Vec<usize>) {
    let n: usize = shape.iter().product();
    let raw = payload_of(t, n);
    let d = Data::image_buffer_to_ndarray(raw.clone(), shape.clone(), t).unwrap();
    assert_eq!(d.dtype(), t);
    assert_eq!(d.shape(), Some(shape.clone()));
    let out = d.ndarray_to_buffer();
    assert_eq!(out.len() % RECORD_LEN, 0);
    assert_eq!(&out[..raw.len()], &raw[..]);
    assert!(out[raw.len()..].iter().all(|&b| b == 0));
    let back = Data::image_buffer_to_ndarray(out[..raw.len()].to_vec(), shape, t).unwrap();
    assert_eq!(back.u8_values(), d.u8_values());
    assert_eq!(back.i16_values(), d.i16_values());
    assert_eq!(back.i32_values(), d.i32_values());
    assert_eq!(back.f32_bits(), d.f32_bits());
    assert_eq!(back.f64_bits(), d.f64_bits());
    assert_eq!(back.shape(), d.shape());
}

const ALL: [DataType; 5] = [DataType::U8, DataType::I16, DataType::I32, DataType::F32, DataType::F64];

#[test]
fn round_trip_every_type_and_shape() {
    for t in ALL {
        check_round_trip(t, vec![0]);
        check_round_trip(t, vec![1]);
        check_round_trip(t, vec![3, 5, 7]);
    }
}

#[test]
fn padding_is_least_record_multiple() {
    assert_eq!(padding_len(0), 0);
    assert_eq!(padding_len(1), 2879);
    assert_eq!(padding_len(2879), 1);
    assert_eq!(padding_len(2880), 0);
    assert_eq!(padding_len(2881), 2879);
    assert_eq!(padding_len(5760), 0);
    let mut b = vec![7u8; 100];
    pad_to_record(&mut b);
    assert_eq!(b.len(), 2880);
    assert!(b[..100].iter().all(|&x| x == 7));
    assert!(b[100..].iter().all(|&x| x == 0));
    let mut full = vec![1u8; 2880];
    pad_to_record(&mut full);
    assert_eq!(full, vec![1u8; 2880]);
}

#[test]
fn parallel_matches_sequential() {
    for threads in [1, 4] {
        let p = pool(threads);
        for t in ALL {
            let shape = vec![3, 5, 7];
            let raw = payload_of(t, 105);
            let d = Data::image_buffer_to_ndarray(raw.clone(), shape, t).unwrap();
            let par = d.ndarray_to_buffer_parallel(&p);
            let seq = d.ndarray_to_buffer();
            assert_eq!(par, raw);
            assert_eq!(&seq[..par.len()], &par[..]);
            assert_eq!(d.write_to_buffer(&p), seq);
        }
    }
}

#[test]
fn decode_populates_only_the_active_slot() {
    for (k, t) in ALL.iter().enumerate() {
        let d = Data::image_buffer_to_ndarray(payload_of(*t, 6), vec![2, 3], *t).unwrap();
        let s = slots(&d);
        for j in 0..5 {
            assert_eq!(s[j], j == k);
        }
    }
}

#[test]
fn float_one_round_trips_big_endian() {
    let d = Data::read_from_buffer(-32, vec![1], vec![0x3F, 0x80, 0x00, 0x00]).unwrap();
    assert_eq!(d.dtype(), DataType::F32);
    let bits = d.f32_bits().unwrap();
    assert_eq!(bits.len(), 1);
    assert_eq!(f32::from_bits(bits[0]), 1.0f32);
    let out = d.ndarray_to_buffer();
    assert_eq!(out.len(), 2880);
    assert_eq!(&out[..4], &[0x3F, 0x80, 0x00, 0x00]);
    assert!(out[4..].iter().all(|&b| b == 0));
}

#[test]
fn little_endian_float_bytes_are_read_big_endian() {
    let d = Data::read_from_buffer(-32, vec![1], vec![0x00, 0x00, 0x80, 0x3F]).unwrap();
    assert_eq!(d.f32_bits(), Some(vec![0x0000_803F]));
    let out = d.ndarray_to_buffer();
    assert_eq!(&out[..4], &[0x00, 0x00, 0x80, 0x3F]);
    assert_eq!(out.len(), 2880);
}

#[test]
fn unsupported_type_code_is_an_error() {
    assert_eq!(Data::read_from_buffer(99, vec![1], vec![0]).err(), Some(CodecError::UnsupportedType));
    assert_eq!(Data::read_from_buffer(64, vec![1], vec![0; 8]).err(), Some(CodecError::UnsupportedType));
    assert_eq!(DataType::from_bitpix(0), None);
}

#[test]
fn empty_array_encodes_to_no_bytes() {
    let p = pool(2);
    for t in ALL {
        for shape in [vec![0], vec![3, 0, 2]] {
            let d = Data::image_buffer_to_ndarray(Vec::new(), shape.clone(), t).unwrap();
            assert_eq!(d.dtype(), t);
            assert_eq!(d.shape(), Some(shape));
            assert_eq!(d.ndarray_to_buffer(), Vec::<u8>::new());
            assert_eq!(d.ndarray_to_buffer_parallel(&p), Vec::<u8>::new());
            assert_eq!(d.write_to_buffer(&p), Vec::<u8>::new());
        }
    }
    let d = Data::image_buffer_to_ndarray(Vec::new(), vec![0], DataType::I32).unwrap();
    assert_eq!(d.i32_values(), Some(Vec::new()));
}

#[test]
fn new_buffer_is_empty() {
    let d = Data::new();
    assert_eq!(d.dtype(), DataType::U8);
    assert_eq!(slots(&d), [false; 5]);
    assert_eq!(d.shape(), None);
    assert_eq!(d.ndarray_to_buffer(), Vec::<u8>::new());
    assert_eq!(d.write_to_buffer(&pool(1)), Vec::<u8>::new());
}

#[test]
fn wrong_payload_length_is_shape_mismatch() {
    let r = Data::image_buffer_to_ndarray(vec![0; 5], vec![2, 2], DataType::I16);
    assert_eq!(r.err(), Some(CodecError::ShapeMismatch));
    let r = Data::image_buffer_to_ndarray(vec![0; 9], vec![2, 2], DataType::I16);
    assert_eq!(r.err(), Some(CodecError::ShapeMismatch));
    let r = Data::read_from_buffer(8, vec![usize::MAX, 2], vec![0; 4]);
    assert_eq!(r.err(), Some(CodecError::ShapeMismatch));
}

#[test]
fn bitpix_codes_and_widths() {
    assert_eq!(DataType::from_bitpix(8), Some(DataType::U8));
    assert_eq!(DataType::from_bitpix(16), Some(DataType::I16));
    assert_eq!(DataType::from_bitpix(32), Some(DataType::I32));
    assert_eq!(DataType::from_bitpix(-32), Some(DataType::F32));
    assert_eq!(DataType::from_bitpix(-64), Some(DataType::F64));
    let widths: Vec<usize> = ALL.iter().map(|t| t.nbytes()).collect();
    assert_eq!(widths, vec![1, 2, 4, 4, 8]);
}

#[test]
fn payload_length_of_shapes() {
    assert_eq!(payload_len(&vec![3, 5, 7], DataType::I16), Some(210));
    assert_eq!(payload_len(&vec![3, 5, 7], DataType::F64), Some(840));
    assert_eq!(payload_len(&vec![], DataType::I32), Some(4));
    assert_eq!(payload_len(&vec![4, 0], DataType::F32), Some(0));
    assert_eq!(payload_len(&vec![usize::MAX / 2, 3], DataType::U8), None);
    assert_eq!(payload_len(&vec![usize::MAX / 2, 0], DataType::U8), Some(0));
    assert_eq!(payload_len(&vec![usize::MAX, 0], DataType::U8), None);
    assert_eq!(payload_len(&vec![1 << 40, 1 << 22], DataType::F64), None);
}

#[test]
fn signed_values_use_twos_complement() {
    let d = Data::read_from_buffer(16, vec![3], vec![0xFF, 0xFE, 0x01, 0x02, 0x80, 0x00]).unwrap();
    assert_eq!(d.i16_values(), Some(vec![-2, 0x0102, i16::MIN]));
    let d = Data::read_from_buffer(32, vec![1], vec![0xFF, 0xFF, 0xFF, 0xFF]).unwrap();
    assert_eq!(d.i32_values(), Some(vec![-1]));
    assert_eq!(&d.ndarray_to_buffer()[..4], &[0xFF, 0xFF, 0xFF, 0xFF]);
}

#[test]
fn element_bytes_are_big_endian() {
    assert_eq!(u8_bytes(0xAB), vec![0xAB]);
    assert_eq!(i16_bytes(0x0102), vec![0x01, 0x02]);
    assert_eq!(i16_bytes(-1), vec![0xFF, 0xFF]);
    assert_eq!(i32_bytes(0x0102_0304), vec![1, 2, 3, 4]);
    assert_eq!(u32_bytes(1.0f32.to_bits()), vec![0x3F, 0x80, 0, 0]);
    assert_eq!(u64_bytes(1.0f64.to_bits()), vec![0x3F, 0xF0, 0, 0, 0, 0, 0, 0]);
    assert_eq!(u64_bytes(0x0102_0304_0506_0708), vec![1, 2, 3, 4, 5, 6, 7, 8]);
}

#[test]
fn decoders_read_big_endian() {
    assert_eq!(decode_i16(&vec![0x01, 0x02, 0xFF]), vec![0x0102]);
    assert_eq!(decode_i32(&vec![0x80, 0, 0, 0]), vec![i32::MIN]);
    assert_eq!(decode_u32(&vec![0x3F, 0x80, 0, 0]), vec![0x3F80_0000]);
    assert_eq!(decode_u64(&vec![0x3F, 0xF0, 0, 0, 0, 0, 0, 0]), vec![1.0f64.to_bits()]);
    let mut out = vec![9u8];
    encode_i16(&vec![1, -2], &mut out);
    assert_eq!(out, vec![9, 0x00, 0x01, 0xFF, 0xFE]);
}

#[test]
fn row_major_order_is_kept() {
    let raw: Vec<u8> = (0..6).collect();
    let d = Data::image_buffer_to_ndarray(raw.clone(), vec![2, 3], DataType::U8).unwrap();
    assert_eq!(d.u8_values(), Some(raw.clone()));
    assert_eq!(d.shape(), Some(vec![2, 3]));
    assert_eq!(&d.ndarray_to_buffer()[..6], &raw[..]);
}
