use nbt_raw::scalar::{
    byte_from_bytes, byte_to_bytes, int_from_bytes, int_to_bytes, long_from_bytes,
    long_to_bytes, short_from_bytes, short_to_bytes,
};
use nbt_raw::{
    close_nbt, read_bare_byte, read_bare_double, read_bare_float, read_bare_int, read_bare_long,
    read_bare_short, write_bare_byte, write_bare_double, write_bare_float, write_bare_int,
    write_bare_long, write_bare_short, Endianness, Error, IoFault, MemorySource,
};

const ORDERS: [Endianness; 2] = [Endianness::Big, Endianness::Little];

#[test]
fn int_minus_one_is_all_ones_in_both_orders() {
    for order in ORDERS {
        let mut out: Vec<u8> = Vec::new();
        assert_eq!(write_bare_int(&mut out, -1, order), Ok(()));
        assert_eq!(out, vec![0xFFu8, 0xFF, 0xFF, 0xFF]);
    }
}

#[test]
fn int_one_depends_on_the_order() {
    let mut big: Vec<u8> = Vec::new();
    assert_eq!(write_bare_int(&mut big, 1, Endianness::Big), Ok(()));
    assert_eq!(big, vec![0u8, 0, 0, 1]);
    let mut little: Vec<u8> = Vec::new();
    assert_eq!(write_bare_int(&mut little, 1, Endianness::Little), Ok(()));
    assert_eq!(little, vec![1u8, 0, 0, 0]);
}

#[test]
fn byte_layout() {
    let mut out: Vec<u8> = Vec::new();
    assert_eq!(write_bare_byte(&mut out, -128), Ok(()));
    assert_eq!(write_bare_byte(&mut out, -1), Ok(()));
    assert_eq!(write_bare_byte(&mut out, 0), Ok(()));
    assert_eq!(write_bare_byte(&mut out, 127), Ok(()));
    assert_eq!(out, vec![0x80u8, 0xFF, 0x00, 0x7F]);
}

#[test]
fn short_layout() {
    let mut out: Vec<u8> = Vec::new();
    assert_eq!(write_bare_short(&mut out, 0x1234, Endianness::Big), Ok(()));
    assert_eq!(write_bare_short(&mut out, 0x1234, Endianness::Little), Ok(()));
    assert_eq!(write_bare_short(&mut out, -2, Endianness::Big), Ok(()));
    assert_eq!(write_bare_short(&mut out, -2, Endianness::Little), Ok(()));
    assert_eq!(out, vec![0x12u8, 0x34, 0x34, 0x12, 0xFF, 0xFE, 0xFE, 0xFF]);
}

#[test]
fn int_layout() {
    let mut out: Vec<u8> = Vec::new();
    assert_eq!(write_bare_int(&mut out, 0x0102_0304, Endianness::Big), Ok(()));
    assert_eq!(write_bare_int(&mut out, 0x0102_0304, Endianness::Little), Ok(()));
    assert_eq!(write_bare_int(&mut out, i32::MIN, Endianness::Big), Ok(()));
    assert_eq!(out, vec![1u8, 2, 3, 4, 4, 3, 2, 1, 0x80, 0, 0, 0]);
}

#[test]
fn long_layout() {
    let mut out: Vec<u8> = Vec::new();
    assert_eq!(write_bare_long(&mut out, 0x0102_0304_0506_0708, Endianness::Big), Ok(()));
    assert_eq!(write_bare_long(&mut out, 0x0102_0304_0506_0708, Endianness::Little), Ok(()));
    assert_eq!(write_bare_long(&mut out, -2, Endianness::Little), Ok(()));
    assert_eq!(
        out,
        vec![
            1u8, 2, 3, 4, 5, 6, 7, 8, 8, 7, 6, 5, 4, 3, 2, 1, 0xFE, 0xFF, 0xFF, 0xFF, 0xFF,
            0xFF, 0xFF, 0xFF
        ]
    );
}

#[test]
fn float_layout() {
    let mut out: Vec<u8> = Vec::new();
    assert_eq!(write_bare_float(&mut out, 1.0f32.to_bits(), Endianness::Big), Ok(()));
    assert_eq!(write_bare_float(&mut out, 1.0f32.to_bits(), Endianness::Little), Ok(()));
    assert_eq!(out, vec![0x3Fu8, 0x80, 0, 0, 0, 0, 0x80, 0x3F]);
}

#[test]
fn double_layout() {
    let mut out: Vec<u8> = Vec::new();
    assert_eq!(write_bare_double(&mut out, (-2.0f64).to_bits(), Endianness::Big), Ok(()));
    assert_eq!(write_bare_double(&mut out, (-2.0f64).to_bits(), Endianness::Little), Ok(()));
    assert_eq!(out, vec![0xC0u8, 0, 0, 0, 0, 0, 0, 0, 0, 0, 0, 0, 0, 0, 0, 0xC0]);
}

#[test]
fn reading_takes_the_order_into_account() {
    let mut src = MemorySource::new(vec![0x12, 0x34, 0x12, 0x34]);
    assert_eq!(read_bare_short(&mut src, Endianness::Big), Ok(0x1234));
    assert_eq!(read_bare_short(&mut src, Endianness::Little), Ok(0x3412));
    let mut src = MemorySource::new(vec![0, 0, 1, 2, 0, 0, 1, 2]);
    assert_eq!(read_bare_int(&mut src, Endianness::Big), Ok(258));
    assert_eq!(read_bare_int(&mut src, Endianness::Little), Ok(0x0201_0000));
    let mut src = MemorySource::new(vec![
        0, 0, 0, 0, 0, 0, 1, 2, 0xFE, 0xFF, 0xFF, 0xFF, 0xFF, 0xFF, 0xFF, 0xFF,
    ]);
    assert_eq!(read_bare_long(&mut src, Endianness::Big), Ok(258));
    assert_eq!(read_bare_long(&mut src, Endianness::Little), Ok(-2));
    let mut src = MemorySource::new(vec![0x3F, 0x80, 0, 0, 0, 0, 0x80, 0x3F]);
    assert_eq!(read_bare_float(&mut src, Endianness::Big), Ok(1.0f32.to_bits()));
    assert_eq!(read_bare_float(&mut src, Endianness::Little), Ok(1.0f32.to_bits()));
    let mut src = MemorySource::new(vec![0xC0, 0, 0, 0, 0, 0, 0, 0, 0, 0, 0, 0, 0, 0, 0, 0xC0]);
    assert_eq!(read_bare_double(&mut src, Endianness::Big), Ok((-2.0f64).to_bits()));
    assert_eq!(read_bare_double(&mut src, Endianness::Little), Ok((-2.0f64).to_bits()));
}

#[test]
fn byte_round_trip() {
    for v in i8::MIN..=i8::MAX {
        let mut out: Vec<u8> = Vec::new();
        assert_eq!(write_bare_byte(&mut out, v), Ok(()));
        assert_eq!(out.len(), 1);
        let mut src = MemorySource::new(out);
        assert_eq!(read_bare_byte(&mut src), Ok(v));
        assert_eq!(src.remaining(), 0);
    }
}

#[test]
fn short_round_trip() {
    for order in ORDERS {
        for v in i16::MIN..=i16::MAX {
            let mut out: Vec<u8> = Vec::new();
            assert_eq!(write_bare_short(&mut out, v, order), Ok(()));
            assert_eq!(out.len(), 2);
            let mut src = MemorySource::new(out);
            assert_eq!(read_bare_short(&mut src, order), Ok(v));
        }
    }
}

#[test]
fn int_round_trip() {
    for order in ORDERS {
        let values =
            [i32::MIN, i32::MIN + 1, -65536, -257, -1, 0, 1, 255, 256, 65535, 0x1234_5678, i32::MAX];
        for v in values {
            let mut out: Vec<u8> = Vec::new();
            assert_eq!(write_bare_int(&mut out, v, order), Ok(()));
            assert_eq!(out.len(), 4);
            let mut src = MemorySource::new(out);
            assert_eq!(read_bare_int(&mut src, order), Ok(v));
        }
    }
}

#[test]
fn long_round_trip() {
    for order in ORDERS {
        let values = [
            i64::MIN,
            i64::MIN + 1,
            -4294967297,
            -1,
            0,
            1,
            4294967296,
            0x0123_4567_89AB_CDEF,
            i64::MAX,
        ];
        for v in values {
            let mut out: Vec<u8> = Vec::new();
            assert_eq!(write_bare_long(&mut out, v, order), Ok(()));
            assert_eq!(out.len(), 8);
            let mut src = MemorySource::new(out);
            assert_eq!(read_bare_long(&mut src, order), Ok(v));
        }
    }
}

#[test]
fn float_round_trip_is_bit_for_bit() {
    let payload_nan = f32::from_bits(0x7FC0_1234);
    let signalling = f32::from_bits(0xFF80_0001);
    for order in ORDERS {
        let values = [
            0.0f32,
            -0.0,
            1.5,
            -3.25e10,
            f32::MIN_POSITIVE,
            f32::MAX,
            f32::INFINITY,
            f32::NEG_INFINITY,
            f32::NAN,
            payload_nan,
            signalling,
        ];
        for v in values {
            let mut out: Vec<u8> = Vec::new();
            assert_eq!(write_bare_float(&mut out, v.to_bits(), order), Ok(()));
            assert_eq!(out.len(), 4);
            let mut src = MemorySource::new(out);
            let back = f32::from_bits(read_bare_float(&mut src, order).unwrap());
            assert_eq!(back.to_bits(), v.to_bits());
        }
    }
    assert!(f32::from_bits(0x8000_0000).is_sign_negative());
}

#[test]
fn double_round_trip_is_bit_for_bit() {
    let payload_nan = f64::from_bits(0x7FF8_0000_0000_BEEF);
    let signalling = f64::from_bits(0xFFF0_0000_0000_0001);
    for order in ORDERS {
        let values = [
            0.0f64,
            -0.0,
            1.5,
            -3.25e100,
            f64::MIN_POSITIVE,
            f64::MAX,
            f64::INFINITY,
            f64::NEG_INFINITY,
            f64::NAN,
            payload_nan,
            signalling,
        ];
        for v in values {
            let mut out: Vec<u8> = Vec::new();
            assert_eq!(write_bare_double(&mut out, v.to_bits(), order), Ok(()));
            assert_eq!(out.len(), 8);
            let mut src = MemorySource::new(out);
            let back = f64::from_bits(read_bare_double(&mut src, order).unwrap());
            assert_eq!(back.to_bits(), v.to_bits());
        }
    }
}

#[test]
fn a_scalar_read_takes_exactly_its_width() {
    let mut src = MemorySource::new(vec![1, 2, 3, 4, 5, 6, 7, 8, 9, 10, 11, 12, 13, 14, 15, 16]);
    assert_eq!(read_bare_byte(&mut src), Ok(1));
    assert_eq!(src.remaining(), 15);
    assert_eq!(read_bare_short(&mut src, Endianness::Big), Ok(0x0203));
    assert_eq!(src.remaining(), 13);
    assert_eq!(read_bare_int(&mut src, Endianness::Big), Ok(0x0405_0607));
    assert_eq!(src.remaining(), 9);
    assert_eq!(read_bare_long(&mut src, Endianness::Big), Ok(0x0809_0A0B_0C0D_0E0F));
    assert_eq!(src.remaining(), 1);
}

#[test]
fn a_scalar_read_of_too_few_bytes_is_an_io_error() {
    let eof: Error = Error::IoError(IoFault::UnexpectedEof);
    assert_eq!(read_bare_byte(&mut MemorySource::new(vec![])), Err(eof));
    assert_eq!(read_bare_short(&mut MemorySource::new(vec![1]), Endianness::Big), Err(eof));
    assert_eq!(read_bare_int(&mut MemorySource::new(vec![1, 2, 3]), Endianness::Big), Err(eof));
    let mut seven = MemorySource::new(vec![1, 2, 3, 4, 5, 6, 7]);
    assert_eq!(read_bare_long(&mut seven, Endianness::Little), Err(eof));
    let mut three = MemorySource::new(vec![1, 2, 3]);
    assert_eq!(read_bare_float(&mut three, Endianness::Little), Err(eof));
    assert_eq!(read_bare_double(&mut MemorySource::new(vec![]), Endianness::Big), Err(eof));
}

#[test]
fn a_scalar_read_is_one_request_even_from_a_source_of_small_chunks() {
    let mut src = MemorySource::with_chunk(vec![0, 0, 0, 7, 0, 0, 0, 0, 0, 0, 0, 9], 1);
    assert_eq!(read_bare_int(&mut src, Endianness::Big), Ok(7));
    assert_eq!(read_bare_long(&mut src, Endianness::Big), Ok(9));
    assert_eq!(src.remaining(), 0);
}

#[test]
fn close_writes_one_zero_byte() {
    let mut out: Vec<u8> = vec![5];
    assert_eq!(close_nbt(&mut out), Ok(()));
    assert_eq!(out, vec![5u8, 0]);
}

#[test]
fn conversions_between_values_and_bytes() {
    assert_eq!(byte_to_bytes(-2), [0xFEu8]);
    assert_eq!(byte_from_bytes(&[0xFE]), -2);
    assert_eq!(short_to_bytes(-2, Endianness::Big), [0xFFu8, 0xFE]);
    assert_eq!(short_from_bytes(&[0xFE, 0xFF], Endianness::Little), -2);
    assert_eq!(int_to_bytes(0x7FFF_FFFF, Endianness::Little), [0xFFu8, 0xFF, 0xFF, 0x7F]);
    assert_eq!(int_from_bytes(&[0x80, 0, 0, 0], Endianness::Big), i32::MIN);
    assert_eq!(long_to_bytes(i64::MIN, Endianness::Big), [0x80u8, 0, 0, 0, 0, 0, 0, 0]);
    assert_eq!(long_from_bytes(&[0xFF; 8], Endianness::Little), -1);
}
