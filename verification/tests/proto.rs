use ksupport::kernel_proto::Exception;
use ksupport::proto::{
    read_bytes, read_exception, read_string, read_u16, read_u32, read_u64, read_u8, write_bytes,
    write_exception, write_string, write_u16, write_u32, write_u64, write_u8, ReadError, Reader,
};

#[test]
fn write_integers_big_endian() {
    let mut w: Vec<u8> = Vec::new();
    write_u8(&mut w, 0xab);
    assert_eq!(w, vec![0xab]);

    let mut w: Vec<u8> = Vec::new();
    write_u16(&mut w, 0x0102);
    assert_eq!(w, vec![0x01, 0x02]);

    let mut w: Vec<u8> = Vec::new();
    write_u32(&mut w, 0x01020304);
    assert_eq!(w, vec![0x01, 0x02, 0x03, 0x04]);

    let mut w: Vec<u8> = Vec::new();
    write_u64(&mut w, 0x0102030405060708);
    assert_eq!(w, vec![0x01, 0x02, 0x03, 0x04, 0x05, 0x06, 0x07, 0x08]);
}

#[test]
fn read_integers_big_endian() {
    let mut r = Reader::new(vec![0xab]);
    assert_eq!(read_u8(&mut r), Ok(0xab));

    let mut r = Reader::new(vec![0x01, 0x02]);
    assert_eq!(read_u16(&mut r), Ok(0x0102));

    let mut r = Reader::new(vec![0xff, 0x00, 0x00, 0x01]);
    assert_eq!(read_u32(&mut r), Ok(0xff000001));

    let mut r = Reader::new(vec![0x01, 0x02, 0x03, 0x04, 0x05, 0x06, 0x07, 0x08]);
    assert_eq!(read_u64(&mut r), Ok(0x0102030405060708));
}

#[test]
fn read_integer_round_trips() {
    let mut w: Vec<u8> = Vec::new();
    write_u16(&mut w, 0xbeef);
    write_u32(&mut w, 0xdeadbeef);
    write_u64(&mut w, u64::MAX);
    write_u8(&mut w, 0);
    let mut r = Reader::new(w);
    assert_eq!(read_u16(&mut r), Ok(0xbeef));
    assert_eq!(read_u32(&mut r), Ok(0xdeadbeef));
    assert_eq!(read_u64(&mut r), Ok(u64::MAX));
    assert_eq!(read_u8(&mut r), Ok(0));
}

#[test]
fn read_past_end_is_rejected_and_position_kept() {
    let mut r = Reader::new(vec![0x01]);
    assert_eq!(read_u16(&mut r), Err(ReadError::UnexpectedEnd));
    assert_eq!(r.pos, 0);
    assert_eq!(read_u8(&mut r), Ok(0x01));
    assert_eq!(read_u8(&mut r), Err(ReadError::UnexpectedEnd));
    assert_eq!(r.pos, 1);
}

#[test]
fn byte_string_framing() {
    let mut w: Vec<u8> = Vec::new();
    write_bytes(&mut w, &[0x61, 0x62, 0x63]);
    assert_eq!(w, vec![0x00, 0x00, 0x00, 0x03, 0x61, 0x62, 0x63]);

    let mut r = Reader::new(w);
    assert_eq!(read_bytes(&mut r), Ok(vec![0x61, 0x62, 0x63]));
}

#[test]
fn empty_byte_string_framing() {
    let mut w: Vec<u8> = Vec::new();
    write_bytes(&mut w, &[]);
    assert_eq!(w, vec![0x00, 0x00, 0x00, 0x00]);
    let mut r = Reader::new(w);
    assert_eq!(read_bytes(&mut r), Ok(Vec::new()));
}

#[test]
fn byte_string_short_payload_is_rejected() {
    // Prefix announces four bytes; only two follow.
    let mut r = Reader::new(vec![0x00, 0x00, 0x00, 0x04, 0x61, 0x62]);
    assert_eq!(read_bytes(&mut r), Err(ReadError::UnexpectedEnd));
    assert_eq!(r.pos, 0);
}

#[test]
fn text_string_round_trip() {
    let mut w: Vec<u8> = Vec::new();
    write_string(&mut w, "mailbox \u{2764} channel");
    let mut r = Reader::new(w);
    assert_eq!(read_string(&mut r), Ok(String::from("mailbox \u{2764} channel")));
}

#[test]
fn text_string_rejects_invalid_utf8() {
    let mut r = Reader::new(vec![0x00, 0x00, 0x00, 0x01, 0xff]);
    assert_eq!(read_string(&mut r), Err(ReadError::InvalidUtf8));
    assert_eq!(r.pos, 0);
}

#[test]
fn exception_record_round_trip() {
    let e = Exception {
        name: b"0:artiq.coredevice.exceptions.RTIOUnderflow".to_vec(),
        file: b"experiment.py".to_vec(),
        line: 42,
        column: 7,
        function: b"run".to_vec(),
        message: b"RTIO underflow at {0} mu, channel {1}".to_vec(),
        param: [8000, 3, 0],
    };
    let mut w: Vec<u8> = Vec::new();
    write_exception(&mut w, &e);
    let mut r = Reader::new(w);
    assert_eq!(read_exception(&mut r), Ok(e));
}

#[test]
fn exception_record_round_trip_with_surrounding_data() {
    let e = Exception {
        name: b"0:ZeroDivisionError".to_vec(),
        file: Vec::new(),
        line: 0,
        column: 0,
        function: b"(Rust function)".to_vec(),
        message: Vec::new(),
        param: [u64::MAX, 0, 1],
    };
    let mut w: Vec<u8> = Vec::new();
    write_u8(&mut w, 0x5a);
    write_exception(&mut w, &e);
    write_u8(&mut w, 0xa5);
    let mut r = Reader::new(w);
    assert_eq!(read_u8(&mut r), Ok(0x5a));
    assert_eq!(read_exception(&mut r), Ok(e));
    assert_eq!(read_u8(&mut r), Ok(0xa5));
}

#[test]
fn truncated_exception_is_rejected() {
    let e = Exception {
        name: b"0:ValueError".to_vec(),
        file: b"f".to_vec(),
        line: 1,
        column: 2,
        function: b"g".to_vec(),
        message: b"m".to_vec(),
        param: [0, 0, 0],
    };
    let mut w: Vec<u8> = Vec::new();
    write_exception(&mut w, &e);
    w.pop();
    let mut r = Reader::new(w);
    assert_eq!(read_exception(&mut r), Err(ReadError::UnexpectedEnd));
    assert_eq!(r.pos, 0);
}
