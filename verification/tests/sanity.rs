use ardaku::parse::{Reader, Writer};

#[test]
fn it_works() {
    let result = 2 + 2;
    assert_eq!(result, 4);
}

#[test]
fn lib_it_works() {
    let result = 2 + 2;
    assert_eq!(result, 4);
}

#[test]
fn writer_emits_little_endian_bytes() {
    let mut mem = vec![0u8; 16];
    let mut w = Writer::new(1);
    assert!(w.u32(&mut mem, 0x1122_3344).is_ok());
    assert_eq!(&mem[1..5], &[0x44, 0x33, 0x22, 0x11]);
    assert!(w.u16(&mut mem, 0xA1B2).is_ok());
    assert_eq!(&mem[5..7], &[0xB2, 0xA1]);
}

#[test]
fn reader_combines_little_endian_bytes() {
    let mem = vec![0x44u8, 0x33, 0x22, 0x11, 0xB2, 0xA1, 0, 0, 0, 0, 0, 0];
    let mut r = Reader::new(0);
    assert_eq!(r.u32(&mem), Ok(0x1122_3344));
    assert_eq!(r.u16(&mem), Ok(0xA1B2));
    assert_eq!(r.u64(&mem), Err(ardaku::engine::Trap::OutOfBounds));
}

#[test]
fn writer_then_reader_round_trip() {
    let mut mem = vec![0u8; 64];
    let mut w = Writer::new(0);
    assert!(w.u8(&mut mem, 0x7F).is_ok());
    assert!(w.u16(&mut mem, 0xBEEF).is_ok());
    assert!(w.u32(&mut mem, 0xDEAD_BEEF).is_ok());
    assert!(w.u64(&mut mem, 0x0123_4567_89AB_CDEF).is_ok());
    assert!(w.str(&mut mem, "héllo").is_ok());
    let mut r = Reader::new(0);
    assert_eq!(r.u8(&mem), Ok(0x7F));
    assert_eq!(r.u16(&mem), Ok(0xBEEF));
    assert_eq!(r.u32(&mem), Ok(0xDEAD_BEEF));
    assert_eq!(r.u64(&mem), Ok(0x0123_4567_89AB_CDEF));
    assert_eq!(r.str(&mem, "héllo".len()), Ok("héllo".to_string()));
}
