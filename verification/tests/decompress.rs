use apicula::decompress::{decompress, Error};
use apicula::util::cur::Cur;

#[test]
fn lz10_literals_only() {
    let mut s = vec![0x10, 40, 0, 0];
    for g in 0..5u8 {
        s.push(0);
        for k in 0..8u8 {
            s.push(g * 8 + k);
        }
    }
    s.extend_from_slice(&[0xaa, 0xbb]);
    let r = decompress(Cur::new(&s)).ok().unwrap();
    assert_eq!(r.data, (0..40).collect::<Vec<u8>>());
    assert_eq!(r.end_cur.pos(), 49);
}

#[test]
fn lz10_backreference() {
    let mut s = vec![0x10, 40, 0, 0];
    s.push(0x40);
    s.push(b'A');
    s.extend_from_slice(&[0xf0, 0x00]); // length 18, offset 1
    s.extend_from_slice(b"bcdefg");
    s.push(0);
    s.extend_from_slice(b"hijklmno");
    s.push(0);
    s.extend_from_slice(b"pqrstuv");
    let r = decompress(Cur::new(&s)).ok().unwrap();
    let mut expected = vec![b'A'; 19];
    expected.extend_from_slice(b"bcdefghijklmnopqrstuv");
    assert_eq!(r.data, expected);
    assert_eq!(r.end_cur.pos(), s.len());
}

#[test]
fn lz11_backreferences() {
    let mut s = vec![0x11, 40, 0, 0];
    s.push(0x40);
    s.push(b'B');
    s.extend_from_slice(&[0xf0, 0x00]); // 2-byte form: length 16, offset 1
    s.extend_from_slice(b"cdefgh");
    s.push(0x80);
    s.extend_from_slice(&[0x00, 0x00, 0x00]); // 3-byte form: length 17, offset 1
    let r = decompress(Cur::new(&s)).ok().unwrap();
    let mut expected = vec![b'B'; 17];
    expected.extend_from_slice(b"cdefgh");
    expected.extend_from_slice(&[b'h'; 17]);
    assert_eq!(r.data, expected);
    assert_eq!(r.end_cur.pos(), s.len());
}

#[test]
fn lz11_long_form_and_overlap() {
    // 4-byte form: length 0x111 + 0, offset 2
    let mut s = vec![0x11, 0x13, 0x01, 0];
    s.push(0x20);
    s.extend_from_slice(b"xy");
    s.extend_from_slice(&[0x10, 0x00, 0x00, 0x01]);
    let r = decompress(Cur::new(&s)).ok().unwrap();
    assert_eq!(r.data.len(), 0x113);
    for (i, &b) in r.data.iter().enumerate() {
        assert_eq!(b, if i % 2 == 0 { b'x' } else { b'y' });
    }
}

#[test]
fn decompress_extended_size_header() {
    let mut s = vec![0x10, 0, 0, 0, 40, 0, 0, 0];
    for _ in 0..5 {
        s.push(0);
        s.extend_from_slice(&[7u8; 8]);
    }
    let r = decompress(Cur::new(&s)).ok().unwrap();
    assert_eq!(r.data, vec![7u8; 40]);
    assert_eq!(r.end_cur.pos(), 53);
}

#[test]
fn decompress_failures() {
    // not a compression type
    assert!(matches!(decompress(Cur::new(&[0x12, 40, 0, 0])), Err(Error::DecompressFailed)));
    // too short
    let mut s = vec![0x10, 39, 0, 0];
    for _ in 0..5 {
        s.push(0);
        s.extend_from_slice(&[1u8; 8]);
    }
    assert!(decompress(Cur::new(&s)).is_err());
    // too big
    assert!(decompress(Cur::new(&[0x10, 0x01, 0x00, 0x40, 0])).is_err());
    // stream cut short
    assert!(decompress(Cur::new(&[0x10, 40, 0, 0, 0, 1, 2, 3])).is_err());
    // back-reference before the start
    assert!(decompress(Cur::new(&[0x10, 40, 0, 0, 0x80, 0x00, 0x00])).is_err());
    // back-reference past the declared size
    let mut s = vec![0x10, 40, 0, 0, 0x01];
    s.extend_from_slice(&[1u8; 7]);
    s.extend_from_slice(&[0xf0, 0x00]);
    s.push(0);
    s.extend_from_slice(&[1u8; 8]);
    s.push(0x80);
    s.extend_from_slice(&[0xf0, 0x00]);
    assert!(decompress(Cur::new(&s)).is_err());
    // empty input
    assert!(decompress(Cur::new(&[])).is_err());
}

#[test]
fn decompress_starting_mid_buffer() {
    let mut s = vec![0xff, 0xff, 0x10, 40, 0, 0];
    for _ in 0..5 {
        s.push(0);
        s.extend_from_slice(&[3u8; 8]);
    }
    let r = decompress(Cur::from_buf_pos(&s, 2)).ok().unwrap();
    assert_eq!(r.data, vec![3u8; 40]);
    assert_eq!(r.end_cur.pos(), s.len());
}
