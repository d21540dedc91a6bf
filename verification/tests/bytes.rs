use ql_link_lab::bytes::{read_be16, read_be32, to_be16, to_be32};

#[test]
fn sixteen_bits() {
    assert_eq!(to_be16(0x1234), [0x12, 0x34]);
    assert_eq!(read_be16(0x12, 0x34), 0x1234);
    for n in [0, 1, 255, 256, 0xffff] {
        let b = to_be16(n);
        assert_eq!(b, n.to_be_bytes());
        assert_eq!(read_be16(b[0], b[1]), n);
    }
}

#[test]
fn thirty_two_bits() {
    assert_eq!(to_be32(0x12345678), [0x12, 0x34, 0x56, 0x78]);
    assert_eq!(read_be32(&[0x12, 0x34, 0x56, 0x78, 0x9a]), 0x12345678);
    for n in [0, 1, 255, 256, 65535, 65536, 0xff00_ff00, u32::MAX] {
        assert_eq!(to_be32(n), n.to_be_bytes());
        assert_eq!(read_be32(&to_be32(n)), n);
    }
}
