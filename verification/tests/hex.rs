use lemurs::hex::{bytes_to_hex, bytes_to_hex_truncated};

#[test]
fn hexadecimal_rendering() {
    assert_eq!(bytes_to_hex(&[]), "");
    assert_eq!(bytes_to_hex(&[0x00]), "00");
    assert_eq!(bytes_to_hex(&[0x0a, 0xf0, 0x9b]), "0af09b");
    assert_eq!(
        bytes_to_hex(&[0x01, 0x23, 0x45, 0x67, 0x89, 0xab, 0xcd, 0xef]),
        "0123456789abcdef"
    );
}

#[test]
fn truncated_rendering() {
    let bytes: Vec<u8> = (0..20).collect();
    assert_eq!(bytes_to_hex_truncated(&bytes, 20), bytes_to_hex(&bytes));
    assert_eq!(bytes_to_hex_truncated(&bytes, 100), bytes_to_hex(&bytes));
    assert_eq!(
        bytes_to_hex_truncated(&bytes, 16),
        "000102030405060708090a0b0c0d0e0f..."
    );
    assert_eq!(
        bytes_to_hex_truncated(&bytes, 3),
        "000102030405060708090a0b0c0d0e0f..."
    );
    assert_eq!(bytes_to_hex_truncated(&[1, 2], 2), "0102");
    assert_eq!(bytes_to_hex_truncated(&bytes[..16], 0), bytes_to_hex(&bytes[..16]) + "...");
}
