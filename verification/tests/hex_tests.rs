use proxmox_api::bin_to_hex;
use proxmox_api::digest_to_hex;
use proxmox_api::hex_nibble_to_byte;
use proxmox_api::hex_to_bin;
use proxmox_api::hex_to_bin_exact;
use proxmox_api::hex_to_digest;
use proxmox_api::AsHex;
use proxmox_api::HexError;

#[test]
fn test_hex() {
    let mut out = vec![0u8; 5];
    hex_to_bin_exact("abCA01239f", &mut out).expect("failed to parse hex digit");
    assert_eq!(out, vec![0xab, 0xca, 0x01, 0x23, 0x9f]);
    let v = hex_to_bin("abCA01239f").expect("failed to parse hex digit");
    assert_eq!(v, out);

    hex_to_bin_exact("abca01239", &mut out).expect_err("parsed invalid hex string");
    hex_to_bin_exact("abca01239fa", &mut out).expect_err("parsed invalid hex string");
    hex_to_bin_exact("abca0x239f", &mut out).expect_err("parsed invalid hex string");
}

#[test]
fn bin_to_hex_renders_lower_case_pairs() {
    assert_eq!(bin_to_hex(&[1, 2, 0xff]), "0102ff");
    assert_eq!(digest_to_hex(&[0xde, 0xad]), "dead");
    assert_eq!(bin_to_hex(&[]), "");
}

#[test]
fn as_hex_display_len_and_string() {
    let data = [0u8, 0x10, 0xab];
    assert_eq!(AsHex(&data).display_len(), 6);
    assert_eq!(AsHex(&data).to_hex_string(), "0010ab");
}

#[test]
fn hex_nibble_values_and_errors() {
    assert_eq!(hex_nibble_to_byte(b'0'), Ok(0));
    assert_eq!(hex_nibble_to_byte(b'9'), Ok(9));
    assert_eq!(hex_nibble_to_byte(b'a'), Ok(10));
    assert_eq!(hex_nibble_to_byte(b'F'), Ok(15));
    assert_eq!(hex_nibble_to_byte(b'x'), Err(HexError::NotHexDigit(b'x')));
}

#[test]
fn hex_length_error_names_both_lengths() {
    let mut out = vec![0u8; 2];
    assert_eq!(
        hex_to_bin_exact("abc", &mut out),
        Err(HexError::InvalidLength(3, 4))
    );
}

#[test]
fn hex_to_digest_round_trip() {
    let hex = "0123456789abcdef0123456789abcdef0123456789abcdef0123456789abcdef";
    let digest = hex_to_digest(hex).expect("failed to parse digest");
    assert_eq!(digest_to_hex(&digest), hex);
    assert!(hex_to_digest("0011").is_err());
}
