use wpa_handshake::mac::MacAddress;
use wpa_handshake::text::{to_decimal, to_hex};

#[test]
fn hex_is_lowercase_two_digits_per_byte() {
    assert_eq!(to_hex(&[0x00, 0x0f, 0xac, 0xff, 0x10]), "000facff10");
    assert_eq!(to_hex(&[]), "");
}

#[test]
fn decimal_has_no_leading_zeros() {
    assert_eq!(to_decimal(0), "0");
    assert_eq!(to_decimal(9), "9");
    assert_eq!(to_decimal(10), "10");
    assert_eq!(to_decimal(18446744073709551615), "18446744073709551615");
}

#[test]
fn mac_is_rendered_in_colon_separated_groups() {
    let mac = MacAddress([0xaa, 0xbb, 0xcc, 0xdd, 0xee, 0xff]);
    assert_eq!(mac.to_string(), "aa:bb:cc:dd:ee:ff");
    assert_eq!(MacAddress([0x01, 0x02, 0x03, 0x0a, 0x00, 0x10]).to_string(), "01:02:03:0a:00:10");
}
