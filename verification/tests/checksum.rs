use pxu_gui::checksum::{hex_lower_string, md5_hex};

#[test]
fn hex_writes_two_lower_case_digits_per_byte() {
    assert_eq!(hex_lower_string(&[]), "");
    assert_eq!(hex_lower_string(&[0x00, 0x0f, 0xa5, 0xff]), "000fa5ff");
}

#[test]
fn md5_of_known_inputs() {
    assert_eq!(md5_hex(b""), "d41d8cd98f00b204e9800998ecf8427e");
    assert_eq!(md5_hex(b"abc"), "900150983cd24fb0d6963f7d28e17f72");
    assert_eq!(md5_hex(b"abc").len(), 32);
}
