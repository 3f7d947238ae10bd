use enpose_api::c_api::{device_to_c, ipv4_to_text, text_to_c_field, EnposeStatus, IP_BUF_LEN};
use enpose_api::devicediscovery::DeviceInfo;

#[test]
fn device_to_c_writes_null_terminated_ip() {
    let info = DeviceInfo { ip: [192, 168, 10, 10], serial: 0x1234, compatible: true };
    let c = device_to_c(&info);
    // Read the buffer up to the null terminator.
    let bytes: Vec<u8> = c.ip.iter().take_while(|&&b| b != 0).copied().collect();
    assert_eq!(String::from_utf8(bytes).unwrap(), "192.168.10.10");
    assert_eq!(c.serial, 0x1234);
    assert!(c.compatible);
}

#[test]
fn status_codes() {
    assert_eq!(EnposeStatus::Success.code(), 0);
    assert_eq!(EnposeStatus::InvalidArg.code(), -1);
    assert_eq!(EnposeStatus::Io.code(), -2);
    assert_eq!(EnposeStatus::Panic.code(), -3);
}

#[test]
fn ipv4_text_has_no_leading_zeros() {
    assert_eq!(ipv4_to_text(&[0, 9, 10, 255]), b"0.9.10.255".to_vec());
    assert_eq!(ipv4_to_text(&[100, 1, 20, 3]), b"100.1.20.3".to_vec());
}

#[test]
fn long_text_is_cut_to_leave_the_terminator() {
    let long = [b'a'; 60];
    let field = text_to_c_field(&long);
    assert_eq!(field.len(), IP_BUF_LEN);
    assert!(field[..IP_BUF_LEN - 1].iter().all(|&b| b == b'a'));
    assert_eq!(field[IP_BUF_LEN - 1], 0);
}
