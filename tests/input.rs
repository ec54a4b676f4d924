use soft_uart_tx::{get_data, open_failure, OpenStage, UartError, EBUSY};

#[test]
fn hex_argument_decodes() {
    assert_eq!(get_data(None, Some("B562")), Ok(vec![0xB5, 0x62]));
}

#[test]
fn hex_argument_accepts_lower_case() {
    assert_eq!(get_data(None, Some("b5620aFf")), Ok(vec![0xB5, 0x62, 0x0A, 0xFF]));
}

#[test]
fn hex_digits_become_values_not_characters() {
    assert_eq!(get_data(None, Some("0a")), Ok(vec![10]));
}

#[test]
fn empty_hex_argument_is_empty_payload() {
    assert_eq!(get_data(None, Some("")), Ok(Vec::new()));
}

#[test]
fn odd_length_hex_is_input_error() {
    assert_eq!(get_data(None, Some("B5621")), Err(UartError::InputError));
}

#[test]
fn non_hex_character_is_input_error() {
    assert_eq!(get_data(None, Some("B5G2")), Err(UartError::InputError));
    assert_eq!(get_data(None, Some("é1")), Err(UartError::InputError));
}

#[test]
fn missing_data_is_input_error() {
    assert_eq!(get_data(None, None), Err(UartError::InputError));
}

#[test]
fn stdin_bytes_are_taken_as_they_are() {
    assert_eq!(get_data(Some(vec![0x00, 0xFF]), Some("zz")), Ok(vec![0x00, 0xFF]));
    assert_eq!(get_data(Some(Vec::new()), None), Ok(Vec::new()));
}

#[test]
fn controller_failure_is_hardware_unavailable() {
    assert_eq!(open_failure(OpenStage::Controller, Some(2)), UartError::HardwareUnavailable);
    assert_eq!(open_failure(OpenStage::Controller, None), UartError::HardwareUnavailable);
}

#[test]
fn line_held_elsewhere_is_busy() {
    assert_eq!(open_failure(OpenStage::Line, Some(EBUSY)), UartError::LineBusy);
    assert_eq!(EBUSY, 16);
}

#[test]
fn other_line_failure_is_invalid() {
    assert_eq!(open_failure(OpenStage::Line, Some(22)), UartError::LineInvalid);
    assert_eq!(open_failure(OpenStage::Line, None), UartError::LineInvalid);
}
