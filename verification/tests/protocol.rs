use halpid::protocol::{
    DCIN_MAX_UV, DFUState, PowerState, TEMP_RANGE_UK, analog_word_to_micro, celsius_to_kelvin,
    decode_u32, decode_word, encode_u32, encode_word, kelvin_to_celsius, micro_to_analog_word,
};

#[test]
fn test_encode_decode_word() {
    let value: u16 = 0x1234;
    let bytes = encode_word(value);
    assert_eq!(bytes, [0x12, 0x34]);
    assert_eq!(decode_word(&bytes).unwrap(), value);
}

#[test]
fn test_encode_decode_u32() {
    let value: u32 = 0x12345678;
    let bytes = encode_u32(value);
    assert_eq!(bytes, [0x12, 0x34, 0x56, 0x78]);
    assert_eq!(decode_u32(&bytes).unwrap(), value);
}

#[test]
fn test_decode_insufficient_data() {
    assert!(decode_word(&[0x12]).is_err());
    assert!(decode_u32(&[0x12, 0x34]).is_err());
}

#[test]
fn test_power_state_conversion() {
    assert_eq!(PowerState::from_byte(0).unwrap(), PowerState::PowerOff);
    assert_eq!(
        PowerState::from_byte(3).unwrap(),
        PowerState::OperationalSolo
    );
    assert_eq!(PowerState::from_byte(13).unwrap(), PowerState::Standby);
    assert!(PowerState::from_byte(14).is_err());

    assert_eq!(PowerState::PowerOff.to_byte(), 0);
    assert_eq!(PowerState::Standby.to_byte(), 13);
}

#[test]
fn test_power_state_names() {
    assert_eq!(PowerState::PowerOff.name(), "PowerOff");
    assert_eq!(PowerState::OperationalSolo.name(), "OperationalSolo");
    assert_eq!(PowerState::Standby.name(), "Standby");
}

#[test]
fn test_dfu_state_conversion() {
    assert_eq!(DFUState::from_byte(0).unwrap(), DFUState::Idle);
    assert_eq!(DFUState::from_byte(4).unwrap(), DFUState::ReadyToCommit);
    assert_eq!(DFUState::from_byte(8).unwrap(), DFUState::ProtocolError);
    assert!(DFUState::from_byte(9).is_err());

    assert_eq!(DFUState::Idle.to_byte(), 0);
    assert_eq!(DFUState::ProtocolError.to_byte(), 8);
}

#[test]
fn test_analog_word_scaling() {
    // Half scale of the 40 V input range is 20 V.
    let raw: u16 = 32768;
    let microvolts = analog_word_to_micro(raw, DCIN_MAX_UV);
    assert_eq!(microvolts, 20_000_000);

    // Round trip back to the raw word.
    let raw_back = micro_to_analog_word(microvolts, DCIN_MAX_UV);
    assert_eq!(raw_back, raw);
}

#[test]
fn test_analog_word_scaling_saturates() {
    assert_eq!(micro_to_analog_word(DCIN_MAX_UV, DCIN_MAX_UV), 65535);
    assert_eq!(micro_to_analog_word(0, DCIN_MAX_UV), 0);
    // A value within half a raw step of the full scale rounds up to the
    // top word rather than past it.
    assert_eq!(micro_to_analog_word(199_999, 200_000), 65535);
}

#[test]
fn test_analog_word_roundtrip_is_identity() {
    // Decoding truncates to whole micro-units; the rounding encoder still
    // recovers every raw word exactly, even the smallest.
    for raw in [0u16, 1, 2, 77, 4095, 32767, 65534, 65535] {
        for scale in [3_300_000u32, 11_000_000, 40_000_000, 140_000_000] {
            let micro = analog_word_to_micro(raw, scale);
            assert_eq!(micro_to_analog_word(micro, scale), raw);
        }
    }
}

#[test]
fn test_temperature_conversion() {
    // 0 C is 273.15 K.
    assert_eq!(celsius_to_kelvin(0), 273_150_000);
    assert_eq!(kelvin_to_celsius(273_150_000), 0);

    // 25 C is 298.15 K.
    let kelvin = celsius_to_kelvin(25_000_000);
    assert_eq!(kelvin, 298_150_000);
    assert_eq!(kelvin_to_celsius(kelvin), 25_000_000);
}

#[test]
fn test_temperature_scaling() {
    // Temperature is stored as the offset from the range minimum: for 25 C
    // (298.15 K) the offset from 233.15 K is 65 K.
    let temp_kelvin = celsius_to_kelvin(25_000_000);
    let offset = temp_kelvin - 233_150_000;

    let raw = micro_to_analog_word(offset, TEMP_RANGE_UK);
    let decoded_offset = analog_word_to_micro(raw, TEMP_RANGE_UK);
    let decoded_kelvin = decoded_offset + 233_150_000;
    let decoded_celsius = kelvin_to_celsius(decoded_kelvin);

    // Within half a degree of the original.
    assert!((decoded_celsius - 25_000_000).abs() < 500_000);
}
