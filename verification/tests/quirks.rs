use chip8::error::Chip8Error;
use chip8::quirks::Quirks;
use config::Config;

fn settings(entries: &[(&str, bool)]) -> Config {
    let mut builder = Config::builder();
    for (key, value) in entries {
        builder = builder.set_override(*key, *value).unwrap();
    }
    builder.build().unwrap()
}

#[test]
fn quirks_come_from_the_three_settings() {
    let loaded = settings(&[("shift_quirk", true), ("jump_quirk", false), ("memory_quirk", true)]);
    assert_eq!(
        Quirks::from_settings(&loaded),
        Some(Quirks { shift_quirk: true, jump_quirk: false, memory_quirk: true })
    );
    let loaded = settings(&[("shift_quirk", false), ("jump_quirk", true), ("memory_quirk", false)]);
    assert_eq!(
        Quirks::from_settings(&loaded),
        Some(Quirks { shift_quirk: false, jump_quirk: true, memory_quirk: false })
    );
}

#[test]
fn a_missing_setting_gives_no_quirks() {
    assert_eq!(Quirks::from_settings(&settings(&[])), None);
    assert_eq!(
        Quirks::from_settings(&settings(&[("shift_quirk", true), ("jump_quirk", true)])),
        None
    );
    assert_eq!(
        Quirks::from_settings(&settings(&[("shift_quirk", true), ("memory_quirk", true)])),
        None
    );
    assert_eq!(
        Quirks::from_settings(&settings(&[("jump_quirk", true), ("memory_quirk", true)])),
        None
    );
}

#[test]
fn a_setting_that_is_no_boolean_gives_no_quirks() {
    let loaded = Config::builder()
        .set_override("shift_quirk", "sometimes")
        .unwrap()
        .set_override("jump_quirk", true)
        .unwrap()
        .set_override("memory_quirk", true)
        .unwrap()
        .build()
        .unwrap();
    assert_eq!(Quirks::from_settings(&loaded), None);
}

#[test]
fn quirks_from_flags() {
    assert_eq!(
        Quirks::from_flags(Some(true), Some(false), Some(false)),
        Some(Quirks { shift_quirk: true, jump_quirk: false, memory_quirk: false })
    );
    assert_eq!(
        Quirks::from_flags(Some(false), Some(true), Some(false)),
        Some(Quirks { shift_quirk: false, jump_quirk: true, memory_quirk: false })
    );
    assert_eq!(
        Quirks::from_flags(Some(false), Some(false), Some(true)),
        Some(Quirks { shift_quirk: false, jump_quirk: false, memory_quirk: true })
    );
    assert_eq!(Quirks::from_flags(None, Some(true), Some(true)), None);
    assert_eq!(Quirks::from_flags(Some(true), None, Some(true)), None);
    assert_eq!(Quirks::from_flags(Some(true), Some(true), None), None);
    assert_eq!(Quirks::from_flags(None, None, None), None);
}

#[test]
fn settings_read_words_and_numbers_as_booleans() {
    let loaded = Config::builder()
        .set_override("shift_quirk", "yes")
        .unwrap()
        .set_override("jump_quirk", 0)
        .unwrap()
        .set_override("memory_quirk", "ON")
        .unwrap()
        .build()
        .unwrap();
    assert_eq!(
        Quirks::from_settings(&loaded),
        Some(Quirks { shift_quirk: true, jump_quirk: false, memory_quirk: true })
    );
}

#[test]
fn no_quirks_means_all_off() {
    assert_eq!(
        Quirks::none(),
        Quirks { shift_quirk: false, jump_quirk: false, memory_quirk: false }
    );
}

#[test]
fn error_messages() {
    assert_eq!(Chip8Error::UnknownOpcode(0x00FF).message(), "Unknown opcode: 0x00FF");
    assert_eq!(Chip8Error::UnknownOpcode(0x0000).message(), "Unknown opcode: 0x0000");
    assert_eq!(Chip8Error::UnknownOpcode(0xFFFF).message(), "Unknown opcode: 0xFFFF");
    assert_eq!(Chip8Error::UnknownOpcode(0x5AB1).message(), "Unknown opcode: 0x5AB1");
    assert_eq!(Chip8Error::UnknownOpcode(0x8C9D).message(), "Unknown opcode: 0x8C9D");
    assert_eq!(Chip8Error::StackUnderflow.message(), "Stack underflow");
    assert_eq!(Chip8Error::StackOverflow.message(), "Stack overflow");
    assert_eq!(Chip8Error::OutOfBounds.message(), "Address out of bounds");
}

#[test]
fn error_message_matches_the_formatter() {
    for opcode in [0x0000u16, 0x0001, 0x00E1, 0x0ABC, 0x5001, 0x800F, 0xE0FF, 0xF0FF, 0xFFFF] {
        assert_eq!(
            Chip8Error::UnknownOpcode(opcode).message(),
            format!("Unknown opcode: {:#06X}", opcode)
        );
    }
}
