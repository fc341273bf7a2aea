use scope_protocol::command::{
    identity_plan, push_decimal, screenshot_plan, waveform_plan, Command, Reply, DATA_QUERY,
    FORMAT_BYTE, IDENTITY_QUERY, INK_SAVER_OFF, POINTS_COUNT, POINTS_MODE_RAW, PREAMBLE_QUERY,
    SCREEN_IMAGE_QUERY, SOURCE_CHANNEL,
};

fn decimal(n: u64) -> Vec<u8> {
    let mut out = Vec::new();
    push_decimal(&mut out, n);
    out
}

#[test]
fn directives_are_spelled_as_the_firmware_expects() {
    assert_eq!(IDENTITY_QUERY, "*IDN?");
    assert_eq!(INK_SAVER_OFF, ":HARDcopy:INKSaver OFF");
    assert_eq!(SCREEN_IMAGE_QUERY, ":DISP:DATA? PNG, COLor");
    assert_eq!(POINTS_MODE_RAW, ":WAVeform:POINts:MODE RAW");
    assert_eq!(POINTS_COUNT, ":WAVeform:POINts 10240");
    assert_eq!(SOURCE_CHANNEL, ":WAVeform:SOURce CHANnel");
    assert_eq!(FORMAT_BYTE, ":WAVeform:FORMat BYTE");
    assert_eq!(PREAMBLE_QUERY, ":WAVeform:PREamble?");
    assert_eq!(DATA_QUERY, ":WAVeform:DATA?");
}

#[test]
fn new_command_holds_the_bytes_of_its_text() {
    let c = Command::new("*IDN?", Reply::Text);
    assert_eq!(c.bytes, b"*IDN?".to_vec());
    assert_eq!(c.reply, Reply::Text);
}

#[test]
fn decimal_digits_of_small_numbers() {
    assert_eq!(decimal(0), b"0".to_vec());
    assert_eq!(decimal(7), b"7".to_vec());
    assert_eq!(decimal(9), b"9".to_vec());
    assert_eq!(decimal(10), b"10".to_vec());
    assert_eq!(decimal(99), b"99".to_vec());
    assert_eq!(decimal(100), b"100".to_vec());
    assert_eq!(decimal(10240), b"10240".to_vec());
}

#[test]
fn decimal_digits_of_the_largest_number() {
    assert_eq!(decimal(u64::MAX), b"18446744073709551615".to_vec());
}

#[test]
fn decimal_digits_agree_with_the_standard_rendering() {
    let mut n: u64 = 1;
    for _ in 0..64 {
        assert_eq!(decimal(n), n.to_string().into_bytes());
        assert_eq!(decimal(n - 1), (n - 1).to_string().into_bytes());
        n = n.wrapping_mul(3).wrapping_add(7);
    }
}

#[test]
fn decimal_digits_are_appended() {
    let mut out = b"CH".to_vec();
    push_decimal(&mut out, 42);
    assert_eq!(out, b"CH42".to_vec());
}

#[test]
fn source_command_names_the_channel() {
    let c = Command::source(1);
    assert_eq!(c.bytes, b":WAVeform:SOURce CHANnel1".to_vec());
    assert_eq!(c.reply, Reply::Nothing);
    assert_eq!(Command::source(12).bytes, b":WAVeform:SOURce CHANnel12".to_vec());
    assert_eq!(Command::source(0).bytes, b":WAVeform:SOURce CHANnel0".to_vec());
}

#[test]
fn identity_plan_is_one_text_query() {
    let plan = identity_plan();
    assert_eq!(plan, vec![Command { bytes: b"*IDN?".to_vec(), reply: Reply::Text }]);
}

#[test]
fn screenshot_plan_sets_up_then_asks() {
    let plan = screenshot_plan();
    assert_eq!(
        plan,
        vec![
            Command { bytes: b":HARDcopy:INKSaver OFF".to_vec(), reply: Reply::Nothing },
            Command { bytes: b":DISP:DATA? PNG, COLor".to_vec(), reply: Reply::Block },
        ]
    );
}

#[test]
fn waveform_plan_sets_up_then_asks_twice() {
    let plan = waveform_plan(3);
    assert_eq!(
        plan,
        vec![
            Command { bytes: b":WAVeform:POINts:MODE RAW".to_vec(), reply: Reply::Nothing },
            Command { bytes: b":WAVeform:POINts 10240".to_vec(), reply: Reply::Nothing },
            Command { bytes: b":WAVeform:SOURce CHANnel3".to_vec(), reply: Reply::Nothing },
            Command { bytes: b":WAVeform:FORMat BYTE".to_vec(), reply: Reply::Nothing },
            Command { bytes: b":WAVeform:PREamble?".to_vec(), reply: Reply::Text },
            Command { bytes: b":WAVeform:DATA?".to_vec(), reply: Reply::Block },
        ]
    );
}

#[test]
fn plans_are_the_same_each_time() {
    assert_eq!(waveform_plan(2), waveform_plan(2));
    assert_eq!(screenshot_plan(), screenshot_plan());
    assert_eq!(identity_plan(), identity_plan());
    assert_ne!(waveform_plan(1), waveform_plan(2));
}
