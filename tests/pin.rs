use aranet::pin::{pin_from_reply, PinReply};

#[test]
fn data_line_gives_passkey() {
    assert_eq!(pin_from_reply("D 123456\n"), PinReply::Passkey(123456));
    assert_eq!(pin_from_reply("D 0042"), PinReply::Passkey(42));
}

#[test]
fn pin_field_is_six_characters_trimmed() {
    assert_eq!(pin_from_reply("D 1234567890"), PinReply::Passkey(123456));
    assert_eq!(pin_from_reply("D  12 \n"), PinReply::Passkey(12));
}

#[test]
fn empty_or_bad_pin_is_declined() {
    assert_eq!(pin_from_reply("D \n"), PinReply::Declined);
    assert_eq!(pin_from_reply("D "), PinReply::Declined);
    assert_eq!(pin_from_reply("D 12a4"), PinReply::Declined);
    assert_eq!(pin_from_reply("D 1 2"), PinReply::Declined);
}

#[test]
fn other_lines_are_not_data() {
    assert_eq!(pin_from_reply("OK Pleased to meet you"), PinReply::NotData);
    assert_eq!(pin_from_reply("D"), PinReply::NotData);
    assert_eq!(pin_from_reply(""), PinReply::NotData);
    assert_eq!(pin_from_reply("ERR 83886179 Operation cancelled"), PinReply::NotData);
}
