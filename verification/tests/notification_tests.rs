use backlight::notification::get_notification_id;
use backlight::notification::notification_id_text;

#[test]
fn a_stored_identity_is_read() {
    assert_eq!(get_notification_id("0"), Some(0));
    assert_eq!(get_notification_id("17"), Some(17));
    assert_eq!(get_notification_id("4294967295"), Some(u32::MAX));
}

#[test]
fn contents_that_are_no_number_are_no_identity() {
    assert_eq!(get_notification_id("abc"), None);
    assert_eq!(get_notification_id(""), None);
    assert_eq!(get_notification_id("17x"), None);
    assert_eq!(get_notification_id("-17"), None);
    assert_eq!(get_notification_id("1.0"), None);
    assert_eq!(get_notification_id("4294967296"), None);
}

#[test]
fn nothing_is_trimmed_from_a_stored_identity() {
    assert_eq!(get_notification_id("17\n"), None);
    assert_eq!(get_notification_id(" 17"), None);
}

#[test]
fn the_text_of_an_identity_is_its_decimal_form() {
    assert_eq!(notification_id_text(0), "0");
    assert_eq!(notification_id_text(17), "17");
    assert_eq!(notification_id_text(u32::MAX), "4294967295");
}

#[test]
fn a_stored_identity_is_read_back() {
    for id in [0u32, 1, 10, 65_535, 123_456_789, u32::MAX] {
        assert_eq!(get_notification_id(&notification_id_text(id)), Some(id));
    }
}
