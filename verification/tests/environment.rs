use denial::environment::legacy_alias;

#[test]
fn denial_variables_get_legacy_names() {
    assert_eq!(legacy_alias(b"DENIAL_START_LOCKED").as_deref(), Some("DENIA_START_LOCKED"));
    assert_eq!(legacy_alias(b"DENIAL_").as_deref(), Some("DENIA_"));
    assert_eq!(legacy_alias(b"HOME"), None);
    assert_eq!(legacy_alias(b"DENIA"), None);
    assert_eq!(legacy_alias(&[0x44, 0xff]), None);
}
