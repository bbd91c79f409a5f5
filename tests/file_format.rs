use sixty_challenge_days::file_format::{Config, FormatError, Setting, SettingValue};

#[test]
fn should_retrieve_the_correct_setting_value_type() {
    let mut config = Config::new(None);
    config.insert("teste".to_string(), SettingValue::Boolean(true));
    config.insert("teste2".to_string(), SettingValue::Number(242));

    let number_setting = config.get_number_setting("teste2").unwrap().to_string();

    assert_eq!(number_setting, "242")
}

#[test]
fn should_parser_setting_error() {
    let setting = "key value";
    let setting = Setting::parse(setting);

    assert_eq!(
        setting,
        Err(FormatError::InvalidFormat(
            "Invalid File format! Expect key=value format, receives: key value".to_string()
        ))
    )
}

#[test]
fn setting_should_parser_setting() {
    let setting = "key = true";
    let setting = Setting::parse(setting);

    assert_eq!(
        setting,
        Ok(Setting {
            key: "key".to_string(),
            value: SettingValue::Boolean(true),
        },)
    )
}

#[test]
fn setting_values_read_as_number_boolean_or_text() {
    assert_eq!(
        SettingValue::convert_to_valid_type("-17"),
        Ok(SettingValue::Number(-17))
    );
    assert_eq!(
        SettingValue::convert_to_valid_type("false"),
        Ok(SettingValue::Boolean(false))
    );
    assert_eq!(
        SettingValue::convert_to_valid_type("teste"),
        Ok(SettingValue::String("teste".to_string()))
    );
    assert_eq!(
        SettingValue::convert_to_valid_type("99999999999"),
        Ok(SettingValue::String("99999999999".to_string()))
    );
}

#[test]
fn two_equal_signs_are_refused() {
    assert_eq!(
        Setting::parse("a=b=c"),
        Err(FormatError::InvalidFormat(
            "Invalid File format! Expect key=value format, receives: a=b=c".to_string()
        ))
    );
}

#[test]
fn later_insert_replaces_earlier() {
    let mut config = Config::new(Some(4));
    assert_eq!(config.get_setting("k"), None);
    config.insert("k".to_string(), SettingValue::Number(1));
    config.insert("k".to_string(), SettingValue::String("x".to_string()));
    assert_eq!(
        config.get_setting("k"),
        Some(&SettingValue::String("x".to_string()))
    );
    assert_eq!(config.get_number_setting("k"), None);
}

#[test]
fn config_should_parser_setting() {
    let config = Config::parse("key=teste\nkey=true\n\true=false");
    let config = config.unwrap();
    assert_eq!(config.get_setting("key"), Some(&SettingValue::Boolean(true)));
    assert_eq!(config.get_setting("rue"), Some(&SettingValue::Boolean(false)));
    assert_eq!(config.get_setting("teste"), None);
}

#[test]
fn first_malformed_line_refuses_the_text() {
    assert_eq!(
        Config::parse("a=1\nbroken\nalso broken\n").err(),
        Some(FormatError::InvalidFormat(
            "Invalid File format! Expect key=value format, receives: broken".to_string()
        ))
    );
    assert!(Config::parse("").is_ok());
}
