use p2pchat::settings::{Setting, SettingValue, Settings};

fn string_setting(v: Option<&str>) -> Setting {
    Setting { constraints: None, value: SettingValue::String(v.map(|s| s.to_string())) }
}

#[test]
fn empty_settings_have_no_entries() {
    let settings = Settings::new();
    assert!(settings.get("name").is_none());
    assert!(settings.display_name().is_none());
}

#[test]
fn insert_then_get_returns_the_value() {
    let mut settings = Settings::new();
    settings.insert("name".to_string(), string_setting(Some("Mark")));
    settings.insert("volume".to_string(), Setting { constraints: None, value: SettingValue::Int(7) });
    let setting = settings.get("name").expect("inserted key is present");
    match setting.get_value() {
        SettingValue::String(Some(n)) => assert_eq!(n, "Mark"),
        _ => panic!("expected the stored string value"),
    }
    let setting = settings.get("volume").expect("inserted key is present");
    assert!(matches!(setting.get_value(), SettingValue::Int(7)));
    assert!(settings.get("unknown").is_none());
}

#[test]
fn insert_replaces_an_existing_value() {
    let mut settings = Settings::new();
    settings.insert("name".to_string(), string_setting(Some("Mark")));
    settings.insert("name".to_string(), string_setting(Some("Maria")));
    assert_eq!(settings.display_name().expect("name is set"), "Maria");
}

#[test]
fn apply_defaults_fills_only_missing_options() {
    let mut settings = Settings::new();
    settings.apply_defaults();
    let setting = settings.get("name").expect("the default name entry exists");
    assert!(matches!(setting.get_value(), SettingValue::String(None)));
    assert!(settings.display_name().is_none());

    let mut settings = Settings::new();
    settings.insert("name".to_string(), string_setting(Some("Mark")));
    settings.apply_defaults();
    assert_eq!(settings.display_name().expect("kept"), "Mark");
}

#[test]
fn response_name_falls_back_to_anonymous() {
    let settings = Settings::new();
    assert_eq!(settings.response_name(), "Anonymous");
    let mut settings = Settings::new();
    settings.insert("name".to_string(), string_setting(None));
    assert_eq!(settings.response_name(), "Anonymous");
    let mut settings = Settings::new();
    settings.insert("name".to_string(), string_setting(Some("Mark")));
    assert_eq!(settings.response_name(), "Mark");
}

#[test]
fn bool_setting_round_trips_through_get_value() {
    let mut settings = Settings::new();
    settings.insert(
        "dark_mode".to_string(),
        Setting { constraints: None, value: SettingValue::Bool(true) },
    );
    let setting = settings.get("dark_mode").expect("present");
    assert!(matches!(setting.get_value(), SettingValue::Bool(true)));
}
