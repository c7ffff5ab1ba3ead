use spaz::config::{load_configuration, Config, ConfigError, ConfigValue, Probability};

#[test]
fn defaults_are_fixed() {
    let c = Config::default();
    assert!(c.active);
    assert_eq!(c.rpc_path, "lightning-rpc");
    assert_eq!(c.open_probability, Probability { ppm: 10_000 });
    assert_eq!(c.close_probability, Probability { ppm: 500 });
}

#[test]
fn on_load_boolean_is_applied() {
    let mut c = Config::default();
    let r = load_configuration(&mut c, ConfigValue::Boolean(true), ConfigValue::Absent);
    assert!(r.is_ok());
    assert!(c.active);

    let r = load_configuration(&mut c, ConfigValue::Boolean(false), ConfigValue::Absent);
    assert!(r.is_ok());
    assert!(!c.active);
}

#[test]
fn missing_on_load_disables() {
    let mut c = Config::default();
    let r = load_configuration(&mut c, ConfigValue::Absent, ConfigValue::Absent);
    assert!(r.is_ok());
    assert!(!c.active);
}

#[test]
fn non_boolean_on_load_is_a_fatal_error() {
    let mut c = Config::default();
    let r = load_configuration(&mut c, ConfigValue::Integer(1), ConfigValue::Absent);
    assert_eq!(r, Err(ConfigError::InvalidActiveFlag));
    // The configuration is left untouched.
    assert!(c.active);
    assert_eq!(c.rpc_path, "lightning-rpc");
}

#[test]
fn endpoint_text_is_applied() {
    let mut c = Config::default();
    let r = load_configuration(
        &mut c,
        ConfigValue::Boolean(true),
        ConfigValue::Text(String::from("/tmp/rpc")),
    );
    assert!(r.is_ok());
    assert_eq!(c.rpc_path, "/tmp/rpc");
}

#[test]
fn malformed_endpoint_falls_back_to_the_default() {
    let mut c = Config::default();
    let r = load_configuration(&mut c, ConfigValue::Boolean(true), ConfigValue::Integer(7));
    assert!(r.is_ok());
    assert_eq!(c.rpc_path, "lightning-rpc");
}

#[test]
fn set_active_toggles_only_the_flag() {
    let mut c = Config::default();
    c.set_active(false);
    assert!(!c.active);
    assert_eq!(c.rpc_path, "lightning-rpc");
    c.set_active(true);
    assert!(c.active);
    assert_eq!(c.open_probability, Probability { ppm: 10_000 });
}
