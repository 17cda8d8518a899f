use xfce_rs::config::{ConfigChannel, ConfigError, ConfigValue, XfceConfig};

fn fresh() -> XfceConfig {
    XfceConfig::new("test_config.toml".to_string())
}

fn is_string(v: &ConfigValue, s: &str) -> bool {
    matches!(v, ConfigValue::String(x) if x == s)
}

#[test]
fn test_config_basic_operations() {
    let mut config = fresh();
    config.set_property("test", "string_prop", ConfigValue::String("test".to_string()));
    let value = config.get_property("test", "string_prop").unwrap();
    assert!(is_string(value, "test"));
    config.set_property("test", "int_prop", ConfigValue::Integer(42));
    let value = config.get_property("test", "int_prop").unwrap();
    assert!(matches!(value, ConfigValue::Integer(42)));
}

#[test]
fn test_channel_listing() {
    let mut config = fresh();
    config.set_property("channel1", "prop1", ConfigValue::Boolean(true));
    config.set_property("channel2", "prop2", ConfigValue::Float(3.14f64.to_bits()));
    let channels = config.list_channels();
    assert_eq!(channels.len(), 2);
    assert!(channels.contains(&"channel1".to_string()));
    assert!(channels.contains(&"channel2".to_string()));
}

#[test]
fn missing_properties_are_reported() {
    let mut config = fresh();
    match config.get_property("panel", "height") {
        Err(ConfigError::PropertyNotFound { channel, property }) => {
            assert_eq!(channel, "panel");
            assert_eq!(property, "height");
        }
        _ => panic!("expected PropertyNotFound"),
    }
    config.set_property("panel", "size", ConfigValue::Integer(48));
    assert!(matches!(config.get_property("panel", "height"), Err(ConfigError::PropertyNotFound { .. })));
    match config.list_properties("wm") {
        Err(ConfigError::PropertyNotFound { channel, property }) => {
            assert_eq!(channel, "wm");
            assert!(property.is_empty());
        }
        _ => panic!("expected PropertyNotFound"),
    }
}

#[test]
fn writes_replace_and_keep_the_rest() {
    let mut config = fresh();
    config.set_property("wm", "theme", ConfigValue::String("light".to_string()));
    config.set_property("wm", "workspaces", ConfigValue::Integer(4));
    config.set_property("wm", "theme", ConfigValue::String("dark".to_string()));
    assert!(is_string(config.get_property("wm", "theme").unwrap(), "dark"));
    assert!(matches!(config.get_property("wm", "workspaces").unwrap(), ConfigValue::Integer(4)));
    assert_eq!(config.list_properties("wm").unwrap(), vec!["theme".to_string(), "workspaces".to_string()]);
    assert_eq!(config.list_channels(), vec!["wm".to_string()]);
    config.set_property("panel", "items", ConfigValue::Array(vec![ConfigValue::Boolean(false)]));
    match config.get_property("panel", "items").unwrap() {
        ConfigValue::Array(v) => assert!(matches!(v.as_slice(), [ConfigValue::Boolean(false)])),
        _ => panic!("expected an array"),
    }
}

#[test]
fn default_configuration_file() {
    let config = XfceConfig::default();
    assert!(config.config_path.ends_with("xfce-rs/config.toml"));
    assert!(config.list_channels().is_empty());
}

#[test]
fn channel_properties_can_be_removed() {
    let mut ch = ConfigChannel::new();
    ch.set("a".to_string(), ConfigValue::Integer(1));
    ch.set("b".to_string(), ConfigValue::Integer(2));
    assert!(matches!(ch.remove("a"), Some(ConfigValue::Integer(1))));
    assert!(ch.get("a").is_none());
    assert!(matches!(ch.get("b"), Some(ConfigValue::Integer(2))));
    assert!(ch.remove("a").is_none());
}
