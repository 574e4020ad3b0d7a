use ogito::cmd::add::config::{TempConfig, Template, TomlConfig};

#[test]
fn config_test_add_template() {
    let mut config = TempConfig::new();
    let template = Template {
        description: Some("A test template".to_string()),
        alias: Some("test".to_string()),
        url: "https://example.com/test.git".to_string(),
    };
    config.add_template("my-template".to_string(), template.clone());
    assert_eq!(config.templates.len(), 1);
    let retrieved_template = config.templates.get("my-template").unwrap();
    assert_eq!(*retrieved_template, template);
}

#[test]
fn toml_config_keeps_its_path() {
    let config = TomlConfig::new("/tmp/template.toml".to_string());
    assert_eq!(config.path(), "/tmp/template.toml");
}
