use ogito::manifest::{validate_template_name, Manifest, Template, TemplateMap};

#[test]
fn manifest_test_add_template() {
    let mut config = Manifest::default();
    let template = Template {
        description: Some("A test template".to_string()),
        alias: Some("test".to_string()),
        url: "https://example.com/test.git".to_string(),
    };
    config.add_template("my-template".to_string(), template.clone());
    assert_eq!(config.templates.len(), 1);
    let retrieved_template = config.templates.get("my-template").unwrap();
    assert_eq!(*retrieved_template, template);
}

#[test]
fn test_remove_template_by_name() {
    let mut config = Manifest::default();
    let template = Template {
        description: Some("A test template".to_string()),
        alias: Some("test-alias".to_string()),
        url: "https://example.com/test.git".to_string(),
    };
    config.add_template("my-template".to_string(), template.clone());
    assert_eq!(config.templates.len(), 1);

    let removed = config.remove_template(&"my-template".to_string());
    assert!(removed.is_some());
    assert_eq!(removed.unwrap(), template);
    assert_eq!(config.templates.len(), 0);
}

#[test]
fn test_remove_template_by_alias() {
    let mut config = Manifest::default();
    let template = Template {
        description: Some("A test template".to_string()),
        alias: Some("test-alias".to_string()),
        url: "https://example.com/test.git".to_string(),
    };
    config.add_template("my-template".to_string(), template.clone());
    assert_eq!(config.templates.len(), 1);

    let removed = config.remove_template(&"test-alias".to_string());
    assert!(removed.is_some());
    assert_eq!(removed.unwrap(), template);
    assert_eq!(config.templates.len(), 0);
}

#[test]
fn test_remove_template_not_found() {
    let mut config = Manifest::default();
    let template = Template {
        description: Some("A test template".to_string()),
        alias: Some("test-alias".to_string()),
        url: "https://example.com/test.git".to_string(),
    };
    config.add_template("my-template".to_string(), template);
    assert_eq!(config.templates.len(), 1);

    let removed = config.remove_template(&"non-existent".to_string());
    assert!(removed.is_none());
    assert_eq!(config.templates.len(), 1);
}

#[test]
fn test_remove_template_prefers_name_over_alias() {
    let mut config = Manifest::default();
    let template1 = Template {
        description: Some("Template 1".to_string()),
        alias: Some("shared-alias".to_string()),
        url: "https://example.com/template1.git".to_string(),
    };
    let template2 = Template {
        description: Some("Template 2".to_string()),
        alias: None,
        url: "https://example.com/template2.git".to_string(),
    };

    config.add_template("shared-alias".to_string(), template1.clone());
    config.add_template("template2".to_string(), template2.clone());
    assert_eq!(config.templates.len(), 2);

    // Should remove by exact name "shared-alias" rather than by alias
    let removed = config.remove_template(&"shared-alias".to_string());
    assert!(removed.is_some());
    assert_eq!(removed.unwrap(), template1);
    assert_eq!(config.templates.len(), 1);
}

#[test]
fn test_find_template_by_alias() {
    let mut templates = TemplateMap::new();
    templates.insert(
        "test-template".to_string(),
        Template {
            description: Some("Test template".to_string()),
            alias: Some("test".to_string()),
            url: "https://example.com/test.git".to_string(),
        },
    );

    let manifest = Manifest { templates };

    // Test finding by exact name
    assert_eq!(
        manifest.find(&"test-template".to_string()),
        Some(&"test-template".to_string())
    );

    // Test finding by alias
    assert_eq!(
        manifest.find(&"test".to_string()),
        Some(&"test-template".to_string())
    );

    // Test not found
    assert_eq!(manifest.find(&"nonexistent".to_string()), None);
}

#[test]
fn alias_resolves_until_removed() {
    let mut manifest = Manifest::default();
    manifest.add_template(
        "tmpl".to_string(),
        Template {
            description: None,
            alias: Some("t".to_string()),
            url: "https://example.com/tmpl.git".to_string(),
        },
    );
    assert_eq!(manifest.find(&"t".to_string()), Some(&"tmpl".to_string()));

    let removed = manifest.remove_template(&"t".to_string());
    assert!(removed.is_some());
    assert_eq!(manifest.find(&"tmpl".to_string()), None);
}

#[test]
fn template_names_must_stay_in_the_store() {
    assert!(validate_template_name("my-template").is_ok());
    assert!(validate_template_name("owner/repo").is_ok());
    let err = validate_template_name("../escape").unwrap_err();
    assert_eq!(err.kind, ogito::ErrorKind::Input);
    assert!(validate_template_name("/absolute").is_err());
    assert!(validate_template_name("a/../b").is_err());
}
