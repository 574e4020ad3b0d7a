use ogito::manifest::codec::{parse_manifest, render_manifest};
use ogito::manifest::{Manifest, Template};

#[test]
fn save_then_load_keeps_every_entry() {
    let mut manifest = Manifest::default();
    manifest.add_template(
        "alpha".to_string(),
        Template {
            description: Some("First template".to_string()),
            alias: Some("a".to_string()),
            url: "https://example.com/alpha.git".to_string(),
        },
    );
    manifest.add_template(
        "beta".to_string(),
        Template {
            description: None,
            alias: None,
            url: "https://example.com/beta.git".to_string(),
        },
    );
    manifest.add_template(
        "gamma".to_string(),
        Template {
            description: None,
            alias: Some("g".to_string()),
            url: "https://example.com/gamma.git".to_string(),
        },
    );

    let text = render_manifest(&manifest).unwrap();
    let loaded = parse_manifest(text.as_str()).unwrap();

    assert_eq!(loaded.templates.len(), 3);
    assert_eq!(
        *loaded.templates.get("alpha").unwrap(),
        *manifest.templates.get("alpha").unwrap()
    );
    assert_eq!(
        *loaded.templates.get("beta").unwrap(),
        *manifest.templates.get("beta").unwrap()
    );
    assert_eq!(
        *loaded.templates.get("gamma").unwrap(),
        *manifest.templates.get("gamma").unwrap()
    );
}

#[test]
fn empty_registry_round_trips() {
    let manifest = Manifest::default();
    let text = render_manifest(&manifest).unwrap();
    assert_eq!(text, "");
    let loaded = parse_manifest(text.as_str()).unwrap();
    assert_eq!(loaded.templates.len(), 0);
}

#[test]
fn rendered_text_has_the_documented_shape() {
    let mut manifest = Manifest::default();
    manifest.add_template(
        "tmpl".to_string(),
        Template {
            description: Some("Demo".to_string()),
            alias: Some("t".to_string()),
            url: "https://example.com/t.git".to_string(),
        },
    );
    let text = render_manifest(&manifest).unwrap();
    assert_eq!(
        text,
        "[tmpl]\nurl = \"https://example.com/t.git\"\ndescription = \"Demo\"\nalias = \"t\"\n"
    );
}

#[test]
fn a_quote_in_a_field_is_refused() {
    let mut manifest = Manifest::default();
    manifest.add_template(
        "tmpl".to_string(),
        Template {
            description: Some("say \"hi\"".to_string()),
            alias: None,
            url: "https://example.com/t.git".to_string(),
        },
    );
    assert!(render_manifest(&manifest).is_none());
}

#[test]
fn malformed_documents_are_refused() {
    assert!(parse_manifest("not a manifest").is_none());
    assert!(parse_manifest("[unterminated").is_none());
    assert!(parse_manifest("[a]\nurl = \"x\"\n[a]\nurl = \"y\"\n").is_none());
}
