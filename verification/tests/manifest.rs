use emporium::error::ManifestError;
use emporium::extension::{manifest_from_fields, resolve_wasm_path, Extension};
use emporium::json::Json;

fn full_fields() -> (
    bool,
    bool,
    bool,
    Option<String>,
    Option<String>,
    Option<String>,
    Option<String>,
    Option<String>,
    Option<String>,
    Option<String>,
    Option<String>,
) {
    (
        true,
        true,
        true,
        Some("kv".to_string()),
        Some("KV".to_string()),
        Some("0.1.0".to_string()),
        Some("a store".to_string()),
        Some("acme".to_string()),
        Some("someone".to_string()),
        Some("extension.wasm".to_string()),
        Some("{\"kind\":\"object\"}".to_string()),
    )
}

#[test]
fn manifest_requires_sections_in_order() {
    let r = manifest_from_fields(
        false, false, false, None, None, None, None, None, None, None, None,
    );
    assert_eq!(
        r.unwrap_err(),
        ManifestError::Missing("section".to_string(), "extension".to_string())
    );
    let r = manifest_from_fields(
        true, false, false, None, None, None, None, None, None, None, None,
    );
    assert_eq!(
        r.unwrap_err(),
        ManifestError::Missing("section".to_string(), "component".to_string())
    );
    let r = manifest_from_fields(
        true, true, false, None, None, None, None, None, None, None, None,
    );
    assert_eq!(
        r.unwrap_err(),
        ManifestError::Missing("section".to_string(), "config".to_string())
    );
    let r = manifest_from_fields(
        true, true, true, None, None, None, None, None, None, None, None,
    );
    assert_eq!(
        r.unwrap_err(),
        ManifestError::Missing("extension".to_string(), "id".to_string())
    );
    let (a, b, c, id, _, _, _, _, _, _, _) = full_fields();
    let r = manifest_from_fields(a, b, c, id, None, None, None, None, None, None, None);
    assert_eq!(
        r.unwrap_err(),
        ManifestError::Missing("extension".to_string(), "name".to_string())
    );
    let (a, b, c, id, name, _, _, _, _, _, _) = full_fields();
    let r = manifest_from_fields(a, b, c, id, name, None, None, None, None, None, None);
    assert_eq!(
        r.unwrap_err(),
        ManifestError::Missing("extension".to_string(), "version".to_string())
    );
    let (a, b, c, id, name, version, _, _, _, _, _) = full_fields();
    let r = manifest_from_fields(a, b, c, id, name, version, None, None, None, None, None);
    assert_eq!(
        r.unwrap_err(),
        ManifestError::Missing("component".to_string(), "entry".to_string())
    );
}

#[test]
fn manifest_fills_defaults() {
    let (a, b, c, id, name, version, _, _, _, entry, _) = full_fields();
    let m = manifest_from_fields(a, b, c, id, name, version, None, None, None, entry, None)
        .unwrap();
    assert_eq!(m.description, "");
    assert_eq!(m.provider, "");
    assert_eq!(m.schema, Json::Obj(vec![]));
}

#[test]
fn manifest_provider_prefers_company_over_author() {
    let (a, b, c, id, name, version, d, company, author, entry, schema) = full_fields();
    let m = manifest_from_fields(
        a, b, c, id, name, version, d, company, author, entry, schema,
    )
    .unwrap();
    assert_eq!(m.provider, "acme");
    let (a, b, c, id, name, version, d, _, author, entry, schema) = full_fields();
    let m2 = manifest_from_fields(
        a, b, c, id, name, version, d, None, author, entry, schema,
    )
    .unwrap();
    assert_eq!(m2.provider, "someone");
}

#[test]
fn manifest_parses_schema_text() {
    let (a, b, c, id, name, version, d, p, q, entry, schema) = full_fields();
    let m = manifest_from_fields(a, b, c, id, name, version, d, p, q, entry, schema).unwrap();
    assert_eq!(
        m.schema,
        Json::Obj(vec![("kind".to_string(), Json::Str("object".to_string()))])
    );
    let (a, b, c, id, name, version, d, p, q, entry, _) = full_fields();
    let m2 = manifest_from_fields(
        a,
        b,
        c,
        id,
        name,
        version,
        d,
        p,
        q,
        entry,
        Some("not json".to_string()),
    )
    .unwrap();
    assert_eq!(m2.schema, Json::Obj(vec![]));
}

#[test]
fn wasm_path_resolution() {
    assert_eq!(resolve_wasm_path("plugins/kv/extension.wasm"), "plugins/kv/extension.wasm");
    assert_eq!(resolve_wasm_path("plugins/kv"), "plugins/kv/extension.wasm");
    assert_eq!(resolve_wasm_path("a.was"), "a.was/extension.wasm");
}

#[test]
fn extension_with_config_replaces_only_config() {
    let e = Extension::new("kv".to_string(), vec![0, 97, 115, 109], "{}".to_string());
    let e2 = e.with_config("{\"k\":1}".to_string());
    assert_eq!(e2.id, "kv");
    assert_eq!(e2.wasm_bytes, vec![0, 97, 115, 109]);
    assert_eq!(e2.config, "{\"k\":1}");
}
