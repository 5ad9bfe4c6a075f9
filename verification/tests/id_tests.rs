use qwik_ids::component::id::Id;
use qwik_ids::component::SourceInfo;
use qwik_ids::component::Target;

#[test]
fn escapes_a_name() {
    let name0 = Id::sanitize("a'b-c");
    let name1 = Id::sanitize("A123b_c-~45");
    assert_eq!(name0, "a_b_c");
    assert_eq!(name1, "A123b_c_45");
}

#[test]
fn test_calculate_hash() {
    let hash0 = Id::calculate_hash("./app.js", "a_b_c", &None);
    let hash1 = Id::calculate_hash("./app.js", "a_b_c", &Some("scope".to_string()));
    assert_eq!(hash0, "0RVAWYCCxyk");
    assert_ne!(hash1, hash0);
}

#[test]
fn creates_a_id() {
    let source_info0 = SourceInfo::new("app.js").unwrap();
    let id0 = Id::new(
        &source_info0,
        &vec!["a".to_string(), "b".to_string(), "c".to_string()],
        &Target::Dev,
        &Option::None,
    );
    let hash0 = Id::calculate_hash("app.js", "a_b_c", &None);

    let expected0 = Id {
        display_name: "app.js_a_b_c".to_string(),
        symbol_name: format!("a_b_c_{}", hash0),
        local_file_name: "app.js_a_b_c_tZuivXMgs2w".to_string(),
        hash: hash0,
        scope: None,
    };

    let scope1 = Some("scope".to_string());
    let id1 = Id::new(
        &source_info0,
        &vec!["1".to_string(), "b".to_string(), "c".to_string()],
        &Target::Prod,
        &scope1,
    );
    // Leading  segments that are digits are prefixed with an additional underscore.
    let hash1 = Id::calculate_hash("app.js", "_1_b_c", &scope1);
    let expected1 = Id {
        display_name: "app.js__1_b_c".to_string(),
        // When Target is neither "Dev" nor "Test", the symbol name is set to "s_{hash}".
        symbol_name: format!("s_{}", hash1),
        local_file_name: "app.js_s_bQ4D62Vr0Zg".to_string(),
        hash: hash1,
        scope: Some("scope".to_string()),
    };

    assert_eq!(id0, expected0);
    assert_eq!(id1, expected1);
}

#[test]
fn sanitize_collapses_every_run() {
    assert_eq!(Id::sanitize("--a---b--"), "_a_b_");
    assert_eq!(Id::sanitize("~~~"), "_");
    assert_eq!(Id::sanitize(""), "");
    assert!(!Id::sanitize("a'!@#b$%^c").contains("__"));
}

#[test]
fn sanitize_is_idempotent_on_samples() {
    for input in ["a'b-c", "A123b_c-~45", "", "___", "x y z", "9-lives"] {
        let once = Id::sanitize(input);
        let twice = Id::sanitize(&once);
        assert_eq!(twice, once);
    }
}

#[test]
fn synthesis_is_deterministic() {
    let info = SourceInfo::new("./src/app.js").unwrap();
    let segments = vec!["Counter".to_string(), "component".to_string(), "onClick".to_string()];
    let scope = Some("group-a".to_string());
    let id0 = Id::new(&info, &segments, &Target::Dev, &scope);
    let id1 = Id::new(&info, &segments, &Target::Dev, &scope);
    assert_eq!(id0, id1);
    assert_eq!(id0.hash.len(), 11);
}

#[test]
fn scope_changes_the_hash() {
    let info = SourceInfo::new("./app.js").unwrap();
    let segments = vec!["a".to_string(), "b".to_string(), "c".to_string()];
    let without = Id::new(&info, &segments, &Target::Dev, &None);
    let with = Id::new(&info, &segments, &Target::Dev, &Some("scope".to_string()));
    assert_ne!(without.hash, with.hash);
    // The leading `./` is stripped before hashing, so this matches the
    // fingerprint of the plain path.
    assert_eq!(without.hash, "tZuivXMgs2w");
}

#[test]
fn leading_dot_slash_is_stripped_before_hashing() {
    let plain = SourceInfo::new("app.js").unwrap();
    let dotted = SourceInfo::new("./app.js").unwrap();
    let segments = vec!["a".to_string(), "b".to_string(), "c".to_string()];
    let id_plain = Id::new(&plain, &segments, &Target::Dev, &None);
    let id_dotted = Id::new(&dotted, &segments, &Target::Dev, &None);
    assert_eq!(id_plain.hash, id_dotted.hash);
    // The unnormalized path still prefixes the generated file name.
    assert!(id_dotted.local_file_name.starts_with("./app.js_"));
}

#[test]
fn digit_leading_segment_is_guarded() {
    let info = SourceInfo::new("app.js").unwrap();
    let id = Id::new(
        &info,
        &vec!["1".to_string(), "b".to_string(), "c".to_string()],
        &Target::Dev,
        &None,
    );
    assert_eq!(id.display_name, "app.js__1_b_c");
    assert!(id.symbol_name.starts_with("_1_b_c_"));
}

#[test]
fn symbol_format_follows_target() {
    let info = SourceInfo::new("app.js").unwrap();
    let segments = vec!["a".to_string(), "b".to_string(), "c".to_string()];
    let dev = Id::new(&info, &segments, &Target::Dev, &None);
    let test = Id::new(&info, &segments, &Target::Test, &None);
    let lib = Id::new(&info, &segments, &Target::Lib, &None);
    let prod = Id::new(&info, &segments, &Target::Prod, &None);
    assert_eq!(dev.symbol_name, test.symbol_name);
    assert_eq!(lib.symbol_name, prod.symbol_name);
    assert_eq!(dev.symbol_name, format!("a_b_c_{}", dev.hash));
    assert_eq!(prod.symbol_name, format!("s_{}", prod.hash));
    assert_ne!(dev.symbol_name, prod.symbol_name);
}

#[test]
fn empty_segments_yield_bare_file_name() {
    let info = SourceInfo::new("app.js").unwrap();
    let id = Id::new(&info, &vec![], &Target::Dev, &None);
    assert_eq!(id.display_name, "app.js_");
    assert_eq!(id.symbol_name, format!("_{}", id.hash));
}

#[test]
fn scope_is_hashed_verbatim_and_carried_unchanged() {
    let info = SourceInfo::new("app.js").unwrap();
    let segments = vec!["a".to_string()];
    let scope = Some("a b!-/".to_string());
    let id = Id::new(&info, &segments, &Target::Dev, &scope);
    // The scope is not sanitized: it reaches the record exactly as given.
    assert_eq!(id.scope, scope);
    let unscoped = Id::new(&info, &segments, &Target::Dev, &None);
    assert_ne!(id.hash, unscoped.hash);
}

#[test]
fn single_s_display_name_collapses_the_formats() {
    // The one display name on which the two symbol families coincide.
    let info = SourceInfo::new("app.js").unwrap();
    let segments = vec!["s".to_string()];
    let dev = Id::new(&info, &segments, &Target::Dev, &None);
    let prod = Id::new(&info, &segments, &Target::Prod, &None);
    assert_eq!(dev.symbol_name, prod.symbol_name);
}

#[test]
fn source_info_splits_base_name() {
    let nested = SourceInfo::new("src/routes/app.js").unwrap();
    assert_eq!(nested.rel_path, "src/routes/app.js");
    assert_eq!(nested.file_name, "app.js");
    let flat = SourceInfo::new("app.js").unwrap();
    assert_eq!(flat.rel_path, "app.js");
    assert_eq!(flat.file_name, "app.js");
    assert_eq!(SourceInfo::new(""), None);
}
