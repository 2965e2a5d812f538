use openai_proxy::models::map_model;
use openai_proxy::models::model_catalog;

#[test]
fn known_names_map_to_their_canonical_spelling() {
    assert_eq!(map_model("gpt-4o-mini"), "gpt-4o-mini");
    assert_eq!(map_model("gpt-4.1"), "gpt-4.1");
    assert_eq!(map_model("o3-mini"), "o3-mini");
}

#[test]
fn matching_is_case_insensitive() {
    assert_eq!(map_model("GPT-4O-MINI"), "gpt-4o-mini");
    assert_eq!(map_model("Gpt-4.1-Mini"), "gpt-4.1-mini");
    assert_eq!(map_model("O1-Preview"), "o1-preview");
}

#[test]
fn unknown_names_pass_through_unchanged() {
    assert_eq!(map_model("my-custom-model"), "my-custom-model");
    assert_eq!(map_model("GPT-5-TURBO"), "GPT-5-TURBO");
    assert_eq!(map_model(""), "");
}

#[test]
fn catalog_lists_the_fixed_models() {
    let catalog = model_catalog();
    let ids: Vec<&str> = catalog.iter().map(|m| m.id.as_str()).collect();
    assert_eq!(
        ids,
        vec![
            "gpt-4.1",
            "gpt-4.1-mini",
            "gpt-4o",
            "gpt-4o-mini",
            "gpt-5-mini",
            "o3-mini",
            "o1-mini",
            "o1-preview",
        ]
    );
    for entry in &catalog {
        assert_eq!(entry.object, "model");
        assert_eq!(entry.owned_by, "codex");
    }
}
