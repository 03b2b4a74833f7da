use ipa_server::inventory::{catalog_is_usable, Engine, Voice, VoiceInventory};

fn entry(id: Option<&str>, code: Option<&str>, additional: &[&str], engines: &[Engine]) -> Voice {
    Voice {
        id: id.map(|s| s.to_string()),
        language_code: code.map(|s| s.to_string()),
        additional_language_codes: additional.iter().map(|c| c.to_string()).collect(),
        supported_engines: engines.to_vec(),
    }
}

fn bucket(inventory: &VoiceInventory, key: &str) -> Option<Vec<String>> {
    inventory.get(&key.to_string()).cloned()
}

fn names(ids: &[&str]) -> Option<Vec<String>> {
    Some(ids.iter().map(|s| s.to_string()).collect())
}

#[test]
fn empty_catalog_gives_an_empty_inventory() {
    let inventory = VoiceInventory::build(&vec![]);
    assert_eq!(inventory.len(), 0);
    assert_eq!(bucket(&inventory, "en"), None);
}

#[test]
fn new_inventory_has_no_bucket() {
    let inventory = VoiceInventory::new();
    assert_eq!(inventory.len(), 0);
    assert_eq!(bucket(&inventory, "en"), None);
}

#[test]
fn voices_are_grouped_by_generic_key_in_catalog_order() {
    let inventory = VoiceInventory::build(&vec![
        entry(Some("Joanna"), Some("en-US"), &[], &[Engine::Standard]),
        entry(Some("Hans"), Some("de-DE"), &[], &[Engine::Standard]),
        entry(Some("Brian"), Some("en-GB"), &[], &[Engine::Standard]),
        entry(Some("Vicki"), Some("de-DE"), &[], &[Engine::Standard]),
        entry(Some("Nicole"), Some("en-AU"), &[], &[Engine::Standard]),
    ]);
    assert_eq!(inventory.len(), 2);
    assert_eq!(bucket(&inventory, "en"), names(&["Joanna", "Brian", "Nicole"]));
    assert_eq!(bucket(&inventory, "de"), names(&["Hans", "Vicki"]));
    assert_eq!(bucket(&inventory, "fr"), None);
}

#[test]
fn voice_without_standard_engine_is_in_no_bucket() {
    let inventory = VoiceInventory::build(&vec![
        entry(Some("Joanna"), Some("en-US"), &[], &[Engine::Standard, Engine::Neural]),
        entry(Some("Ruth"), Some("en-US"), &["es-US"], &[Engine::Neural, Engine::Generative]),
        entry(Some("Danielle"), Some("en-US"), &[], &[Engine::LongForm]),
        entry(Some("Silent"), Some("fr-FR"), &[], &[]),
        entry(Some("Odd"), Some("it-IT"), &[], &[Engine::Unknown]),
    ]);
    assert_eq!(inventory.len(), 1);
    assert_eq!(bucket(&inventory, "en"), names(&["Joanna"]));
    assert_eq!(bucket(&inventory, "es"), None);
    assert_eq!(bucket(&inventory, "fr"), None);
    assert_eq!(bucket(&inventory, "it"), None);
}

#[test]
fn multilingual_voice_is_once_in_each_bucket() {
    let inventory = VoiceInventory::build(&vec![
        entry(Some("Aditi"), Some("en-IN"), &["hi-IN"], &[Engine::Standard]),
        entry(Some("Raveena"), Some("en-IN"), &[], &[Engine::Standard]),
    ]);
    assert_eq!(inventory.len(), 2);
    assert_eq!(bucket(&inventory, "hi"), names(&["Aditi"]));
    assert_eq!(bucket(&inventory, "en"), names(&["Aditi", "Raveena"]));
    for key in ["hi", "en"] {
        let speakers = bucket(&inventory, key).unwrap();
        assert_eq!(speakers.iter().filter(|s| s.as_str() == "Aditi").count(), 1);
    }
}

#[test]
fn additional_codes_come_before_the_primary_code() {
    let inventory = VoiceInventory::build(&vec![entry(
        Some("Polyglot"),
        Some("en-US"),
        &["fr-FR", "de-DE"],
        &[Engine::Standard],
    )]);
    assert_eq!(inventory.len(), 3);
    assert_eq!(bucket(&inventory, "fr"), names(&["Polyglot"]));
    assert_eq!(bucket(&inventory, "de"), names(&["Polyglot"]));
    assert_eq!(bucket(&inventory, "en"), names(&["Polyglot"]));
}

#[test]
fn codes_of_one_key_are_not_deduplicated() {
    let inventory = VoiceInventory::build(&vec![
        entry(Some("Amy"), Some("en-GB"), &["en-US"], &[Engine::Standard]),
        entry(Some("Emma"), Some("en-GB"), &[], &[Engine::Standard]),
    ]);
    assert_eq!(inventory.len(), 1);
    assert_eq!(bucket(&inventory, "en"), names(&["Amy", "Amy", "Emma"]));
}

#[test]
fn voice_without_identifier_is_skipped() {
    let inventory = VoiceInventory::build(&vec![
        entry(None, Some("en-US"), &["fr-FR"], &[Engine::Standard]),
        entry(Some("Lea"), Some("fr-FR"), &[], &[Engine::Standard]),
    ]);
    assert_eq!(inventory.len(), 1);
    assert_eq!(bucket(&inventory, "fr"), names(&["Lea"]));
    assert_eq!(bucket(&inventory, "en"), None);
}

#[test]
fn register_appends_to_the_bucket_of_its_key() {
    let mut inventory = VoiceInventory::new();
    inventory.register("en".to_string(), "Joanna".to_string());
    inventory.register("de".to_string(), "Hans".to_string());
    inventory.register("en".to_string(), "Brian".to_string());
    inventory.register("en".to_string(), "Joanna".to_string());
    assert_eq!(inventory.len(), 2);
    assert_eq!(bucket(&inventory, "en"), names(&["Joanna", "Brian", "Joanna"]));
    assert_eq!(bucket(&inventory, "de"), names(&["Hans"]));
    assert_eq!(bucket(&inventory, "e"), None);
}

#[test]
fn support_for_the_standard_engine() {
    assert!(entry(Some("a"), Some("en-US"), &[], &[Engine::Standard]).supports_standard());
    assert!(entry(Some("a"), Some("en-US"), &[], &[Engine::Neural, Engine::Standard])
        .supports_standard());
    assert!(!entry(Some("a"), Some("en-US"), &[], &[Engine::Neural]).supports_standard());
    assert!(!entry(Some("a"), Some("en-US"), &[], &[]).supports_standard());
}

#[test]
fn usable_voices() {
    assert!(entry(Some("a"), Some("en-US"), &["hi-IN"], &[Engine::Standard]).is_usable());
    assert!(entry(None, Some("en"), &[], &[Engine::Standard]).is_usable());
    assert!(entry(Some("a"), None, &["x"], &[Engine::Neural]).is_usable());
    assert!(entry(Some("a"), Some("é1"), &[], &[Engine::Standard]).is_usable());
    assert!(!entry(Some("a"), None, &[], &[Engine::Standard]).is_usable());
    assert!(!entry(Some("a"), Some("e"), &[], &[Engine::Standard]).is_usable());
    assert!(!entry(Some("a"), Some(""), &[], &[Engine::Standard]).is_usable());
    assert!(!entry(Some("a"), Some("en-US"), &["fr-FR", "x"], &[Engine::Standard]).is_usable());
    assert!(!entry(None, Some("en-US"), &["x"], &[Engine::Standard]).is_usable());
}

#[test]
fn usable_catalogs() {
    assert!(catalog_is_usable(&vec![]));
    assert!(catalog_is_usable(&vec![
        entry(Some("a"), Some("en-US"), &[], &[Engine::Standard]),
        entry(Some("b"), None, &[], &[Engine::Neural]),
    ]));
    assert!(!catalog_is_usable(&vec![
        entry(Some("a"), Some("en-US"), &[], &[Engine::Standard]),
        entry(Some("b"), None, &[], &[Engine::Standard]),
    ]));
}

#[test]
fn generic_key_counts_characters_not_bytes() {
    let inventory = VoiceInventory::build(&vec![entry(
        Some("Zoe"),
        Some("éa-XX"),
        &[],
        &[Engine::Standard],
    )]);
    assert_eq!(bucket(&inventory, "éa"), names(&["Zoe"]));
}
