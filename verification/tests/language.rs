use aws_sdk_polly::types::LanguageCode;
use ipa_server::language::{
    generic_language_from_code, language_table, language_to_code, resolve, UnsupportedLanguage,
    LANGUAGE_COUNT,
};

#[test]
fn table_has_every_curated_language() {
    let table = language_table();
    assert_eq!(table.len(), LANGUAGE_COUNT);
    assert_eq!(table.len(), 22);
    for (name, code) in table.iter() {
        assert_eq!(language_to_code(name), Some(*code));
    }
}

#[test]
fn table_names_are_distinct() {
    let table = language_table();
    for (i, left) in table.iter().enumerate() {
        for right in table.iter().skip(i + 1) {
            assert_ne!(left.0, right.0);
        }
    }
}

#[test]
fn table_codes_are_the_provider_codes() {
    let expected = vec![
        ("Arabic", LanguageCode::Arb),
        ("Catalan", LanguageCode::CaEs),
        ("Mandarin", LanguageCode::CmnCn),
        ("Welsh", LanguageCode::CyGb),
        ("Danish", LanguageCode::DaDk),
        ("Standard German", LanguageCode::DeAt),
        ("English", LanguageCode::EnUs),
        ("Spanish", LanguageCode::EsEs),
        ("French", LanguageCode::FrCa),
        ("Hindi and Urdu", LanguageCode::HiIn),
        ("Icelandic", LanguageCode::IsIs),
        ("Italian", LanguageCode::ItIt),
        ("Japanese", LanguageCode::JaJp),
        ("Korean", LanguageCode::KoKr),
        ("Norwegian", LanguageCode::NbNo),
        ("Dutch", LanguageCode::NlNl),
        ("Polish", LanguageCode::PlPl),
        ("Portuguese", LanguageCode::PtBr),
        ("Romanian", LanguageCode::RoRo),
        ("Russian", LanguageCode::RuRu),
        ("Swedish", LanguageCode::SvSe),
        ("Turkish", LanguageCode::TrTr),
    ];
    for (name, code) in expected.iter() {
        assert_eq!(language_to_code(name), Some(code.as_str()));
    }
}

#[test]
fn lookup_of_known_names() {
    assert_eq!(language_to_code("English"), Some("en-US"));
    assert_eq!(language_to_code("Standard German"), Some("de-AT"));
    assert_eq!(language_to_code("Hindi and Urdu"), Some("hi-IN"));
    assert_eq!(language_to_code("Arabic"), Some("arb"));
    assert_eq!(language_to_code("Turkish"), Some("tr-TR"));
}

#[test]
fn lookup_of_unknown_names() {
    assert_eq!(language_to_code("Klingon"), None);
    assert_eq!(language_to_code(""), None);
    assert_eq!(language_to_code("english"), None);
    assert_eq!(language_to_code("English "), None);
    assert_eq!(language_to_code("German"), None);
    assert_eq!(language_to_code("en-US"), None);
}

#[test]
fn generic_key_is_the_first_two_characters() {
    assert_eq!(generic_language_from_code("en-US"), "en");
    assert_eq!(generic_language_from_code("de-AT"), "de");
    assert_eq!(generic_language_from_code("arb"), "ar");
    assert_eq!(generic_language_from_code("cmn-CN"), "cm");
    assert_eq!(generic_language_from_code("yu"), "yu");
}

#[test]
fn generic_key_of_every_provider_code_of_the_table() {
    for (_, code) in language_table().iter() {
        let key = generic_language_from_code(code);
        assert_eq!(key.chars().count(), 2);
        assert!(code.starts_with(key.as_str()));
        assert_eq!(key.as_str(), LanguageCode::from(*code).as_str().get(0..2).unwrap());
    }
}

#[test]
fn regional_codes_share_a_generic_key() {
    assert_eq!(
        generic_language_from_code(LanguageCode::EnUs.as_str()),
        generic_language_from_code(LanguageCode::EnGb.as_str())
    );
    assert_ne!(
        generic_language_from_code(LanguageCode::EnUs.as_str()),
        generic_language_from_code(LanguageCode::EsEs.as_str())
    );
}

#[test]
fn names_resolve_to_generic_keys() {
    assert_eq!(resolve("English"), Ok("en".to_string()));
    assert_eq!(resolve("Standard German"), Ok("de".to_string()));
    assert_eq!(resolve("Mandarin"), Ok("cm".to_string()));
    assert_eq!(resolve("Arabic"), Ok("ar".to_string()));
    assert_eq!(resolve("Norwegian"), Ok("nb".to_string()));
    assert_eq!(resolve("Portuguese"), Ok("pt".to_string()));
}

#[test]
fn unlisted_names_do_not_resolve() {
    assert_eq!(resolve("Klingon"), Err(UnsupportedLanguage));
    assert_eq!(resolve(""), Err(UnsupportedLanguage));
    assert_eq!(resolve("en"), Err(UnsupportedLanguage));
}
