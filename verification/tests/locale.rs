//! Negotiation scenarios and parser behaviour.

use svgc::{parse, resolve, score, LanguageTag};

fn strings(items: &[&str]) -> Vec<String> {
    items.iter().map(|s| s.to_string()).collect()
}

fn resolve_strs(available: &[&str], user: &[&str]) -> Option<String> {
    resolve(&strings(available), &strings(user))
}

#[test]
fn primary_language_only() {
    assert_eq!(
        resolve_strs(&["en-US", "ru-RU"], &["ru", "en"]),
        Some("ru-RU".to_string())
    );
}

#[test]
fn first_user_locale_with_any_candidate_wins() {
    assert_eq!(
        resolve_strs(
            &["en-US", "en-GB", "ru-UA", "fr-FR", "it"],
            &["ru-RU", "ru", "en-US", "en"]
        ),
        Some("ru-UA".to_string())
    );
}

#[test]
fn tie_breaks_toward_earliest_available() {
    assert_eq!(
        resolve_strs(&["en", "pt-BR", "pt-PT", "es"], &["pt", "en"]),
        Some("pt-BR".to_string())
    );
}

#[test]
fn empty_available_list_matches_nothing() {
    assert_eq!(resolve_strs(&[], &["en", "fr"]), None);
}

#[test]
fn malformed_available_entry_is_ignored() {
    assert_eq!(
        resolve_strs(&["ru--", "ru-RU"], &["ru"]),
        Some("ru-RU".to_string())
    );
}

#[test]
fn undefined_subtag_is_no_mismatch() {
    assert_eq!(
        resolve_strs(&["zh", "zh-cmn", "zh-cmn-Hans"], &["zh-Hans"]),
        Some("zh-cmn-Hans".to_string())
    );
}

#[test]
fn resolve_is_deterministic_on_equal_inputs() {
    let available = strings(&["en-US", "ru-RU", "fr"]);
    let user = strings(&["de", "fr-FR", "en"]);
    let first = resolve(&available, &user);
    for _ in 0..10 {
        assert_eq!(resolve(&available, &user), first);
    }
}

#[test]
fn malformed_user_entries_change_nothing() {
    let with_noise = resolve_strs(&["en", "fr"], &["99", "fr-", "-fr", "fr"]);
    let without = resolve_strs(&["en", "fr"], &["fr"]);
    assert_eq!(with_noise, without);
    assert_eq!(without, Some("fr".to_string()));
}

#[test]
fn empty_user_list_matches_nothing() {
    assert_eq!(resolve_strs(&["en", "fr"], &[]), None);
}

#[test]
fn no_shared_primary_language_matches_nothing() {
    assert_eq!(resolve_strs(&["en", "fr"], &["de-DE", "de"]), None);
}

#[test]
fn result_is_canonical_form() {
    assert_eq!(
        resolve_strs(&["EN-latn-us"], &["en"]),
        Some("en-Latn-US".to_string())
    );
}

#[test]
fn parse_decomposes_full_tag() {
    let t = parse("zh-cmn-Hans-CN-u-ca-gregory-x-private").unwrap();
    assert_eq!(t.primary_language, "zh");
    assert_eq!(t.extended_language.as_deref(), Some("cmn"));
    assert_eq!(t.script.as_deref(), Some("Hans"));
    assert_eq!(t.region.as_deref(), Some("CN"));
    assert_eq!(t.variant, None);
    assert_eq!(t.extension.as_deref(), Some("u-ca-gregory"));
    assert_eq!(t.private_use.as_deref(), Some("x-private"));
}

#[test]
fn parse_canonicalizes_case_per_subtag() {
    let t = parse("SR-LATN-rs").unwrap();
    assert_eq!(t.primary_language, "sr");
    assert_eq!(t.script.as_deref(), Some("Latn"));
    assert_eq!(t.region.as_deref(), Some("RS"));
    assert_eq!(t.to_canonical_string(), "sr-Latn-RS");
}

#[test]
fn parse_accepts_numeric_region_and_variant() {
    let t = parse("es-419").unwrap();
    assert_eq!(t.region.as_deref(), Some("419"));
    let t = parse("sl-rozaj").unwrap();
    assert_eq!(t.variant.as_deref(), Some("rozaj"));
    let t = parse("de-CH-1901").unwrap();
    assert_eq!(t.region.as_deref(), Some("CH"));
    assert_eq!(t.variant.as_deref(), Some("1901"));
}

#[test]
fn parse_rejects_malformed_tags() {
    assert!(parse("").is_none());
    assert!(parse("ru--").is_none());
    assert!(parse("-ru").is_none());
    assert!(parse("a").is_none());
    assert!(parse("abcd").is_none());
    assert!(parse("en US").is_none());
    assert!(parse("en-US-").is_none());
    assert!(parse("x-only-private").is_none());
    assert!(parse("en-a").is_none());
    assert!(parse("en-x").is_none());
    assert!(parse("en-Latn-Latn").is_none());
    assert!(parse("de-DE-1901-1996").is_none());
}

#[test]
fn extension_is_one_opaque_value() {
    let a = parse("en-a-bbb-b-ccc").unwrap();
    assert_eq!(a.extension.as_deref(), Some("a-bbb-b-ccc"));
    let b = parse("en-A-BBB-B-CCC").unwrap();
    assert_eq!(b.extension.as_deref(), Some("a-bbb-b-ccc"));
    assert_eq!(score(&a, &b), 2);
}

#[test]
fn score_weights_fields_by_significance() {
    let full = parse("zh-cmn-Hans-CN-pinyin-u-nu-x-p").unwrap();
    assert_eq!(score(&full, &full), 63);
    let user = parse("zh-cmn-Hans-CN-u-nu-x-p").unwrap();
    let same = parse("ZH-CMN-HANS-CN-U-NU-X-P").unwrap();
    assert_eq!(score(&same, &user), 32 + 16 + 8 + 2 + 1);
    let only_script = parse("zh-Hans").unwrap();
    assert_eq!(score(&only_script, &user), 16);
    assert_eq!(score(&only_script, &user), score(&user, &only_script));
    let region_conflict = parse("zh-TW").unwrap();
    assert_eq!(score(&region_conflict, &user), 0);
}

#[test]
fn wildcard_scores_like_absent_field() {
    let missing_script: LanguageTag = parse("pt").unwrap();
    let user_with_script = parse("pt-Latn").unwrap();
    let user_without_script = parse("pt").unwrap();
    assert_eq!(
        score(&missing_script, &user_with_script),
        score(&missing_script, &user_without_script)
    );
}

#[test]
fn higher_priority_user_locale_dominates() {
    // "de" (first) matches only "de"; a lower-priority "en-GB" would score
    // higher against "en-GB", yet the first match decides.
    assert_eq!(
        resolve_strs(&["de", "en-GB"], &["de-DE", "en-GB"]),
        Some("de".to_string())
    );
}
