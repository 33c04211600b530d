use std::sync::Arc;

use lucie::font_config::{FontFallbacks, FontFeatures, FontStyle};
use lucie::font_family::{resolve_font_name, style_families, FamilyChoice, FontFamilyName, GenericFamily};
use lucie::font_names::all_font_names;

#[test]
fn disabled_ligatures_turn_calt_off() {
    let f = FontFeatures::disable_ligatures();
    assert_eq!(f.tag_value_list(), &[("calt".to_string(), 0)]);
    assert_eq!(f.is_calt_enabled(), Some(false));
}

#[test]
fn calt_lookup_uses_first_entry() {
    let f = FontFeatures(Arc::new(vec![("liga".to_string(), 0), ("calt".to_string(), 1), ("calt".to_string(), 0)]));
    assert_eq!(f.is_calt_enabled(), Some(true));
    let f = FontFeatures(Arc::new(vec![("calt".to_string(), 2)]));
    assert_eq!(f.is_calt_enabled(), Some(false));
    let f = FontFeatures(Arc::new(vec![("liga".to_string(), 1)]));
    assert_eq!(f.is_calt_enabled(), None);
    assert_eq!(FontFeatures::default().is_calt_enabled(), None);
}

#[test]
fn fallbacks_keep_order() {
    let f = FontFallbacks::from_fonts(vec!["Noto Sans".to_string(), "DejaVu Sans".to_string()]);
    assert_eq!(f.fallback_list(), &["Noto Sans".to_string(), "DejaVu Sans".to_string()]);
}

#[test]
fn font_style_default_is_normal() {
    assert_eq!(FontStyle::default(), FontStyle::Normal);
}

#[test]
fn generic_family_keywords() {
    assert_eq!(resolve_font_name("serif"), FontFamilyName::Generic(GenericFamily::Serif));
    assert_eq!(resolve_font_name("system-ui"), FontFamilyName::Generic(GenericFamily::SystemUi));
    assert_eq!(resolve_font_name("ui-monospace"), FontFamilyName::Generic(GenericFamily::UiMonospace));
    assert_eq!(resolve_font_name("fangsong"), FontFamilyName::Generic(GenericFamily::Math));
    assert_eq!(resolve_font_name("Inter"), FontFamilyName::Named("Inter".to_string()));
    assert_eq!(resolve_font_name("Serif"), FontFamilyName::Named("Serif".to_string()));
}

#[test]
fn font_names_sorted_unique_with_system_ui() {
    let names = all_font_names(vec!["Zapf".to_string(), "Arial".to_string(), "Zapf".to_string(), "system-ui".to_string(), "Ärger".to_string()]);
    assert_eq!(names, vec!["Arial".to_string(), "Zapf".to_string(), "system-ui".to_string(), "Ärger".to_string()]);
    assert_eq!(all_font_names(vec![]), vec!["system-ui".to_string()]);
}

#[test]
fn font_name_listing_is_stable() {
    let once = all_font_names(vec!["Mono".to_string(), "Alpha".to_string(), "Mono".to_string()]);
    assert_eq!(all_font_names(once.clone()), once);
}

#[test]
fn style_families_put_the_family_before_fallbacks() {
    assert_eq!(style_families(None, None), None);
    assert_eq!(style_families(Some("serif"), None), Some(FamilyChoice::Single(FontFamilyName::Generic(GenericFamily::Serif))));
    let fb = FontFallbacks(Arc::new(vec!["Noto Sans".to_string(), "monospace".to_string()]));
    assert_eq!(
        style_families(Some("Inter"), Some(&fb)),
        Some(FamilyChoice::List(vec![
            FontFamilyName::Named("Inter".to_string()),
            FontFamilyName::Named("Noto Sans".to_string()),
            FontFamilyName::Named("monospace".to_string()),
        ]))
    );
    assert_eq!(
        style_families(None, Some(&fb)),
        Some(FamilyChoice::List(vec![
            FontFamilyName::Named("Noto Sans".to_string()),
            FontFamilyName::Named("monospace".to_string()),
        ]))
    );
}
