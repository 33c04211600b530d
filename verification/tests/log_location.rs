use lucie::log_location::log_location;

#[test]
fn location_of_crate_file() {
    let loc = log_location("/home/me/lucie/crates/lucie-text/src/layout.rs");
    assert_eq!(loc.path.as_deref(), Some("crates/lucie-text/src/layout.rs"));
    assert_eq!(loc.target.as_deref(), Some("lucie-text::layout"));
}

#[test]
fn nested_module_path_uses_double_colons() {
    let loc = log_location("crates/gpui/src/platform/linux/wayland/serial.rs");
    assert_eq!(loc.target.as_deref(), Some("gpui::platform::linux::wayland::serial"));
    assert_eq!(loc.path.as_deref(), Some("crates/gpui/src/platform/linux/wayland/serial.rs"));
}

#[test]
fn module_starting_with_crate_name_is_not_prefixed() {
    let loc = log_location("crates/lucie/src/lucie_app.rs");
    assert_eq!(loc.target.as_deref(), Some("lucie_app"));
}

#[test]
fn repeated_rs_suffixes_are_trimmed() {
    let loc = log_location("crates/x/src/a.rs.rs");
    assert_eq!(loc.target.as_deref(), Some("x::a"));
}

#[test]
fn file_outside_crates_has_no_location() {
    let loc = log_location("/usr/src/other/main.rs");
    assert_eq!(loc.path, None);
    assert_eq!(loc.target, None);
}

#[test]
fn crate_file_outside_src_has_path_but_no_target() {
    let loc = log_location("crates/lucie/tests/action_macros.rs");
    assert_eq!(loc.path.as_deref(), Some("crates/lucie/tests/action_macros.rs"));
    assert_eq!(loc.target, None);
}
