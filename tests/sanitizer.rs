use workshop_fetch::sanitizer::sanitize_name;

#[test]
fn replaces_unsafe_characters() {
    assert_eq!(sanitize_name("a/b\\c:d*e"), "a_b_c_d_e");
    assert_eq!(sanitize_name("Mod v1.2-beta_x"), "Mod v1.2-beta_x");
    assert_eq!(sanitize_name("é"), "_");
}

#[test]
fn collapses_spaces() {
    assert_eq!(sanitize_name("  a   b  "), "a b");
    assert_eq!(sanitize_name("a\tb"), "a_b");
}

#[test]
fn empty_becomes_unnamed_item() {
    assert_eq!(sanitize_name(""), "unnamed_item");
    assert_eq!(sanitize_name("    "), "unnamed_item");
}

#[test]
fn caps_length_at_two_hundred() {
    let long = "x".repeat(250);
    assert_eq!(sanitize_name(&long), "x".repeat(200));
    let exact = "y".repeat(200);
    assert_eq!(sanitize_name(&exact), exact);
}
