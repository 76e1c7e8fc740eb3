use deepsight::sanitize::{
    finish_sanitized, sanitize_class_name, sanitize_filename, sanitize_name, sanitizer_ready,
};

const ZERO: [u8; 16] = [0u8; 16];
const ZERO_NAME: &str = "file_00000000000040008000000000000000";

fn uuid_text(bytes: [u8; 16]) -> String {
    uuid::Builder::from_random_bytes(bytes).into_uuid().simple().to_string()
}

#[test]
fn patterns_compile() {
    assert!(sanitizer_ready());
}

#[test]
fn keeps_only_last_component() {
    assert_eq!(sanitize_filename("../../passwd", &ZERO), "passwd");
    assert_eq!(sanitize_filename("a.b/c", &ZERO), "c");
}

#[test]
fn removes_accents_after_decomposition() {
    assert_eq!(sanitize_filename("Café.jpg", &ZERO), "Cafe.jpg");
    assert_eq!(sanitize_filename("é", &ZERO), "e");
    assert_eq!(sanitize_filename("ﬁle", &ZERO), "file");
}

#[test]
fn replaces_illegal_characters() {
    assert_eq!(sanitize_filename("a?b*c.png", &ZERO), "a_b_c.png");
    assert_eq!(sanitize_filename("my photo-1.png", &ZERO), "my photo-1.png");
}

#[test]
fn trims_spaces_and_dots() {
    assert_eq!(sanitize_filename("  spaced  ", &ZERO), "spaced");
    assert_eq!(sanitize_filename(".hidden.", &ZERO), "hidden");
}

#[test]
fn leading_dot_before_a_space_goes_but_the_space_stays() {
    assert_eq!(sanitize_filename(". x", &ZERO), " x");
}

#[test]
fn collapses_double_dots() {
    assert_eq!(sanitize_filename("a..b", &ZERO), "a_b");
    assert_eq!(sanitize_filename("a...b", &ZERO), "a_.b");
    assert!(!sanitize_filename("x....y", &ZERO).contains(".."));
}

#[test]
fn limits_length_to_64_characters() {
    let long = "a".repeat(100);
    assert_eq!(sanitize_filename(&long, &ZERO), "a".repeat(64));
    let exact = "b".repeat(64);
    assert_eq!(sanitize_filename(&exact, &ZERO), exact);
}

#[test]
fn blank_names_get_a_generated_name() {
    for name in ["...", "", "   ", "/"] {
        assert_eq!(sanitize_filename(name, &ZERO), ZERO_NAME, "{:?}", name);
    }
    let other = [0xffu8; 16];
    assert_eq!(sanitize_filename("...", &other), "file_ffffffffffff4fffbfffffffffffffff");
    assert_ne!(sanitize_filename("...", &ZERO), sanitize_filename("...", &other));
}

#[test]
fn generated_name_is_the_uuid_text_of_the_bytes() {
    let bytes: [u8; 16] = [
        0x12, 0x34, 0x56, 0x78, 0x9a, 0xbc, 0xde, 0xf0, 0x0f, 0xed, 0xcb, 0xa9, 0x87, 0x65, 0x43,
        0x21,
    ];
    assert_eq!(sanitize_filename("", &bytes), format!("file_{}", uuid_text(bytes)));
    assert_eq!(sanitize_filename("", &bytes), "file_123456789abc4ef08fedcba987654321");
}

#[test]
fn no_separators_or_traversal_survive() {
    for name in ["..\\..\\win.ini", "a\\b/c", "/etc/", "..", "a/..", "x\\y"] {
        let out = sanitize_filename(name, &ZERO);
        assert!(!out.contains('/') && !out.contains('\\'), "{:?} -> {:?}", name, out);
        assert!(!out.contains("..") && !out.starts_with('.'), "{:?} -> {:?}", name, out);
        assert!(!out.is_empty() && out.chars().count() <= 64);
    }
    assert_eq!(sanitize_filename("..\\..\\win.ini", &ZERO), "win.ini");
}

#[test]
fn plain_ascii_names() {
    assert_eq!(sanitize_filename("mi archivo<1>.png", &ZERO), "mi archivo_1_.png");
    assert_eq!(sanitize_filename(&"a".repeat(100), &ZERO), "a".repeat(64));
    for name in ["", ".", "...", "   ", "/"] {
        assert_eq!(sanitize_filename(name, &ZERO), ZERO_NAME, "{:?}", name);
    }
}

#[test]
fn clean_ascii_names_are_unchanged() {
    for name in ["photo_01.jpg", "My file-2", "a", "A.b.c", "x y z"] {
        assert_eq!(sanitize_filename(name, &ZERO), name);
    }
}

#[test]
fn finishing_steps_on_the_cleaned_text() {
    assert_eq!(finish_sanitized("  ..a..b.. ", &ZERO), "a_b");
    assert_eq!(finish_sanitized(" . ", &ZERO), ZERO_NAME);
    assert_eq!(finish_sanitized("ok", &ZERO), "ok");
}

#[test]
fn class_names_use_underscores() {
    assert_eq!(sanitize_class_name("my class-1", &ZERO), "my_class_1");
    assert_eq!(sanitize_class_name("Perro grande", &ZERO), "Perro_grande");
    assert_eq!(sanitize_class_name("..", &ZERO), ZERO_NAME);
    let out = sanitize_class_name("a - b/c d", &ZERO);
    assert_eq!(out, "c_d");
}

#[test]
fn sanitize_name_reports_both_spellings() {
    let r = sanitize_name("../Señal?.png".to_string(), &ZERO).unwrap();
    assert_eq!(r.original, "../Señal?.png");
    assert_eq!(r.sanitized, "Senal_.png");
}
