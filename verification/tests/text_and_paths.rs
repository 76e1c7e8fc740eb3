use deepsight::paths::{extension_of_file_name, is_valid_image_extension, path_extension};
use deepsight::text::{is_blank_text, join_strings, split_lines, trim};
use deepsight::training::join_class_names_for_arg;

fn strings(v: &[&str]) -> Vec<String> {
    v.iter().map(|s| s.to_string()).collect()
}

#[test]
fn join_class_names_uses_unit_separator() {
    let names = strings(&["gato", "perro", "ave"]);
    assert_eq!(join_class_names_for_arg(&names), "gato\x1fperro\x1fave");
}

#[test]
fn join_class_names_single_and_empty() {
    assert_eq!(join_class_names_for_arg(&strings(&["solo"])), "solo");
    assert_eq!(join_class_names_for_arg(&Vec::new()), "");
}

#[test]
fn joined_names_split_back() {
    let names = strings(&["a b", "", "c-d"]);
    let joined = join_class_names_for_arg(&names);
    let back: Vec<String> = joined.split('\x1f').map(|s| s.to_string()).collect();
    assert_eq!(back, names);
}

#[test]
fn join_strings_with_separator() {
    assert_eq!(join_strings(&strings(&["x", "y"]), ", "), "x, y");
}

#[test]
fn valid_image_extensions_any_case() {
    for p in ["a.jpg", "a.JPG", "b.jpeg", "c.Png", "d.bmp", "e.webp", "f.tif", "g.TIFF", "dir/h.png"] {
        assert!(is_valid_image_extension(p), "{}", p);
    }
}

#[test]
fn invalid_image_extensions() {
    for p in ["a.txt", "noext", ".png", "foo.", "a.jpg.exe", "", "..", "folder/"] {
        assert!(!is_valid_image_extension(p), "{}", p);
    }
}

#[test]
fn extension_rules_of_file_names() {
    assert_eq!(extension_of_file_name("photo.JPG"), Some("JPG".to_string()));
    assert_eq!(extension_of_file_name("archive.tar.gz"), Some("gz".to_string()));
    assert_eq!(extension_of_file_name(".hidden"), None);
    assert_eq!(extension_of_file_name("..hidden"), Some("hidden".to_string()));
    assert_eq!(extension_of_file_name("plain"), None);
    assert_eq!(extension_of_file_name("trailing."), Some("".to_string()));
    assert_eq!(extension_of_file_name(".."), None);
}

#[test]
fn extension_of_path_uses_last_component() {
    assert_eq!(path_extension("a.d/file.png"), Some("png".to_string()));
    assert_eq!(path_extension("a.d/file"), None);
    assert_eq!(path_extension("dir/.."), None);
}

#[test]
fn extension_check_lowercases_unicode() {
    assert!(is_valid_image_extension("foto.JPEG"));
    assert!(!is_valid_image_extension("foto.JPÉG"));
}

#[test]
fn trim_removes_unicode_white_space() {
    assert_eq!(trim("  \t hola \u{3000}\n"), "hola");
    assert_eq!(trim("\u{a0}x y\u{2009}"), "x y");
    assert_eq!(trim(""), "");
    assert!(is_blank_text(" \u{85}\r\n"));
    assert!(!is_blank_text(" a "));
}

#[test]
fn split_lines_like_str_lines() {
    for text in ["", "a", "a\n", "a\nb", "a\r\nb\r\n", "\n\nx", "x\r", "a\n\n", "\r\n"] {
        let expected: Vec<String> = text.lines().map(|l| l.to_string()).collect();
        assert_eq!(split_lines(text), expected, "{:?}", text);
    }
}
