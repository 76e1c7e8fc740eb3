use deepsight::search::{
    ancestors_of, distinct_in_order, first_found, project_root_candidates, python_core_candidates,
    python_core_dir_candidates, python_core_fallback,
};

fn pair(a: &str, b: &str) -> (String, String) {
    (a.to_string(), b.to_string())
}

#[test]
fn ancestors_go_up_to_the_root() {
    assert_eq!(ancestors_of("/a/b"), vec!["/a/b", "/a", "/"]);
    assert_eq!(ancestors_of("rel/x"), vec!["rel/x", "rel", ""]);
}

#[test]
fn repeated_folders_are_searched_once() {
    let v = vec!["/a".to_string(), "/b".to_string(), "/a/".to_string(), "/b".to_string()];
    assert_eq!(distinct_in_order(&v), vec!["/a", "/b"]);
}

#[test]
fn script_folder_search_order() {
    let c = python_core_candidates(Some("/r".into()), Some("/a/b".into()), Some("/a/b".into()));
    assert_eq!(
        c,
        vec![
            pair("/r/python-core", "/r/python-core/train.py"),
            pair("/r", "/r/train.py"),
            pair("/a/b/python-core", "/a/b/python-core/train.py"),
            pair("/a/python-core", "/a/python-core/train.py"),
            pair("/python-core", "/python-core/train.py"),
        ]
    );
    let c = python_core_candidates(None, None, Some("/e".into()));
    assert_eq!(c, vec![pair("/e/python-core", "/e/python-core/train.py"), pair("/python-core", "/python-core/train.py")]);
    assert!(python_core_candidates(None, None, None).is_empty());
}

#[test]
fn project_root_search_order() {
    let c = project_root_candidates(Some("/a/b".into()), Some("/c".into()));
    assert_eq!(
        c,
        vec![
            pair("/a/b", "/a/b/python-core/train.py"),
            pair("/a", "/a/python-core/train.py"),
            pair("/", "/python-core/train.py"),
            pair("/c", "/c/python-core/train.py"),
        ]
    );
}

#[test]
fn script_folders_under_a_root() {
    assert_eq!(
        python_core_dir_candidates("/p"),
        vec![
            pair("/p/python-core", "/p/python-core/train.py"),
            pair("/p/../python-core", "/p/../python-core/train.py"),
            pair("/p/resources/python-core", "/p/resources/python-core/train.py"),
        ]
    );
}

#[test]
fn fallback_folder() {
    assert_eq!(python_core_fallback(Some("/opt/app".into())), "/opt/app/python-core");
    assert_eq!(python_core_fallback(None), "python-core");
}

#[test]
fn first_found_candidate() {
    assert_eq!(first_found(&vec![false, true, true]), Some(1));
    assert_eq!(first_found(&vec![true]), Some(0));
    assert_eq!(first_found(&vec![false, false]), None);
    assert_eq!(first_found(&vec![]), None);
}
