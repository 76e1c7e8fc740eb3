use deepsight::training::{
    capture_best_pt, closing_event_name, failed_training, join_class_names_for_arg,
    parse_python_line, stderr_line_is_forwarded, training_event_name, training_outcome,
    validate_training_classes, ClassInput, ClassValidationError, PythonLine,
};

fn class(name: &str, images: &[&str]) -> ClassInput {
    ClassInput { name: name.to_string(), images: images.iter().map(|s| s.to_string()).collect() }
}

fn problem(classes: Vec<ClassInput>) -> String {
    validate_training_classes(&classes).err().expect("expected a problem").message()
}

#[test]
fn no_classes() {
    assert_eq!(problem(vec![]), "No hay clases definidas. Crea al menos 2 clases con imagenes.");
}

#[test]
fn one_class_is_too_few() {
    assert_eq!(
        problem(vec![class("a", &["x.jpg"])]),
        "Se requieren MINIMO 2 clases para entrenar un clasificador."
    );
}

#[test]
fn no_images_at_all() {
    assert_eq!(
        problem(vec![class("a", &[]), class("b", &[])]),
        "No hay imagenes. Agrega al menos una por clase."
    );
}

#[test]
fn blank_class_name() {
    assert_eq!(problem(vec![class("a", &["x.jpg"]), class("   ", &["y.png"])]), "Hay una clase con nombre vacio.");
}

#[test]
fn class_without_images_uses_trimmed_name() {
    assert_eq!(
        problem(vec![class(" gatos ", &[]), class("b", &["y.png"])]),
        "La clase 'gatos' no tiene ninguna imagen. Agrega al menos 1."
    );
}

#[test]
fn invalid_image_format() {
    let e = validate_training_classes(&vec![class("a", &["x.jpg", "notes.txt"]), class("b", &["y.png"])])
        .err()
        .unwrap();
    assert!(matches!(e, ClassValidationError::InvalidImageFormat { .. }));
    assert_eq!(e.message(), "Formato de imagen invalido en clase 'a': notes.txt");
}

#[test]
fn first_problem_in_class_order_wins() {
    assert_eq!(
        problem(vec![class("a", &["bad.gif"]), class("", &["y.png"])]),
        "Formato de imagen invalido en clase 'a': bad.gif"
    );
}

#[test]
fn valid_classes_pass() {
    assert!(validate_training_classes(&vec![class("a", &["x.JPG"]), class("b", &["y.webp", "z.tif"])]).is_ok());
}

#[test]
fn outcome_success_with_model() {
    let r = training_outcome(vec!["a".into()], true, Some(0), Some("/tmp/best.pt".into()), true);
    assert!(r.success);
    assert_eq!(r.best_pt_path.as_deref(), Some("/tmp/best.pt"));
    assert_eq!(r.error_message, None);
    assert_eq!(r.class_names, vec!["a".to_string()]);
}

#[test]
fn outcome_model_file_missing() {
    let r = training_outcome(vec![], true, Some(0), Some("/x/best.pt".into()), false);
    assert!(!r.success);
    assert_eq!(r.best_pt_path, None);
    assert_eq!(r.error_message.as_deref(), Some("Entrenamiento completado pero best.pt no se encontro en: /x/best.pt"));
}

#[test]
fn outcome_no_model_reported() {
    let r = training_outcome(vec![], true, Some(0), None, false);
    assert_eq!(r.error_message.as_deref(), Some("Entrenamiento termino pero no se recibio la ruta de best.pt"));
}

#[test]
fn outcome_failed_process_codes() {
    let r = training_outcome(vec![], false, Some(1), Some("/x".into()), true);
    assert!(!r.success);
    assert_eq!(r.error_message.as_deref(), Some("El proceso Python devolvio codigo de error: Some(1)"));
    let r = training_outcome(vec![], false, Some(-2147483648), None, false);
    assert_eq!(r.error_message.as_deref(), Some("El proceso Python devolvio codigo de error: Some(-2147483648)"));
    let r = training_outcome(vec![], false, None, None, false);
    assert_eq!(r.error_message.as_deref(), Some("El proceso Python devolvio codigo de error: None"));
    let r = training_outcome(vec![], false, Some(137), None, false);
    assert_eq!(r.error_message, Some(format!("El proceso Python devolvio codigo de error: {:?}", Some(137))));
}

#[test]
fn failed_training_keeps_message() {
    let r = failed_training(vec!["x".into()], "boom".into());
    assert!(!r.success);
    assert_eq!(r.error_message.as_deref(), Some("boom"));
}

#[test]
fn event_names() {
    assert_eq!(training_event_name("progress"), "training:progress");
    assert_eq!(training_event_name("log"), "training:log");
    assert_eq!(training_event_name("hyperparameters"), "training:hyperparameters");
    assert_eq!(training_event_name("complete"), "training:json_complete");
    assert_eq!(training_event_name("error"), "training:error");
    assert_eq!(training_event_name("raw"), "training:raw");
    assert_eq!(training_event_name("json"), "training:raw");
}

#[test]
fn capture_only_from_complete_lines() {
    let p = capture_best_pt(None, "progress", Some("/a".into()));
    assert_eq!(p, None);
    let p = capture_best_pt(p, "complete", Some("/b".into()));
    assert_eq!(p.as_deref(), Some("/b"));
    let p = capture_best_pt(p, "complete", None);
    assert_eq!(p.as_deref(), Some("/b"));
}

#[test]
fn python_lines() {
    assert!(matches!(parse_python_line("   "), PythonLine::Blank));
    assert!(matches!(parse_python_line(""), PythonLine::Blank));
    match parse_python_line("  hello  ") {
        PythonLine::Text { message } => assert_eq!(message, "hello"),
        _ => panic!("expected text"),
    }
    match parse_python_line("{not json") {
        PythonLine::Text { message } => assert_eq!(message, "{not json"),
        _ => panic!("expected text"),
    }
    match parse_python_line("  {\"type\":\"log\",\"level\":\"info\"}  ") {
        PythonLine::Json { line_type, best_pt_path } => {
            assert_eq!(line_type, "log");
            assert_eq!(best_pt_path, None);
        }
        _ => panic!("expected json"),
    }
    match parse_python_line("{}") {
        PythonLine::Json { line_type, .. } => assert_eq!(line_type, "json"),
        _ => panic!("expected json"),
    }
    match parse_python_line("{\"type\": 5}") {
        PythonLine::Json { line_type, .. } => assert_eq!(line_type, "json"),
        _ => panic!("expected json"),
    }
    match parse_python_line("[1, 2]") {
        PythonLine::Json { line_type, .. } => assert_eq!(line_type, "json"),
        _ => panic!("expected json"),
    }
}

#[test]
fn complete_line_carries_the_model_path() {
    match parse_python_line("{\"type\":\"complete\",\"best_pt_path\":\"/runs/best.pt\"}") {
        PythonLine::Json { line_type, best_pt_path } => {
            assert_eq!(line_type, "complete");
            assert_eq!(best_pt_path.as_deref(), Some("/runs/best.pt"));
        }
        _ => panic!("expected json"),
    }
    match parse_python_line("{\"type\":\"complete\",\"best_pt_path\":null}") {
        PythonLine::Json { best_pt_path, .. } => assert_eq!(best_pt_path, None),
        _ => panic!("expected json"),
    }
}

#[test]
fn closing_events() {
    let ok = training_outcome(vec![], true, Some(0), Some("/m".into()), true);
    assert_eq!(closing_event_name(&ok), "training:complete");
    let bad = failed_training(vec![], "Error preparando dataset: x".into());
    assert_eq!(closing_event_name(&bad), "training:error");
}

#[test]
fn joined_argument_length_and_round_trip() {
    let names = vec!["gato".to_string(), "perro grande".to_string(), "x".to_string()];
    let joined = join_class_names_for_arg(&names);
    assert_eq!(joined, "gato\u{1f}perro grande\u{1f}x");
    assert_eq!(joined.chars().count(), 4 + 12 + 1 + 2);
    let back: Vec<String> = joined.split('\u{1f}').map(|s| s.to_string()).collect();
    assert_eq!(back, names);
    assert_eq!(join_class_names_for_arg(&vec!["solo".to_string()]), "solo");
}

#[test]
fn stderr_blank_lines_are_dropped() {
    assert!(!stderr_line_is_forwarded("  \t"));
    assert!(stderr_line_is_forwarded("Traceback"));
}
