use deepsight::dataset::{
    class_dir_name, is_leftover_output_dir_name, is_runs_dir_name, plan_temp_dataset, staged_image_name,
    temp_dataset_id,
};
use deepsight::inference::{
    inference_failure_message, inference_line_of, inference_outcome_of_output, prediction_fields,
    select_inference_outcome,
    InferenceLine, InferenceOutcome,
};
use deepsight::system_info::{
    check_ram_sufficient, gather_system_info, python_candidates, python_status, python_version_from_output,
    ram_sufficient, summarize_system, HardwareReadings,
};
use deepsight::training::ClassInput;

#[test]
fn failure_message_from_stderr_last_line() {
    assert_eq!(inference_failure_message("warn\nValueError: bad\n", Some(1)), "ValueError: bad");
    assert_eq!(inference_failure_message("a\r\nb\r", Some(1)), "b\r");
    assert_eq!(inference_failure_message("\n", Some(1)), "");
}

#[test]
fn failure_message_from_exit_code() {
    assert_eq!(inference_failure_message("", Some(2)), "Error ejecutando inferencia (codigo Some(2))");
    assert_eq!(inference_failure_message("", None), "Error ejecutando inferencia (codigo None)");
}

#[test]
fn line_kinds() {
    assert!(matches!(inference_line_of("{\"type\":\"result\",\"class_name\":\"a\"}"), InferenceLine::Prediction));
    match inference_line_of("{\"type\":\"error\",\"message\":\"sin modelo\"}") {
        InferenceLine::Error { message } => assert_eq!(message.as_deref(), Some("sin modelo")),
        _ => panic!(),
    }
    match inference_line_of("{\"type\":\"error\",\"message\":3}") {
        InferenceLine::Error { message } => assert_eq!(message, None),
        _ => panic!(),
    }
    assert!(matches!(inference_line_of("{\"type\":\"log\"}"), InferenceLine::Other));
    assert!(matches!(inference_line_of("{\"message\":\"x\"}"), InferenceLine::Other));
    assert!(matches!(inference_line_of("Loading model..."), InferenceLine::Other));
    assert!(matches!(inference_line_of(""), InferenceLine::Other));
}

#[test]
fn outcome_from_whole_output() {
    let out = "{\"type\":\"log\"}\n{\"type\":\"result\",\"class_name\":\"a\"}\nnoise\n{\"type\":\"error\",\"message\":\"late\"}\n";
    assert!(matches!(inference_outcome_of_output(out), InferenceOutcome::Prediction { line: 1 }));
    match inference_outcome_of_output("warming up\r\n{\"type\":\"error\",\"message\":\"no image\"}\r\n") {
        InferenceOutcome::Failure { message } => assert_eq!(message, "no image"),
        _ => panic!(),
    }
    match inference_outcome_of_output("") {
        InferenceOutcome::Failure { message } => assert_eq!(message, "No se pudo parsear la salida de inferencia"),
        _ => panic!(),
    }
}

#[test]
fn class_fields_of_a_prediction() {
    let f = prediction_fields("{\"type\":\"result\",\"class_name\":\"gato\",\"class_index\":2,\"confidence\":0.9}");
    assert_eq!(f.class_name.as_deref(), Some("gato"));
    assert_eq!(f.class_index, Some(2));
    let f = prediction_fields("{\"class_name\":7,\"class_index\":\"2\"}");
    assert_eq!(f.class_name, None);
    assert_eq!(f.class_index, None);
    let f = prediction_fields("{\"class_index\":-3,\"class_name\":\"x\"}");
    assert_eq!(f.class_index, Some(-3));
    let f = prediction_fields("not json");
    assert_eq!(f.class_name, None);
    assert_eq!(f.class_index, None);
}

#[test]
fn last_prediction_wins() {
    let lines = vec![
        InferenceLine::Prediction,
        InferenceLine::Error { message: Some("x".into()) },
        InferenceLine::Prediction,
        InferenceLine::Other,
    ];
    assert!(matches!(select_inference_outcome(&lines), InferenceOutcome::Prediction { line: 2 }));
}

#[test]
fn last_error_message_without_prediction() {
    let lines = vec![InferenceLine::Error { message: Some("uno".into()) }, InferenceLine::Error { message: Some("dos".into()) }];
    match select_inference_outcome(&lines) {
        InferenceOutcome::Failure { message } => assert_eq!(message, "dos"),
        _ => panic!(),
    }
    let lines = vec![InferenceLine::Error { message: Some("uno".into()) }, InferenceLine::Error { message: None }];
    match select_inference_outcome(&lines) {
        InferenceOutcome::Failure { message } => assert_eq!(message, "No se pudo parsear la salida de inferencia"),
        _ => panic!(),
    }
    match select_inference_outcome(&vec![]) {
        InferenceOutcome::Failure { message } => assert_eq!(message, "No se pudo parsear la salida de inferencia"),
        _ => panic!(),
    }
}

#[test]
fn staged_names() {
    assert_eq!(staged_image_name(3, 1, "C/x.PNG"), "img_0003_1.png");
    assert_eq!(staged_image_name(12, 0, "photo"), "img_0012_0.jpg");
    assert_eq!(staged_image_name(12345, 7, "a.b/c.Jpeg"), "img_12345_7.jpeg");
    assert_eq!(staged_image_name(0, 10, ".hidden"), "img_0000_10.jpg");
}

#[test]
fn class_dirs_are_sanitized() {
    assert_eq!(class_dir_name(0, "Perro grande", &[0u8; 16]), "Perro_grande");
    assert_eq!(class_dir_name(1, "señal-roja", &[0u8; 16]), "senal_roja");
    assert_eq!(class_dir_name(2, "  ", &[0u8; 16]), "file_00000000000040008000000000000000");
}

#[test]
fn dataset_plan_layout() {
    let classes = vec![
        ClassInput { name: "gato feliz".into(), images: vec!["/a/1.JPG".into(), "/a/2".into()] },
        ClassInput { name: "perro".into(), images: vec!["/b/x.webp".into()] },
    ];
    let plan = plan_temp_dataset(&classes, &vec![[0u8; 16]; 2]).unwrap();
    assert_eq!(plan.class_order, vec!["gato feliz".to_string(), "perro".to_string()]);
    assert_eq!(plan.classes[0].dir_name, "gato_feliz");
    assert_eq!(plan.classes[0].files[0].source, "/a/1.JPG");
    assert_eq!(plan.classes[0].files[0].dest_name, "img_0000_0.jpg");
    assert_eq!(plan.classes[0].files[1].dest_name, "img_0001_0.jpg");
    assert_eq!(plan.classes[1].files[0].dest_name, "img_0000_1.webp");
}

#[test]
fn temporary_dataset_folder_name() {
    assert_eq!(temp_dataset_id(&[0u8; 16]), "00000000000040008000000000000000");
    let bytes = [7u8; 16];
    assert_eq!(temp_dataset_id(&bytes), uuid::Builder::from_random_bytes(bytes).into_uuid().simple().to_string());
}

#[test]
fn cleanup_folder_names() {
    assert!(is_runs_dir_name("runs"));
    assert!(is_runs_dir_name("runs_2"));
    assert!(!is_runs_dir_name("run"));
    assert!(!is_runs_dir_name("my_runs"));
    assert!(is_leftover_output_dir_name("train_output"));
    assert!(is_leftover_output_dir_name("runs"));
    assert!(!is_leftover_output_dir_name("train_output2"));
}

#[test]
fn python_versions() {
    assert_eq!(python_version_from_output(" Python 3.11.4\n", ""), "3.11.4");
    assert_eq!(python_version_from_output("", "Python 2.7.18\n"), "2.7.18");
    assert_eq!(python_version_from_output("Python Python 3", "x"), "3");
    assert_eq!(python_version_from_output(" ", "\n"), "Desconocida");
    assert_eq!(python_status(None), (false, "No detectado".to_string()));
    assert_eq!(python_status(Some(("Python 3.12.1".into(), String::new()))), (true, "3.12.1".to_string()));
}

#[test]
fn python_candidate_order() {
    assert_eq!(python_candidates(true), vec!["python", "python3", "py"]);
    assert_eq!(python_candidates(false), vec!["python3", "python"]);
}

#[test]
fn summary_from_readings() {
    let r = HardwareReadings {
        total_memory_bytes: 8 * 1024 * 1024 * 1024 + 5,
        available_memory_bytes: 3 * 1024 * 1024 + 1024 * 1024 - 1,
        cpu_brands: vec!["Ryzen".into(), "Ryzen".into(), "Ryzen".into(), "Ryzen".into()],
        os_name: None,
        os_version: Some("11".into()),
        disks: vec![(500 * 1024 * 1024 * 1024 + 7, 100 * 1024 * 1024 * 1024 - 1), (u64::MAX, u64::MAX)],
    };
    let s = summarize_system(r, true, "3.11".into());
    assert_eq!(s.total_memory_mb, 8192);
    assert_eq!(s.available_memory_mb, 3);
    assert_eq!(s.cpu_cores, 4);
    assert_eq!(s.cpu_brand, "Ryzen");
    assert_eq!(s.os_name, "Desconocido");
    assert_eq!(s.os_version, "11");
    assert_eq!(s.total_disk_gb, 500 + u64::MAX / (1024 * 1024 * 1024));
    assert_eq!(s.available_disk_gb, 99 + u64::MAX / (1024 * 1024 * 1024));
    assert!(!s.is_low_spec);
    assert!(s.python_available);
    assert_eq!(s.python_version, "3.11");
}

#[test]
fn low_spec_and_unknown_cpu() {
    let r = HardwareReadings {
        total_memory_bytes: 4095 * 1024 * 1024,
        available_memory_bytes: 0,
        cpu_brands: vec![],
        os_name: Some("Linux".into()),
        os_version: None,
        disks: vec![],
    };
    let s = summarize_system(r, false, "No detectado".into());
    assert!(s.is_low_spec);
    assert_eq!(s.cpu_brand, "CPU Desconocido");
    assert_eq!(s.os_version, "N/A");
    assert_eq!(s.total_disk_gb, 0);
}

#[test]
fn machine_summary_relations() {
    let s = gather_system_info(false, "No detectado".into());
    assert_eq!(s.is_low_spec, s.total_memory_mb < 4096 || s.cpu_cores <= 2);
    assert_eq!(s.python_version, "No detectado");
    assert!(check_ram_sufficient(0));
    assert!(!check_ram_sufficient(u64::MAX));
    assert!(ram_sufficient(2 * 1024 * 1024, 2));
    assert!(!ram_sufficient(2 * 1024 * 1024 - 1, 2));
}
