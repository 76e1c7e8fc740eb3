use deepsight::session::{training_started_response, InferenceRequestError, StartRejection, TrainingSession};
use deepsight::training::{training_outcome, ClassInput};

fn class(name: &str, images: &[&str]) -> ClassInput {
    ClassInput { name: name.to_string(), images: images.iter().map(|s| s.to_string()).collect() }
}

fn two_classes() -> Vec<ClassInput> {
    vec![class(" gatos ", &["a.jpg"]), class("perros", &["b.png", "c.PNG"])]
}

#[test]
fn new_session_is_idle() {
    let s = TrainingSession::new();
    assert!(!s.is_training());
    assert_eq!(s.latest_best_pt(), None);
    assert!(s.latest_class_names().is_empty());
    assert_eq!(s.training_temp_dir(), None);
}

#[test]
fn accepted_request_starts_training() {
    let mut s = TrainingSession::new();
    let plan = s.request_training(&two_classes()).ok().unwrap();
    assert!(s.is_training());
    assert_eq!(plan.class_names, vec!["gatos".to_string(), "perros".to_string()]);
    assert_eq!(plan.classes[0].name, "gatos");
    assert_eq!(plan.classes[1].images, vec!["b.png".to_string(), "c.PNG".to_string()]);
    assert_eq!(s.latest_class_names(), plan.class_names);
    let resp = training_started_response();
    assert!(resp.success);
    assert_eq!(resp.message, "Entrenamiento iniciado en segundo plano");
}

#[test]
fn second_request_while_training_is_refused() {
    let mut s = TrainingSession::new();
    s.request_training(&two_classes()).ok().unwrap();
    let e = s.request_training(&two_classes()).err().unwrap();
    assert!(matches!(e, StartRejection::AlreadyTraining));
    let reply = e.reply().ok().unwrap();
    assert!(!reply.success);
    assert_eq!(reply.message, "Ya hay un entrenamiento en curso");
    assert!(s.is_training());
}

#[test]
fn invalid_request_leaves_session_unchanged() {
    let mut s = TrainingSession::new();
    let e = s.request_training(&vec![class("a", &["x.jpg"])]).err().unwrap();
    assert_eq!(e.reply().err().unwrap(), "Se requieren MINIMO 2 clases para entrenar un clasificador.");
    assert!(!s.is_training());
    assert!(s.latest_class_names().is_empty());
}

#[test]
fn trained_model_serves_inference() {
    let mut s = TrainingSession::new();
    let plan = s.request_training(&two_classes()).ok().unwrap();
    s.dataset_prepared("/tmp/DeepSight/abc".to_string());
    assert_eq!(s.training_temp_dir().as_deref(), Some("/tmp/DeepSight/abc"));
    let result = training_outcome(plan.class_names.clone(), true, Some(0), Some("/m/best.pt".into()), true);
    s.training_finished(&result);
    assert!(!s.is_training());
    assert_eq!(s.training_temp_dir(), None);
    assert!(s.has_trained_model(true));
    assert!(!s.has_trained_model(false));
    let p = s.check_inference_request("test.jpeg", true, true).ok().unwrap();
    assert_eq!(p.model_path, "/m/best.pt");
    assert_eq!(p.image_path, "test.jpeg");
    assert_eq!(p.class_names, plan.class_names);
}

#[test]
fn training_can_start_again_after_finishing() {
    let mut s = TrainingSession::new();
    let plan = s.request_training(&two_classes()).ok().unwrap();
    s.training_finished(&training_outcome(plan.class_names, false, Some(1), None, false));
    assert!(!s.is_training());
    assert!(s.request_training(&two_classes()).is_ok());
}

#[test]
fn preparation_failure_stops_training() {
    let mut s = TrainingSession::new();
    let plan = s.request_training(&two_classes()).ok().unwrap();
    let r = s.preparation_failed(plan.class_names, "disco lleno");
    assert!(!s.is_training());
    assert!(!r.success);
    assert_eq!(r.error_message.as_deref(), Some("Error preparando dataset: disco lleno"));
    assert!(s.request_training(&two_classes()).is_ok());
}

#[test]
fn failed_training_keeps_previous_model() {
    let mut s = TrainingSession::new();
    let plan = s.request_training(&two_classes()).ok().unwrap();
    s.training_finished(&training_outcome(plan.class_names.clone(), true, Some(0), Some("/old.pt".into()), true));
    let plan = s.request_training(&two_classes()).ok().unwrap();
    s.training_finished(&training_outcome(plan.class_names, false, Some(1), None, false));
    assert_eq!(s.latest_best_pt().as_deref(), Some("/old.pt"));
}

#[test]
fn stream_complete_line_records_model() {
    let mut s = TrainingSession::new();
    assert_eq!(s.record_stream_line("progress", Some("/x".into())), "training:progress");
    assert_eq!(s.latest_best_pt(), None);
    assert_eq!(s.record_stream_line("complete", Some("/y/best.pt".into())), "training:json_complete");
    assert_eq!(s.latest_best_pt().as_deref(), Some("/y/best.pt"));
}

fn inference_error(s: &TrainingSession, image: &str, model_exists: bool, image_exists: bool) -> String {
    s.check_inference_request(image, model_exists, image_exists).err().unwrap().message()
}

#[test]
fn inference_refusals_in_order() {
    let mut s = TrainingSession::new();
    assert_eq!(inference_error(&s, "a.jpg", true, true), "No hay modelo entrenado. Entrena primero antes de probar.");
    let plan = s.request_training(&two_classes()).ok().unwrap();
    assert_eq!(
        inference_error(&s, "a.jpg", true, true),
        "No se puede ejecutar inferencia mientras se entrena el modelo."
    );
    s.training_finished(&training_outcome(plan.class_names, true, Some(0), Some("/m.pt".into()), true));
    assert_eq!(inference_error(&s, "a.jpg", false, false), "Archivo best.pt no encontrado en: /m.pt");
    assert_eq!(inference_error(&s, "a.jpg", true, false), "Imagen no encontrada: a.jpg");
    assert_eq!(inference_error(&s, "a.gif", true, true), "Formato de imagen invalido: a.gif");
    s.clear_trained_model();
    let e = s.check_inference_request("a.jpg", true, true).err().unwrap();
    assert!(matches!(e, InferenceRequestError::NoTrainedModel));
}

#[test]
fn stream_model_without_class_names() {
    let mut s = TrainingSession::new();
    s.record_stream_line("complete", Some("/y.pt".into()));
    assert_eq!(
        inference_error(&s, "a.jpg", true, true),
        "No hay nombres de clases guardados. Re-entrena el modelo."
    );
}
