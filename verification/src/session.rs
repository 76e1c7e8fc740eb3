//! The application's training session: whether a training runs, the latest
//! trained model and its class names, and the decisions of the commands that
//! start a training, run a test inference and clear the model.
use vstd::prelude::*;

use crate::paths::{image_path_accepted, is_valid_image_extension};
use crate::text::{opt_view, push_str, string_of, string_views, trim, trimmed};
use crate::training::{
    best_pt_after_line, capture_best_pt, class_problem_message, classes_problem, failed_training,
    training_event_name, training_event_name_spec, validate_training_classes, ClassInput,
    ClassProblem, ClassValidationError, TrainingResult,
};

verus! {

/// The abstract state of a session.
pub ghost struct SessionState {
    pub is_training: bool,
    pub best_pt: Option<Seq<char>>,
    pub class_names: Seq<Seq<char>>,
    pub temp_dir: Option<Seq<char>>,
}

/// The state of a new session: idle, no model, no class names.
pub open spec fn idle_state() -> SessionState {
    SessionState { is_training: false, best_pt: None, class_names: Seq::empty(), temp_dir: None }
}

/// The trimmed names of `classes`, in order.
pub open spec fn trimmed_names(classes: Seq<ClassInput>) -> Seq<Seq<char>> {
    Seq::new(classes.len(), |i: int| trimmed(classes[i].name@))
}

/// Why a training request is refused.
pub ghost enum StartProblem {
    AlreadyTraining,
    Invalid(ClassProblem),
}

/// A training request: refused while a training runs or when the classes
/// have a problem; otherwise the session is training, with the trimmed class
/// names recorded.
pub open spec fn start_spec(s: SessionState, classes: Seq<ClassInput>) -> Result<
    SessionState,
    StartProblem,
> {
    if s.is_training {
        Err(StartProblem::AlreadyTraining)
    } else {
        match classes_problem(classes) {
            Some(p) => Err(StartProblem::Invalid(p)),
            None => Ok(
                SessionState {
                    is_training: true,
                    best_pt: s.best_pt,
                    class_names: trimmed_names(classes),
                    temp_dir: s.temp_dir,
                },
            ),
        }
    }
}

/// Preparing the dataset failed: the session stops training.
pub open spec fn preparation_failed_spec(s: SessionState) -> SessionState {
    SessionState { is_training: false, ..s }
}

/// The dataset was staged in `dir`.
pub open spec fn dataset_prepared_spec(s: SessionState, dir: Seq<char>) -> SessionState {
    SessionState { temp_dir: Some(dir), ..s }
}

/// The training finished: a reported model becomes the latest one, the
/// staging folder is forgotten and the session stops training.
pub open spec fn finished_spec(s: SessionState, best: Option<Seq<char>>) -> SessionState {
    SessionState {
        is_training: false,
        best_pt: match best {
            Some(p) => Some(p),
            None => s.best_pt,
        },
        class_names: s.class_names,
        temp_dir: None,
    }
}

/// The latest model is forgotten.
pub open spec fn cleared_spec(s: SessionState) -> SessionState {
    SessionState { best_pt: None, ..s }
}

/// Why a test inference is refused.
pub ghost enum InferenceProblem {
    TrainingInProgress,
    NoTrainedModel,
    ModelFileMissing(Seq<char>),
    ImageMissing(Seq<char>),
    InvalidImageFormat(Seq<char>),
    NoClassNames,
}

/// The checks of a test inference, in order: no training running, a model
/// recorded, its file present, the image present, an accepted image
/// extension, and class names recorded. On success: the model path and the
/// class names to use.
pub open spec fn inference_check_spec(
    s: SessionState,
    image: Seq<char>,
    model_exists: bool,
    image_exists: bool,
) -> Result<(Seq<char>, Seq<Seq<char>>), InferenceProblem> {
    if s.is_training {
        Err(InferenceProblem::TrainingInProgress)
    } else {
        match s.best_pt {
            None => Err(InferenceProblem::NoTrainedModel),
            Some(model) => if !model_exists {
                Err(InferenceProblem::ModelFileMissing(model))
            } else if !image_exists {
                Err(InferenceProblem::ImageMissing(image))
            } else if !image_path_accepted(image) {
                Err(InferenceProblem::InvalidImageFormat(image))
            } else if s.class_names.len() == 0 {
                Err(InferenceProblem::NoClassNames)
            } else {
                Ok((model, s.class_names))
            },
        }
    }
}

/// The message shown for each refusal of a test inference.
pub open spec fn inference_problem_message(p: InferenceProblem) -> Seq<char> {
    match p {
        InferenceProblem::TrainingInProgress =>
            "No se puede ejecutar inferencia mientras se entrena el modelo."@,
        InferenceProblem::NoTrainedModel =>
            "No hay modelo entrenado. Entrena primero antes de probar."@,
        InferenceProblem::ModelFileMissing(p) => "Archivo best.pt no encontrado en: "@ + p,
        InferenceProblem::ImageMissing(p) => "Imagen no encontrada: "@ + p,
        InferenceProblem::InvalidImageFormat(p) => "Formato de imagen invalido: "@ + p,
        InferenceProblem::NoClassNames =>
            "No hay nombres de clases guardados. Re-entrena el modelo."@,
    }
}

/// The message shown for each refusal of a training request.
pub open spec fn start_problem_message(p: StartProblem) -> Seq<char> {
    match p {
        StartProblem::AlreadyTraining => "Ya hay un entrenamiento en curso"@,
        StartProblem::Invalid(c) => class_problem_message(c),
    }
}

// ---------------------------------------------------------------------------
// Executable types
// ---------------------------------------------------------------------------

/// Why a training request is refused.
pub enum StartRejection {
    AlreadyTraining,
    Invalid(ClassValidationError),
}

impl View for StartRejection {
    type V = StartProblem;

    open spec fn view(&self) -> StartProblem {
        match self {
            StartRejection::AlreadyTraining => StartProblem::AlreadyTraining,
            StartRejection::Invalid(e) => StartProblem::Invalid(e@),
        }
    }
}

/// The reply of the command that starts a training.
pub struct StartTrainingResponse {
    pub success: bool,
    pub message: String,
}

impl StartRejection {
    /// The message for the user.
    pub fn message(&self) -> (r: String)
        ensures
            r@ == start_problem_message(self@),
    {
        match self {
            StartRejection::AlreadyTraining => string_of("Ya hay un entrenamiento en curso"),
            StartRejection::Invalid(e) => e.message(),
        }
    }

    /// The command's reply: a request made while a training runs is answered
    /// with an unsuccessful response; invalid classes are an error.
    pub fn reply(&self) -> (r: Result<StartTrainingResponse, String>)
        ensures
            match self@ {
                StartProblem::AlreadyTraining => r matches Ok(resp) && !resp.success
                    && resp.message@ == start_problem_message(self@),
                StartProblem::Invalid(_) => r matches Err(m) && m@ == start_problem_message(
                    self@,
                ),
            },
    {
        match self {
            StartRejection::AlreadyTraining => Ok(
                StartTrainingResponse { success: false, message: self.message() },
            ),
            StartRejection::Invalid(_) => Err(self.message()),
        }
    }
}

/// The reply once a training was started in the background.
pub fn training_started_response() -> (r: StartTrainingResponse)
    ensures
        r.success,
        r.message@ == "Entrenamiento iniciado en segundo plano"@,
{
    StartTrainingResponse {
        success: true,
        message: string_of("Entrenamiento iniciado en segundo plano"),
    }
}

/// What an accepted training request hands to the staging and training steps.
pub struct TrainingPlan {
    /// The classes with trimmed names, in the order submitted.
    pub classes: Vec<ClassInput>,
    /// The trimmed class names, in the same order.
    pub class_names: Vec<String>,
}

/// Why a test inference is refused.
pub enum InferenceRequestError {
    TrainingInProgress,
    NoTrainedModel,
    ModelFileMissing { model_path: String },
    ImageMissing { image_path: String },
    InvalidImageFormat { image_path: String },
    NoClassNames,
}

impl View for InferenceRequestError {
    type V = InferenceProblem;

    open spec fn view(&self) -> InferenceProblem {
        match self {
            InferenceRequestError::TrainingInProgress => InferenceProblem::TrainingInProgress,
            InferenceRequestError::NoTrainedModel => InferenceProblem::NoTrainedModel,
            InferenceRequestError::ModelFileMissing { model_path } =>
                InferenceProblem::ModelFileMissing(model_path@),
            InferenceRequestError::ImageMissing { image_path } => InferenceProblem::ImageMissing(
                image_path@,
            ),
            InferenceRequestError::InvalidImageFormat { image_path } =>
                InferenceProblem::InvalidImageFormat(image_path@),
            InferenceRequestError::NoClassNames => InferenceProblem::NoClassNames,
        }
    }
}

impl InferenceRequestError {
    /// The message for the user.
    pub fn message(&self) -> (r: String)
        ensures
            r@ == inference_problem_message(self@),
    {
        match self {
            InferenceRequestError::TrainingInProgress => string_of(
                "No se puede ejecutar inferencia mientras se entrena el modelo.",
            ),
            InferenceRequestError::NoTrainedModel => string_of(
                "No hay modelo entrenado. Entrena primero antes de probar.",
            ),
            InferenceRequestError::ModelFileMissing { model_path } => {
                let mut m = string_of("Archivo best.pt no encontrado en: ");
                push_str(&mut m, model_path.as_str());
                m
            },
            InferenceRequestError::ImageMissing { image_path } => {
                let mut m = string_of("Imagen no encontrada: ");
                push_str(&mut m, image_path.as_str());
                m
            },
            InferenceRequestError::InvalidImageFormat { image_path } => {
                let mut m = string_of("Formato de imagen invalido: ");
                push_str(&mut m, image_path.as_str());
                m
            },
            InferenceRequestError::NoClassNames => string_of(
                "No hay nombres de clases guardados. Re-entrena el modelo.",
            ),
        }
    }
}

/// What an accepted test inference runs with.
pub struct InferencePlan {
    pub model_path: String,
    pub image_path: String,
    pub class_names: Vec<String>,
}

fn clone_strings(v: &Vec<String>) -> (r: Vec<String>)
    ensures
        r@ == v@,
{
    let mut out: Vec<String> = Vec::new();
    let mut k: usize = 0;
    while k < v.len()
        invariant
            k <= v@.len(),
            out@ == v@.take(k as int),
        decreases v.len() - k,
    {
        out.push(v[k].clone());
        k = k + 1;
        proof {
            assert(out@ =~= v@.take(k as int));
        }
    }
    proof {
        assert(v@.take(v@.len() as int) =~= v@);
    }
    out
}

fn clone_opt_string(v: &Option<String>) -> (r: Option<String>)
    ensures
        r == *v,
{
    match v {
        Some(s) => Some(s.clone()),
        None => None,
    }
}

/// The session of the application.
pub struct TrainingSession {
    is_training: bool,
    latest_best_pt: Option<String>,
    latest_class_names: Vec<String>,
    training_temp_dir: Option<String>,
}

impl View for TrainingSession {
    type V = SessionState;

    closed spec fn view(&self) -> SessionState {
        SessionState {
            is_training: self.is_training,
            best_pt: opt_view(self.latest_best_pt),
            class_names: string_views(self.latest_class_names@),
            temp_dir: opt_view(self.training_temp_dir),
        }
    }
}

impl TrainingSession {
    /// A new, idle session.
    pub fn new() -> (r: Self)
        ensures
            r@ == idle_state(),
    {
        let r = TrainingSession {
            is_training: false,
            latest_best_pt: None,
            latest_class_names: Vec::new(),
            training_temp_dir: None,
        };
        proof {
            assert(string_views(r.latest_class_names@) =~= Seq::<Seq<char>>::empty());
        }
        r
    }

    /// Whether a training runs.
    pub fn is_training(&self) -> (r: bool)
        ensures
            r == self@.is_training,
    {
        self.is_training
    }

    /// The path of the latest trained model.
    pub fn latest_best_pt(&self) -> (r: Option<String>)
        ensures
            opt_view(r) == self@.best_pt,
    {
        clone_opt_string(&self.latest_best_pt)
    }

    /// The class names of the latest training request.
    pub fn latest_class_names(&self) -> (r: Vec<String>)
        ensures
            string_views(r@) == self@.class_names,
    {
        clone_strings(&self.latest_class_names)
    }

    /// The staging folder of the running training.
    pub fn training_temp_dir(&self) -> (r: Option<String>)
        ensures
            opt_view(r) == self@.temp_dir,
    {
        clone_opt_string(&self.training_temp_dir)
    }

    /// A request to train on `classes`: refused while a training runs or when
    /// the classes have a problem (the session is then unchanged); otherwise
    /// the session is training and the plan carries the trimmed classes.
    pub fn request_training(&mut self, classes: &Vec<ClassInput>) -> (r: Result<
        TrainingPlan,
        StartRejection,
    >)
        ensures
            match start_spec(old(self)@, classes@) {
                Err(p) => r matches Err(e) && e@ == p && final(self)@ == old(self)@,
                Ok(next) => r matches Ok(plan) && final(self)@ == next && string_views(
                    plan.class_names@,
                ) == trimmed_names(classes@) && plan.classes@.len() == classes@.len() && (forall|
                    i: int,
                |
                    0 <= i < classes@.len() ==> (#[trigger] plan.classes@[i]).name@ == trimmed(
                        classes@[i].name@,
                    ) && plan.classes@[i].images@ == classes@[i].images@),
            },
    {
        if self.is_training {
            return Err(StartRejection::AlreadyTraining);
        }
        match validate_training_classes(classes) {
            Err(e) => {
                return Err(StartRejection::Invalid(e));
            },
            Ok(()) => {},
        }
        let mut plan_classes: Vec<ClassInput> = Vec::new();
        let mut names: Vec<String> = Vec::new();
        let mut i: usize = 0;
        while i < classes.len()
            invariant
                i <= classes@.len(),
                plan_classes@.len() == i,
                names@.len() == i,
                string_views(names@) == trimmed_names(classes@).take(i as int),
                forall|k: int|
                    0 <= k < i ==> (#[trigger] plan_classes@[k]).name@ == trimmed(
                        classes@[k].name@,
                    ) && plan_classes@[k].images@ == classes@[k].images@,
            decreases classes.len() - i,
        {
            let name = trim(classes[i].name.as_str());
            let images = clone_strings(&classes[i].images);
            let ghost prev = names@;
            let listed = trim(classes[i].name.as_str());
            names.push(listed);
            plan_classes.push(ClassInput { name, images });
            proof {
                assert(names@ == prev.push(listed));
                assert forall|k: int| 0 <= k <= i implies #[trigger] string_views(names@)[k]
                    == trimmed_names(classes@).take(i + 1)[k] by {
                    if k < i {
                        assert(string_views(names@)[k] == names@[k]@);
                        assert(names@[k] == prev[k]);
                        assert(string_views(prev)[k] == prev[k]@);
                    }
                }
            }
            i = i + 1;
            proof {
                assert(string_views(names@) =~= trimmed_names(classes@).take(i as int));
            }
        }
        proof {
            assert(trimmed_names(classes@).take(classes@.len() as int) =~= trimmed_names(
                classes@,
            ));
        }
        self.is_training = true;
        self.latest_class_names = clone_strings(&names);
        Ok(TrainingPlan { classes: plan_classes, class_names: names })
    }

    /// Preparing the dataset failed with the error text `detail`: the session
    /// stops training, and the failed result of the run is returned.
    pub fn preparation_failed(&mut self, class_names: Vec<String>, detail: &str) -> (r:
        TrainingResult)
        ensures
            final(self)@ == preparation_failed_spec(old(self)@),
            final(self)@.best_pt == old(self)@.best_pt,
            final(self)@.class_names == old(self)@.class_names,
            !final(self)@.is_training,
            !r.success,
            r.best_pt_path is None,
            r.class_names == class_names,
            r.error_message matches Some(m) && m@ == "Error preparando dataset: "@ + detail@,
    {
        proof {
            law_failed_preparation_keeps_model(old(self)@);
        }
        self.is_training = false;
        let mut m = string_of("Error preparando dataset: ");
        push_str(&mut m, detail);
        failed_training(class_names, m)
    }

    /// The dataset was staged in `temp_dir`.
    pub fn dataset_prepared(&mut self, temp_dir: String)
        ensures
            final(self)@ == dataset_prepared_spec(old(self)@, temp_dir@),
    {
        self.training_temp_dir = Some(temp_dir);
    }

    /// The training run ended with `result`.
    pub fn training_finished(&mut self, result: &TrainingResult)
        ensures
            final(self)@ == finished_spec(old(self)@, opt_view(result.best_pt_path)),
    {
        match &result.best_pt_path {
            Some(p) => {
                self.latest_best_pt = Some(p.clone());
            },
            None => {},
        }
        self.training_temp_dir = None;
        self.is_training = false;
    }

    /// Forwards one output line of the training script: returns the event
    /// name it goes out under, and records the model path of a `complete`
    /// line.
    pub fn record_stream_line(&mut self, line_type: &str, best_pt_field: Option<String>) -> (r:
        String)
        ensures
            r@ == training_event_name_spec(line_type@),
            line_type@ == "complete"@ && best_pt_field is Some ==> final(self)@.best_pt
                == opt_view(best_pt_field),
            final(self)@ == (SessionState {
                best_pt: best_pt_after_line(old(self)@.best_pt, line_type@, opt_view(best_pt_field)),
                ..old(self)@
            }),
    {
        let current = clone_opt_string(&self.latest_best_pt);
        self.latest_best_pt = capture_best_pt(current, line_type, best_pt_field);
        training_event_name(line_type)
    }

    /// Forgets the latest model.
    pub fn clear_trained_model(&mut self)
        ensures
            final(self)@ == cleared_spec(old(self)@),
    {
        self.latest_best_pt = None;
    }

    /// Whether a trained model is available: one is recorded and its file
    /// exists (`model_file_exists` reports that for the recorded path).
    pub fn has_trained_model(&self, model_file_exists: bool) -> (r: bool)
        ensures
            r == (self@.best_pt is Some && model_file_exists),
    {
        self.latest_best_pt.is_some() && model_file_exists
    }

    /// The checks before a test inference on `image_path`. `model_exists`
    /// reports whether the file at the recorded model path exists and
    /// `image_exists` whether the image file exists.
    pub fn check_inference_request(&self, image_path: &str, model_exists: bool, image_exists: bool) -> (r:
        Result<InferencePlan, InferenceRequestError>)
        ensures
            match inference_check_spec(self@, image_path@, model_exists, image_exists) {
                Err(p) => r matches Err(e) && e@ == p,
                Ok((model, names)) => r matches Ok(plan) && plan.model_path@ == model
                    && plan.image_path@ == image_path@ && string_views(plan.class_names@) == names,
            },
    {
        if self.is_training {
            return Err(InferenceRequestError::TrainingInProgress);
        }
        let model_path = match &self.latest_best_pt {
            None => {
                return Err(InferenceRequestError::NoTrainedModel);
            },
            Some(p) => p.clone(),
        };
        if !model_exists {
            return Err(InferenceRequestError::ModelFileMissing { model_path });
        }
        if !image_exists {
            return Err(InferenceRequestError::ImageMissing { image_path: string_of(image_path) });
        }
        if !is_valid_image_extension(image_path) {
            return Err(
                InferenceRequestError::InvalidImageFormat { image_path: string_of(image_path) },
            );
        }
        if self.latest_class_names.len() == 0 {
            return Err(InferenceRequestError::NoClassNames);
        }
        Ok(
            InferencePlan {
                model_path,
                image_path: string_of(image_path),
                class_names: clone_strings(&self.latest_class_names),
            },
        )
    }
}

// ---------------------------------------------------------------------------
// Laws of the session
// ---------------------------------------------------------------------------

/// While a training runs, no other training can start.
pub proof fn law_no_second_training(s: SessionState, classes: Seq<ClassInput>)
    requires
        s.is_training,
    ensures
        start_spec(s, classes) == Err::<SessionState, StartProblem>(StartProblem::AlreadyTraining),
{
}

/// While a training runs, no test inference runs.
pub proof fn law_no_inference_during_training(
    s: SessionState,
    image: Seq<char>,
    model_exists: bool,
    image_exists: bool,
)
    requires
        s.is_training,
    ensures
        inference_check_spec(s, image, model_exists, image_exists) == Err::<
            (Seq<char>, Seq<Seq<char>>),
            InferenceProblem,
        >(InferenceProblem::TrainingInProgress),
{
}

/// An accepted request starts a training, and whether it then finishes or its
/// preparation fails, the session is idle again and accepts the next valid
/// request.
pub proof fn law_training_can_start_again(
    s: SessionState,
    classes: Seq<ClassInput>,
    best: Option<Seq<char>>,
    next_classes: Seq<ClassInput>,
)
    requires
        !s.is_training,
        classes_problem(classes) is None,
        classes_problem(next_classes) is None,
    ensures
        start_spec(s, classes) is Ok,
        start_spec(s, classes)->Ok_0.is_training,
        start_spec(finished_spec(start_spec(s, classes)->Ok_0, best), next_classes) is Ok,
        start_spec(preparation_failed_spec(start_spec(s, classes)->Ok_0), next_classes) is Ok,
{
}

/// A training that reports a model makes that model, with the class names of
/// its request, the one a later test inference uses.
pub proof fn law_trained_model_serves_inference(
    s: SessionState,
    classes: Seq<ClassInput>,
    dir: Seq<char>,
    best: Seq<char>,
    image: Seq<char>,
)
    requires
        !s.is_training,
        classes_problem(classes) is None,
        image_path_accepted(image),
    ensures
        ({
            let started = start_spec(s, classes)->Ok_0;
            let done = finished_spec(dataset_prepared_spec(started, dir), Some(best));
            inference_check_spec(done, image, true, true) == Ok::<
                (Seq<char>, Seq<Seq<char>>),
                InferenceProblem,
            >((best, trimmed_names(classes)))
        }),
{
    assert(classes.len() >= 2);
    assert(trimmed_names(classes).len() >= 2);
}

/// A training that reports no model leaves the previous model in place.
pub proof fn law_failed_training_keeps_model(s: SessionState)
    ensures
        finished_spec(s, None).best_pt == s.best_pt,
{
}

/// A failed dataset preparation stops the training and leaves the recorded
/// model, the class names and the staging folder as they were.
pub proof fn law_failed_preparation_keeps_model(s: SessionState)
    ensures
        preparation_failed_spec(s).best_pt == s.best_pt,
        preparation_failed_spec(s).class_names == s.class_names,
        preparation_failed_spec(s).temp_dir == s.temp_dir,
        !preparation_failed_spec(s).is_training,
{
}

/// A model recorded before a training request still serves test inference
/// when that request's dataset preparation fails: the session is idle, the
/// model is the old one and the class names are those of the request.
pub proof fn law_model_survives_failed_preparation(
    s: SessionState,
    classes: Seq<ClassInput>,
    model: Seq<char>,
    image: Seq<char>,
)
    requires
        !s.is_training,
        s.best_pt == Some(model),
        classes_problem(classes) is None,
        image_path_accepted(image),
    ensures
        ({
            let after = preparation_failed_spec(start_spec(s, classes)->Ok_0);
            &&& !after.is_training
            &&& after.best_pt == Some(model)
            &&& inference_check_spec(after, image, true, true) == Ok::<
                (Seq<char>, Seq<Seq<char>>),
                InferenceProblem,
            >((model, trimmed_names(classes)))
        }),
{
    law_failed_preparation_keeps_model(start_spec(s, classes)->Ok_0);
    assert(classes.len() >= 2);
    assert(trimmed_names(classes).len() >= 2);
}

/// Once the model is cleared, a test inference is refused for want of a model
/// (unless a training runs).
pub proof fn law_cleared_model_refuses_inference(
    s: SessionState,
    image: Seq<char>,
    model_exists: bool,
    image_exists: bool,
)
    requires
        !s.is_training,
    ensures
        inference_check_spec(cleared_spec(s), image, model_exists, image_exists) == Err::<
            (Seq<char>, Seq<Seq<char>>),
            InferenceProblem,
        >(InferenceProblem::NoTrainedModel),
{
}

} // verus!
