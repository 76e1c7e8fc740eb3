//! Training requests: the validation of the classes a user submits, the
//! command-line argument that carries the class names, the result of a run of
//! the training script, and the reading of the script's output lines.
use vstd::prelude::*;

use crate::json::{json_parses, json_probe, json_str_member};
use crate::paths::{image_path_accepted, is_valid_image_extension};
use crate::text::{
    is_blank, is_blank_text, join_strings, join_with, push_debug_option_i32, push_str, same_text,
    string_of, string_views, trim, trimmed, opt_view,
};

verus! {

// ---------------------------------------------------------------------------
// Class names on the command line
// ---------------------------------------------------------------------------

/// The separator between class names in the argument handed to the scripts
/// (the ASCII unit separator).
pub open spec fn class_separator() -> Seq<char> {
    seq!['\x1f']
}

/// The class names joined by the unit separator `\x1f`, the single argument
/// that the training and inference scripts split again.
pub fn join_class_names_for_arg(class_names: &Vec<String>) -> (r: String)
    ensures
        r@ == join_with(string_views(class_names@), class_separator()),
{
    let sep = "\x1f";
    proof {
        reveal_strlit("\x1f");
        assert(sep@ =~= class_separator());
    }
    join_strings(class_names, sep)
}

/// The pieces of `s` between occurrences of `sep_char` (`str::split` with one
/// character); always at least one piece.
pub open spec fn split_at_char(s: Seq<char>, sep_char: char) -> Seq<Seq<char>>
    decreases s.len(),
{
    if s.len() == 0 {
        seq![Seq::empty()]
    } else {
        let rest = split_at_char(s.drop_last(), sep_char);
        if s.last() == sep_char {
            rest.push(Seq::empty())
        } else {
            rest.update(rest.len() - 1, rest.last().push(s.last()))
        }
    }
}

proof fn lemma_split_nonempty(s: Seq<char>, c: char)
    ensures
        split_at_char(s, c).len() >= 1,
    decreases s.len(),
{
    if s.len() > 0 {
        lemma_split_nonempty(s.drop_last(), c);
    }
}

proof fn lemma_split_append_free(a: Seq<char>, b: Seq<char>, c: char)
    requires
        forall|i: int| 0 <= i < b.len() ==> b[i] != c,
    ensures
        split_at_char(a + b, c) == split_at_char(a, c).update(
            split_at_char(a, c).len() - 1,
            split_at_char(a, c).last() + b,
        ),
    decreases b.len(),
{
    lemma_split_nonempty(a, c);
    if b.len() == 0 {
        assert(a + b =~= a);
        assert(split_at_char(a, c).last() + b =~= split_at_char(a, c).last());
        assert(split_at_char(a, c).update(split_at_char(a, c).len() - 1, split_at_char(a, c).last())
            =~= split_at_char(a, c));
    } else {
        let b0 = b.drop_last();
        lemma_split_append_free(a, b0, c);
        assert((a + b).drop_last() =~= a + b0);
        assert((a + b).last() == b.last());
        let sa = split_at_char(a, c);
        let mid = sa.update(sa.len() - 1, sa.last() + b0);
        assert(mid.last() == sa.last() + b0);
        assert(mid.last().push(b.last()) =~= sa.last() + b);
        assert(mid.update(mid.len() - 1, mid.last().push(b.last())) =~= sa.update(
            sa.len() - 1,
            sa.last() + b,
        ));
    }
}

proof fn lemma_split_sep_then(a: Seq<char>, b: Seq<char>, c: char)
    requires
        forall|i: int| 0 <= i < b.len() ==> b[i] != c,
    ensures
        split_at_char(a + seq![c] + b, c) == split_at_char(a, c).push(b),
{
    let a1 = a + seq![c];
    assert(a1.drop_last() =~= a);
    assert(a1.last() == c);
    assert(split_at_char(a1, c) == split_at_char(a, c).push(Seq::empty()));
    lemma_split_append_free(a1, b, c);
    let s1 = split_at_char(a1, c);
    assert(s1.last() + b =~= b);
    assert(s1.update(s1.len() - 1, b) =~= split_at_char(a, c).push(b));
    assert(a1 + b =~= a + seq![c] + b);
}

/// No name holds the separator character.
pub open spec fn free_of_separator(names: Seq<Seq<char>>) -> bool {
    forall|i: int, k: int|
        0 <= i < names.len() && 0 <= k < names[i].len() ==> #[trigger] names[i][k] != '\x1f'
}

/// Splitting the joined argument at the separator gives the names back, when
/// there is at least one name and none holds the separator itself.
pub proof fn law_class_names_argument_round_trip(names: Seq<Seq<char>>)
    requires
        names.len() >= 1,
        free_of_separator(names),
    ensures
        split_at_char(join_with(names, class_separator()), '\x1f') == names,
    decreases names.len(),
{
    if names.len() == 1 {
        let n = names[0];
        assert(forall|k: int| 0 <= k < n.len() ==> n[k] != '\x1f') by {
            assert forall|k: int| 0 <= k < n.len() implies n[k] != '\x1f' by {
                assert(names[0][k] != '\x1f');
            }
        }
        lemma_split_append_free(Seq::empty(), n, '\x1f');
        assert(Seq::<char>::empty() + n =~= n);
        assert(split_at_char(Seq::<char>::empty(), '\x1f') == seq![Seq::<char>::empty()]);
        assert(seq![Seq::<char>::empty()].update(0, Seq::<char>::empty() + n) =~= names);
    } else {
        let init = names.drop_last();
        assert forall|i: int, k: int|
            0 <= i < init.len() && 0 <= k < init[i].len() implies #[trigger] init[i][k]
            != '\x1f' by {
            assert(init[i] == names[i]);
        }
        law_class_names_argument_round_trip(init);
        let last = names.last();
        assert forall|k: int| 0 <= k < last.len() implies last[k] != '\x1f' by {
            assert(names[names.len() - 1][k] != '\x1f');
        }
        lemma_split_sep_then(join_with(init, class_separator()), last, '\x1f');
        assert(init.push(last) =~= names);
    }
}

/// The number of characters of all the names together.
pub open spec fn total_len(names: Seq<Seq<char>>) -> nat
    decreases names.len(),
{
    if names.len() == 0 {
        0
    } else {
        total_len(names.drop_last()) + names.last().len()
    }
}

/// The joined argument is as long as the names together, plus one separator
/// between each two of them.
pub proof fn law_class_names_argument_length(names: Seq<Seq<char>>)
    requires
        names.len() >= 1,
    ensures
        join_with(names, class_separator()).len() == total_len(names) + names.len() - 1,
    decreases names.len(),
{
    if names.len() > 1 {
        law_class_names_argument_length(names.drop_last());
        assert(join_with(names, class_separator()) == join_with(names.drop_last(), class_separator())
            + class_separator() + names.last());
    } else {
        assert(total_len(names.drop_last()) == 0);
        assert(names.last() == names[0]);
    }
}

// ---------------------------------------------------------------------------
// Validation of the submitted classes
// ---------------------------------------------------------------------------

/// One class as the user submits it: a name and the paths of its images.
pub struct ClassInput {
    pub name: String,
    pub images: Vec<String>,
}

/// Why a set of classes cannot be trained, as a specification value.
pub ghost enum ClassProblem {
    NoClasses,
    TooFewClasses,
    NoImages,
    UnnamedClass,
    ClassWithoutImages(Seq<char>),
    InvalidImageFormat(Seq<char>, Seq<char>),
}

/// Why a set of classes cannot be trained.
pub enum ClassValidationError {
    NoClasses,
    TooFewClasses,
    NoImages,
    UnnamedClass,
    ClassWithoutImages { class_name: String },
    InvalidImageFormat { class_name: String, path: String },
}

impl View for ClassValidationError {
    type V = ClassProblem;

    open spec fn view(&self) -> ClassProblem {
        match self {
            ClassValidationError::NoClasses => ClassProblem::NoClasses,
            ClassValidationError::TooFewClasses => ClassProblem::TooFewClasses,
            ClassValidationError::NoImages => ClassProblem::NoImages,
            ClassValidationError::UnnamedClass => ClassProblem::UnnamedClass,
            ClassValidationError::ClassWithoutImages { class_name } => ClassProblem::ClassWithoutImages(
                class_name@,
            ),
            ClassValidationError::InvalidImageFormat { class_name, path } =>
                ClassProblem::InvalidImageFormat(class_name@, path@),
        }
    }
}

/// The message shown for each problem.
pub open spec fn class_problem_message(p: ClassProblem) -> Seq<char> {
    match p {
        ClassProblem::NoClasses => "No hay clases definidas. Crea al menos 2 clases con imagenes."@,
        ClassProblem::TooFewClasses => "Se requieren MINIMO 2 clases para entrenar un clasificador."@,
        ClassProblem::NoImages => "No hay imagenes. Agrega al menos una por clase."@,
        ClassProblem::UnnamedClass => "Hay una clase con nombre vacio."@,
        ClassProblem::ClassWithoutImages(name) => "La clase '"@ + name
            + "' no tiene ninguna imagen. Agrega al menos 1."@,
        ClassProblem::InvalidImageFormat(name, path) => "Formato de imagen invalido en clase '"@
            + name + "': "@ + path,
    }
}

impl ClassValidationError {
    /// The message for the user.
    pub fn message(&self) -> (r: String)
        ensures
            r@ == class_problem_message(self@),
    {
        match self {
            ClassValidationError::NoClasses => string_of(
                "No hay clases definidas. Crea al menos 2 clases con imagenes.",
            ),
            ClassValidationError::TooFewClasses => string_of(
                "Se requieren MINIMO 2 clases para entrenar un clasificador.",
            ),
            ClassValidationError::NoImages => string_of(
                "No hay imagenes. Agrega al menos una por clase.",
            ),
            ClassValidationError::UnnamedClass => string_of("Hay una clase con nombre vacio."),
            ClassValidationError::ClassWithoutImages { class_name } => {
                let mut m = string_of("La clase '");
                push_str(&mut m, class_name.as_str());
                push_str(&mut m, "' no tiene ninguna imagen. Agrega al menos 1.");
                m
            },
            ClassValidationError::InvalidImageFormat { class_name, path } => {
                let mut m = string_of("Formato de imagen invalido en clase '");
                push_str(&mut m, class_name.as_str());
                push_str(&mut m, "': ");
                push_str(&mut m, path.as_str());
                m
            },
        }
    }
}

/// Index of the first image path, from `from` on, without an accepted
/// image extension.
pub open spec fn first_invalid_image(images: Seq<String>, from: int) -> Option<int>
    decreases images.len() - from,
{
    if from < 0 || from >= images.len() {
        None
    } else if !image_path_accepted(images[from]@) {
        Some(from)
    } else {
        first_invalid_image(images, from + 1)
    }
}

/// What is wrong with one class, checked in order: a blank name, no images,
/// then the first image with an unaccepted extension.
pub open spec fn class_problem(c: ClassInput) -> Option<ClassProblem> {
    let name = trimmed(c.name@);
    if name.len() == 0 {
        Some(ClassProblem::UnnamedClass)
    } else if c.images@.len() == 0 {
        Some(ClassProblem::ClassWithoutImages(name))
    } else {
        match first_invalid_image(c.images@, 0) {
            Some(j) => Some(ClassProblem::InvalidImageFormat(name, c.images@[j]@)),
            None => None,
        }
    }
}

/// The problem of the first class, from `from` on, that has one.
pub open spec fn first_class_problem(classes: Seq<ClassInput>, from: int) -> Option<ClassProblem>
    decreases classes.len() - from,
{
    if from < 0 || from >= classes.len() {
        None
    } else {
        match class_problem(classes[from]) {
            Some(p) => Some(p),
            None => first_class_problem(classes, from + 1),
        }
    }
}

/// What stops `classes` from being trained, checked in the order the
/// training command checks: no classes, fewer than two, no image at all,
/// then the first class with a problem.
pub open spec fn classes_problem(classes: Seq<ClassInput>) -> Option<ClassProblem> {
    if classes.len() == 0 {
        Some(ClassProblem::NoClasses)
    } else if classes.len() < 2 {
        Some(ClassProblem::TooFewClasses)
    } else if forall|i: int| 0 <= i < classes.len() ==> (#[trigger] classes[i]).images@.len() == 0 {
        Some(ClassProblem::NoImages)
    } else {
        first_class_problem(classes, 0)
    }
}

/// Every class can be trained: at least two classes, each with a non-blank
/// name and at least one image, and every image with an accepted extension.
pub open spec fn classes_fit_for_training(classes: Seq<ClassInput>) -> bool {
    &&& classes.len() >= 2
    &&& forall|i: int| 0 <= i < classes.len() ==> !is_blank((#[trigger] classes[i]).name@)
    &&& forall|i: int| 0 <= i < classes.len() ==> (#[trigger] classes[i]).images@.len() > 0
    &&& forall|i: int, j: int|
        0 <= i < classes.len() && 0 <= j < classes[i].images@.len() ==> image_path_accepted(
            #[trigger] classes[i].images@[j]@,
        )
}

/// The search for an unaccepted image finds the first one: when it finds
/// index `k`, that image is not accepted and all before it (from `from`)
/// are; when it finds none, every image from `from` on is accepted.
pub proof fn law_first_invalid_image(images: Seq<String>, from: int)
    requires
        0 <= from,
    ensures
        first_invalid_image(images, from) matches Some(k) ==> from <= k < images.len()
            && !image_path_accepted(images[k]@) && forall|j: int|
            from <= j < k ==> image_path_accepted(#[trigger] images[j]@),
        first_invalid_image(images, from) is None ==> forall|j: int|
            from <= j < images.len() ==> image_path_accepted(#[trigger] images[j]@),
    decreases images.len() - from,
{
    if from < images.len() && image_path_accepted(images[from]@) {
        law_first_invalid_image(images, from + 1);
    }
}

proof fn lemma_first_class_problem_none(classes: Seq<ClassInput>, from: int)
    requires
        0 <= from,
        first_class_problem(classes, from) is None,
    ensures
        forall|i: int| from <= i < classes.len() ==> class_problem(#[trigger] classes[i]) is None,
    decreases classes.len() - from,
{
    if from < classes.len() {
        lemma_first_class_problem_none(classes, from + 1);
    }
}

/// Classes without a problem can be trained: at least two of them, every
/// name non-blank, every class with images, and every image of every class
/// with an accepted extension.
pub proof fn law_accepted_classes_are_fit(classes: Seq<ClassInput>)
    ensures
        classes_problem(classes) is None ==> classes_fit_for_training(classes),
{
    if classes_problem(classes) is None {
        lemma_first_class_problem_none(classes, 0);
        assert forall|i: int| 0 <= i < classes.len() implies !is_blank((#[trigger] classes[i]).name@)
            && classes[i].images@.len() > 0 && forall|j: int|
            0 <= j < classes[i].images@.len() ==> image_path_accepted(
                #[trigger] classes[i].images@[j]@,
            ) by {
            assert(class_problem(classes[i]) is None);
            law_first_invalid_image(classes[i].images@, 0);
        }
        assert forall|i: int, j: int|
            0 <= i < classes.len() && 0 <= j < classes[i].images@.len() implies image_path_accepted(
            #[trigger] classes[i].images@[j]@,
        ) by {
            assert(class_problem(classes[i]) is None);
            law_first_invalid_image(classes[i].images@, 0);
        }
    }
}

fn check_images(images: &Vec<String>) -> (r: Option<usize>)
    ensures
        match r {
            Some(j) => first_invalid_image(images@, 0) == Some(j as int),
            None => first_invalid_image(images@, 0) == None::<int>,
        },
        r matches Some(j) ==> j < images@.len(),
{
    let mut j: usize = 0;
    while j < images.len()
        invariant
            j <= images@.len(),
            first_invalid_image(images@, 0) == first_invalid_image(images@, j as int),
        decreases images.len() - j,
    {
        if !is_valid_image_extension(images[j].as_str()) {
            return Some(j);
        }
        j = j + 1;
    }
    None
}

fn check_class(c: &ClassInput) -> (r: Option<ClassValidationError>)
    ensures
        match r {
            Some(e) => class_problem(*c) == Some(e@),
            None => class_problem(*c) == None::<ClassProblem>,
        },
{
    let name = trim(c.name.as_str());
    if is_blank_text(c.name.as_str()) {
        return Some(ClassValidationError::UnnamedClass);
    }
    if c.images.len() == 0 {
        return Some(ClassValidationError::ClassWithoutImages { class_name: name });
    }
    match check_images(&c.images) {
        Some(j) => Some(
            ClassValidationError::InvalidImageFormat {
                class_name: name,
                path: c.images[j].clone(),
            },
        ),
        None => None,
    }
}

/// Checks the classes submitted for training; the error is the first problem
/// in the order of `classes_problem`.
pub fn validate_training_classes(classes: &Vec<ClassInput>) -> (r: Result<(), ClassValidationError>)
    ensures
        match r {
            Ok(()) => classes_problem(classes@) == None::<ClassProblem>,
            Err(e) => classes_problem(classes@) == Some(e@),
        },
        r is Ok ==> classes_fit_for_training(classes@),
{
    proof {
        law_accepted_classes_are_fit(classes@);
    }
    if classes.len() == 0 {
        return Err(ClassValidationError::NoClasses);
    }
    if classes.len() < 2 {
        return Err(ClassValidationError::TooFewClasses);
    }
    let mut any_image = false;
    let mut i: usize = 0;
    while i < classes.len()
        invariant
            i <= classes@.len(),
            any_image <==> exists|k: int| 0 <= k < i && (#[trigger] classes@[k]).images@.len() != 0,
        decreases classes.len() - i,
    {
        if classes[i].images.len() != 0 {
            any_image = true;
        }
        i = i + 1;
    }
    if !any_image {
        return Err(ClassValidationError::NoImages);
    }
    let mut i: usize = 0;
    while i < classes.len()
        invariant
            i <= classes@.len(),
            first_class_problem(classes@, 0) == first_class_problem(classes@, i as int),
            classes@.len() >= 2,
            exists|k: int| 0 <= k < classes@.len() && (#[trigger] classes@[k]).images@.len() != 0,
        decreases classes.len() - i,
    {
        match check_class(&classes[i]) {
            Some(e) => {
                proof {
                    assert(first_class_problem(classes@, i as int) == Some(e@));
                    assert(!(forall|k: int|
                        0 <= k < classes@.len() ==> (#[trigger] classes@[k]).images@.len() == 0));
                }
                return Err(e);
            },
            None => {},
        }
        i = i + 1;
    }
    Ok(())
}

// ---------------------------------------------------------------------------
// The result of a training run
// ---------------------------------------------------------------------------

/// The outcome of a training run, as reported to the user interface.
pub struct TrainingResult {
    pub success: bool,
    pub best_pt_path: Option<String>,
    pub class_names: Vec<String>,
    pub error_message: Option<String>,
}

/// What a finished training process amounts to: success with the reported
/// model path when the process succeeded and the file is there, otherwise a
/// failure with the matching message.
pub open spec fn training_outcome_spec(
    exit_success: bool,
    exit_code: Option<i32>,
    best_pt: Option<Seq<char>>,
    best_pt_exists: bool,
) -> (bool, Option<Seq<char>>, Option<Seq<char>>) {
    if exit_success {
        match best_pt {
            Some(path) => if best_pt_exists {
                (true, Some(path), None)
            } else {
                (
                    false,
                    None,
                    Some("Entrenamiento completado pero best.pt no se encontro en: "@ + path),
                )
            },
            None => (
                false,
                None,
                Some("Entrenamiento termino pero no se recibio la ruta de best.pt"@),
            ),
        }
    } else {
        (
            false,
            None,
            Some("El proceso Python devolvio codigo de error: "@ + crate::text::debug_option_i32(
                exit_code,
            )),
        )
    }
}

/// The result of a finished training process, from its exit status, the
/// model path the script reported (if any) and whether that file exists.
pub fn training_outcome(
    class_names: Vec<String>,
    exit_success: bool,
    exit_code: Option<i32>,
    best_pt: Option<String>,
    best_pt_exists: bool,
) -> (r: TrainingResult)
    ensures
        (r.success, opt_view(r.best_pt_path), opt_view(r.error_message)) == training_outcome_spec(
            exit_success,
            exit_code,
            opt_view(best_pt),
            best_pt_exists,
        ),
        r.class_names == class_names,
{
    if exit_success {
        match best_pt {
            Some(path) => {
                if best_pt_exists {
                    TrainingResult {
                        success: true,
                        best_pt_path: Some(path),
                        class_names,
                        error_message: None,
                    }
                } else {
                    let mut m = string_of(
                        "Entrenamiento completado pero best.pt no se encontro en: ",
                    );
                    push_str(&mut m, path.as_str());
                    TrainingResult {
                        success: false,
                        best_pt_path: None,
                        class_names,
                        error_message: Some(m),
                    }
                }
            },
            None => TrainingResult {
                success: false,
                best_pt_path: None,
                class_names,
                error_message: Some(
                    string_of("Entrenamiento termino pero no se recibio la ruta de best.pt"),
                ),
            },
        }
    } else {
        let mut m = string_of("El proceso Python devolvio codigo de error: ");
        push_debug_option_i32(&mut m, exit_code);
        TrainingResult { success: false, best_pt_path: None, class_names, error_message: Some(m) }
    }
}

/// A failed run with the given message (a step before the script failed).
pub fn failed_training(class_names: Vec<String>, message: String) -> (r: TrainingResult)
    ensures
        !r.success,
        r.best_pt_path is None,
        r.class_names == class_names,
        r.error_message == Some(message),
{
    TrainingResult { success: false, best_pt_path: None, class_names, error_message: Some(message) }
}

// ---------------------------------------------------------------------------
// Output lines of the scripts
// ---------------------------------------------------------------------------

/// The model path carried by a stream: a `complete` line that names a model
/// path replaces what was known; any other line leaves it.
pub open spec fn best_pt_after_line(
    current: Option<Seq<char>>,
    line_type: Seq<char>,
    best_pt_field: Option<Seq<char>>,
) -> Option<Seq<char>> {
    if line_type == "complete"@ && best_pt_field is Some {
        best_pt_field
    } else {
        current
    }
}

/// A `complete` line that names a model path makes it the known path,
/// whatever path was known before; any other line leaves the known path as
/// it was.
pub proof fn law_complete_line_sets_model(
    current: Option<Seq<char>>,
    line_type: Seq<char>,
    best_pt_field: Option<Seq<char>>,
)
    ensures
        line_type == "complete"@ && best_pt_field is Some ==> best_pt_after_line(
            current,
            line_type,
            best_pt_field,
        ) == best_pt_field,
        line_type != "complete"@ || best_pt_field is None ==> best_pt_after_line(
            current,
            line_type,
            best_pt_field,
        ) == current,
{
}

/// The model path known after one more output line of the training script.
pub fn capture_best_pt(current: Option<String>, line_type: &str, best_pt_field: Option<String>) -> (r:
    Option<String>)
    ensures
        opt_view(r) == best_pt_after_line(opt_view(current), line_type@, opt_view(best_pt_field)),
        line_type@ == "complete"@ && best_pt_field is Some ==> opt_view(r) == opt_view(
            best_pt_field,
        ),
        line_type@ != "complete"@ || best_pt_field is None ==> opt_view(r) == opt_view(current),
{
    proof {
        law_complete_line_sets_model(opt_view(current), line_type@, opt_view(best_pt_field));
    }
    if same_text(line_type, "complete") && best_pt_field.is_some() {
        best_pt_field
    } else {
        current
    }
}

/// The user-interface event that carries an output line of a given type.
pub open spec fn training_event_name_spec(line_type: Seq<char>) -> Seq<char> {
    if line_type == "progress"@ {
        "training:progress"@
    } else if line_type == "log"@ {
        "training:log"@
    } else if line_type == "hyperparameters"@ {
        "training:hyperparameters"@
    } else if line_type == "complete"@ {
        "training:json_complete"@
    } else if line_type == "error"@ {
        "training:error"@
    } else {
        "training:raw"@
    }
}

/// The event name under which an output line of `line_type` is forwarded.
pub fn training_event_name(line_type: &str) -> (r: String)
    ensures
        r@ == training_event_name_spec(line_type@),
{
    if same_text(line_type, "progress") {
        string_of("training:progress")
    } else if same_text(line_type, "log") {
        string_of("training:log")
    } else if same_text(line_type, "hyperparameters") {
        string_of("training:hyperparameters")
    } else if same_text(line_type, "complete") {
        string_of("training:json_complete")
    } else if same_text(line_type, "error") {
        string_of("training:error")
    } else {
        string_of("training:raw")
    }
}

/// The event that closes a training request: `training:complete` when the
/// model was produced, `training:error` when the preparation or the run
/// failed.
pub open spec fn closing_event_spec(success: bool) -> Seq<char> {
    if success {
        "training:complete"@
    } else {
        "training:error"@
    }
}

/// The event name under which the result of a training request goes out.
pub fn closing_event_name(result: &TrainingResult) -> (r: String)
    ensures
        r@ == closing_event_spec(result.success),
{
    if result.success {
        string_of("training:complete")
    } else {
        string_of("training:error")
    }
}

/// How an output line of a script is forwarded.
pub enum PythonLine {
    /// A blank line: forwarded raw with no content.
    Blank,
    /// A JSON line of the given type, with its `best_pt_path` member when
    /// that is a string.
    Json { line_type: String, best_pt_path: Option<String> },
    /// Any other line: forwarded raw with the trimmed text as its message.
    Text { message: String },
}

/// The type of a JSON output line: its `type` member, or `json`.
pub open spec fn json_line_type(text: Seq<char>) -> Seq<char> {
    match json_str_member(text, "type"@) {
        Some(t) => t,
        None => "json"@,
    }
}

/// Reads one output line of the training script: blank, JSON (typed by its
/// `type` member, `json` when that is absent, and carrying its model path),
/// or text with the trimmed line as its message. The JSON is that of the
/// trimmed line.
pub fn parse_python_line(line: &str) -> (r: PythonLine)
    ensures
        is_blank(line@) ==> r is Blank,
        !is_blank(line@) && !json_parses(trimmed(line@)) ==> (r matches PythonLine::Text {
            message,
        } && message@ == trimmed(line@)),
        !is_blank(line@) && json_parses(trimmed(line@)) ==> (r matches PythonLine::Json {
            line_type,
            best_pt_path,
        } && line_type@ == json_line_type(trimmed(line@)) && opt_view(best_pt_path)
            == json_str_member(trimmed(line@), "best_pt_path"@)),
{
    let t = trim(line);
    if t.as_str().is_empty() {
        return PythonLine::Blank;
    }
    let (parses, type_field) = json_probe(t.as_str(), "type");
    if !parses {
        return PythonLine::Text { message: t };
    }
    let (_, best_pt_path) = json_probe(t.as_str(), "best_pt_path");
    let line_type = match type_field {
        Some(x) => x,
        None => string_of("json"),
    };
    PythonLine::Json { line_type, best_pt_path }
}

/// A line of the training script's error stream is forwarded unless blank.
pub fn stderr_line_is_forwarded(line: &str) -> (r: bool)
    ensures
        r == !is_blank(line@),
{
    !is_blank_text(line)
}

} // verus!
