//! Reading the result of a run of the inference script.
use vstd::prelude::*;

use crate::json::{json_i64_member, json_i64_probe, json_parses, json_probe, json_str_member};
use crate::text::{
    debug_option_i32, lines_of, opt_view, push_debug_option_i32, push_str, same_text, split_lines,
    string_of,
};

verus! {

/// The message of an inference process that exited with a failure: the last
/// line of its error output, or, when that output is empty, the exit code.
pub open spec fn inference_failure_message_spec(stderr: Seq<char>, exit_code: Option<i32>) -> Seq<
    char,
> {
    if stderr.len() == 0 {
        "Error ejecutando inferencia (codigo "@ + debug_option_i32(exit_code) + ")"@
    } else if lines_of(stderr).len() == 0 {
        "Error desconocido"@
    } else {
        lines_of(stderr).last()
    }
}

/// The error message of a failed inference process.
pub fn inference_failure_message(stderr: &str, exit_code: Option<i32>) -> (r: String)
    ensures
        r@ == inference_failure_message_spec(stderr@, exit_code),
{
    if stderr.is_empty() {
        let mut m = string_of("Error ejecutando inferencia (codigo ");
        push_debug_option_i32(&mut m, exit_code);
        push_str(&mut m, ")");
        return m;
    }
    let mut lines = split_lines(stderr);
    match lines.pop() {
        Some(last) => last,
        None => string_of("Error desconocido"),
    }
}

/// What one output line of the inference script is, as a specification
/// value.
pub ghost enum LineKind {
    Prediction,
    Error(Option<Seq<char>>),
    Other,
}

/// What one output line of the inference script is.
pub enum InferenceLine {
    /// A JSON line of type `result`.
    Prediction,
    /// A JSON line of type `error`, with its `message` member when that is a
    /// string.
    Error { message: Option<String> },
    /// Anything else.
    Other,
}

impl View for InferenceLine {
    type V = LineKind;

    open spec fn view(&self) -> LineKind {
        match self {
            InferenceLine::Prediction => LineKind::Prediction,
            InferenceLine::Error { message } => LineKind::Error(opt_view(*message)),
            InferenceLine::Other => LineKind::Other,
        }
    }
}

/// The kind of one output line: a JSON object whose `type` member is
/// `result` or `error` (the latter with its `message` member), or other.
pub open spec fn inference_line_spec(line: Seq<char>) -> LineKind {
    if !json_parses(line) {
        LineKind::Other
    } else {
        match json_str_member(line, "type"@) {
            Some(t) => if t == "result"@ {
                LineKind::Prediction
            } else if t == "error"@ {
                LineKind::Error(json_str_member(line, "message"@))
            } else {
                LineKind::Other
            },
            None => LineKind::Other,
        }
    }
}

/// Reads one output line of the inference script.
pub fn inference_line_of(line: &str) -> (r: InferenceLine)
    ensures
        r@ == inference_line_spec(line@),
{
    let (parses, type_field) = json_probe(line, "type");
    if !parses {
        return InferenceLine::Other;
    }
    match type_field {
        Some(t) => {
            if same_text(t.as_str(), "result") {
                InferenceLine::Prediction
            } else if same_text(t.as_str(), "error") {
                let (_, message) = json_probe(line, "message");
                InferenceLine::Error { message }
            } else {
                InferenceLine::Other
            }
        },
        None => InferenceLine::Other,
    }
}

/// Index of the last prediction line.
pub open spec fn last_prediction(lines: Seq<LineKind>) -> Option<int>
    decreases lines.len(),
{
    if lines.len() == 0 {
        None
    } else if lines.last() is Prediction {
        Some(lines.len() - 1)
    } else {
        last_prediction(lines.drop_last())
    }
}

/// The message of the last error line (absent when that line had none, or
/// when there is no error line).
pub open spec fn last_error_message(lines: Seq<LineKind>) -> Option<Seq<char>>
    decreases lines.len(),
{
    if lines.len() == 0 {
        None
    } else {
        match lines.last() {
            LineKind::Error(message) => message,
            _ => last_error_message(lines.drop_last()),
        }
    }
}

proof fn lemma_last_prediction_bounds(lines: Seq<LineKind>)
    ensures
        last_prediction(lines) matches Some(i) ==> 0 <= i < lines.len(),
    decreases lines.len(),
{
    if lines.len() > 0 && !(lines.last() is Prediction) {
        lemma_last_prediction_bounds(lines.drop_last());
    }
}

/// The conclusion drawn from the output of a successful inference process.
pub enum InferenceOutcome {
    /// The prediction is the JSON of output line `line`.
    Prediction { line: usize },
    /// No prediction; the message says why.
    Failure { message: String },
}

/// The conclusion from the kinds of the output lines: the last prediction
/// wins; without one, the message of the last error line, and without that
/// a fixed message.
pub open spec fn is_outcome_of(r: InferenceOutcome, kinds: Seq<LineKind>) -> bool {
    match last_prediction(kinds) {
        Some(i) => r matches InferenceOutcome::Prediction { line } && line == i,
        None => match last_error_message(kinds) {
            Some(m) => r matches InferenceOutcome::Failure { message } && message@ == m,
            None => r matches InferenceOutcome::Failure { message } && message@
                == "No se pudo parsear la salida de inferencia"@,
        },
    }
}

/// The views of a vector of line kinds.
pub open spec fn kinds_of(lines: Seq<InferenceLine>) -> Seq<LineKind> {
    lines.map_values(|l: InferenceLine| l@)
}

/// The conclusion from the kinds of the output lines.
pub fn select_inference_outcome(lines: &Vec<InferenceLine>) -> (r: InferenceOutcome)
    ensures
        is_outcome_of(r, kinds_of(lines@)),
{
    let ghost kinds = kinds_of(lines@);
    let mut last_result: Option<usize> = None;
    let mut last_error: Option<String> = None;
    let mut k: usize = 0;
    proof {
        assert(kinds.take(0) =~= Seq::<LineKind>::empty());
    }
    while k < lines.len()
        invariant
            k <= lines@.len(),
            kinds == kinds_of(lines@),
            match last_prediction(kinds.take(k as int)) {
                Some(i) => last_result matches Some(x) && x as int == i,
                None => last_result is None,
            },
            opt_view(last_error) == last_error_message(kinds.take(k as int)),
        decreases lines.len() - k,
    {
        proof {
            assert(kinds.take(k + 1).drop_last() =~= kinds.take(k as int));
            assert(kinds.take(k + 1).last() == lines@[k as int]@);
        }
        match &lines[k] {
            InferenceLine::Prediction => {
                last_result = Some(k);
            },
            InferenceLine::Error { message } => {
                last_error = match message {
                    Some(m) => Some(m.clone()),
                    None => None,
                };
            },
            InferenceLine::Other => {},
        }
        k = k + 1;
    }
    proof {
        assert(kinds.take(lines@.len() as int) =~= kinds);
        lemma_last_prediction_bounds(kinds);
    }
    match last_result {
        Some(i) => InferenceOutcome::Prediction { line: i },
        None => match last_error {
            Some(e) => InferenceOutcome::Failure { message: e },
            None => InferenceOutcome::Failure {
                message: string_of("No se pudo parsear la salida de inferencia"),
            },
        },
    }
}

/// The conclusion from the standard output of a successful inference
/// process: its lines (as `str::lines` splits them) read one by one.
pub fn inference_outcome_of_output(stdout: &str) -> (r: InferenceOutcome)
    ensures
        is_outcome_of(r, lines_of(stdout@).map_values(|l: Seq<char>| inference_line_spec(l))),
{
    let lines = split_lines(stdout);
    let mut kinds: Vec<InferenceLine> = Vec::new();
    let mut k: usize = 0;
    while k < lines.len()
        invariant
            k <= lines@.len(),
            lines@.len() == lines_of(stdout@).len(),
            forall|i: int| 0 <= i < lines@.len() ==> #[trigger] lines@[i]@ == lines_of(stdout@)[i],
            kinds@.len() == k,
            forall|i: int| 0 <= i < k ==> (#[trigger] kinds@[i])@ == inference_line_spec(lines@[i]@),
        decreases lines.len() - k,
    {
        kinds.push(inference_line_of(lines[k].as_str()));
        k = k + 1;
    }
    proof {
        assert(kinds_of(kinds@) =~= lines_of(stdout@).map_values(
            |l: Seq<char>| inference_line_spec(l),
        ));
    }
    select_inference_outcome(&kinds)
}

/// The class fields of a prediction line.
pub struct PredictionFields {
    /// The `class_name` member, when it is a string.
    pub class_name: Option<String>,
    /// The `class_index` member, when it is an integer that fits an `i64`.
    pub class_index: Option<i64>,
}

/// Reads the class name and class index of a prediction line.
pub fn prediction_fields(line: &str) -> (r: PredictionFields)
    ensures
        opt_view(r.class_name) == json_str_member(line@, "class_name"@),
        r.class_index == json_i64_member(line@, "class_index"@),
{
    let (_, class_name) = json_probe(line, "class_name");
    let class_index = json_i64_probe(line, "class_index");
    PredictionFields { class_name, class_index }
}

} // verus!
