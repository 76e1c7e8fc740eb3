//! The layout of the temporary dataset that training reads, and the names of
//! the folders that cleanup removes.
use vstd::prelude::*;

use crate::paths::{lowercase, path_extension, path_extension_spec, unicode_lowercase};
use crate::sanitize::{
    sanitize_class_name, sanitized_name, sanitizer_patterns_compile, sanitizer_ready,
    simple_v4_text, underscore_spaces_and_dashes, uuid_simple_from_random,
};
use crate::text::{
    decimal, decimal_width4, is_blank, push_decimal, push_decimal_width4, push_str,
    starts_with_text, same_text, string_of,
};
use crate::training::ClassInput;

verus! {

/// The name under which the `file_index`-th image of the `class_index`-th
/// class is staged: `img_{file_index:04}_{class_index}.{ext}`, where `ext`
/// is the lowercased extension of the source path (`jpg` when it has none).
pub open spec fn staged_image_name_spec(file_index: nat, class_index: nat, source: Seq<char>) -> Seq<
    char,
> {
    let ext = match path_extension_spec(source) {
        Some(e) => e,
        None => "jpg"@,
    };
    "img_"@ + decimal_width4(file_index) + "_"@ + decimal(class_index) + "."@ + unicode_lowercase(
        ext,
    )
}

/// The staged file name of one source image.
pub fn staged_image_name(file_index: usize, class_index: usize, source: &str) -> (r: String)
    ensures
        r@ == staged_image_name_spec(file_index as nat, class_index as nat, source@),
{
    let ext = match path_extension(source) {
        Some(e) => e,
        None => string_of("jpg"),
    };
    let lower = lowercase(ext.as_str());
    let mut name = string_of("img_");
    push_decimal_width4(&mut name, file_index as u64);
    push_str(&mut name, "_");
    push_decimal(&mut name, class_index as u64);
    push_str(&mut name, ".");
    push_str(&mut name, lower.as_str());
    name
}

/// The folder name of a class: its sanitized class name, or `class_{index}`
/// when that is empty (which the sanitizer never returns).
pub open spec fn class_dir_name_spec(class_index: nat, class_name: Seq<char>, random: Seq<u8>) -> Seq<
    char,
> {
    let safe = underscore_spaces_and_dashes(sanitized_name(class_name, random));
    if safe.len() == 0 {
        "class_"@ + decimal(class_index)
    } else {
        safe
    }
}

/// The folder name of a class: its sanitized class name, or `class_{index}`
/// when that comes out empty; `random` is used if the name is blank.
pub fn class_dir_name(class_index: usize, class_name: &str, random: &[u8; 16]) -> (r: String)
    requires
        sanitizer_patterns_compile(),
    ensures
        r@ == class_dir_name_spec(class_index as nat, class_name@, random@),
{
    let safe = sanitize_class_name(class_name, random);
    if safe.as_str().is_empty() {
        let mut name = string_of("class_");
        push_decimal(&mut name, class_index as u64);
        name
    } else {
        safe
    }
}

/// One image to copy into the staging folder of its class.
pub struct StagedFile {
    pub source: String,
    pub dest_name: String,
}

/// The staging folder of one class and the images to copy into it.
pub struct StagedClass {
    pub class_name: String,
    pub dir_name: String,
    pub files: Vec<StagedFile>,
}

/// The layout of a temporary dataset.
pub struct DatasetPlan {
    pub classes: Vec<StagedClass>,
    /// The class names in the order of their folders.
    pub class_order: Vec<String>,
}

/// `plan` stages `classes`: one folder per class, in order, named after the
/// sanitized class name (with the random bytes drawn for that class),
/// holding each image under its staged name.
pub open spec fn is_plan_for(plan: DatasetPlan, classes: Seq<ClassInput>, randoms: Seq<[u8; 16]>) -> bool {
    &&& plan.classes@.len() == classes.len()
    &&& plan.class_order@.len() == classes.len()
    &&& forall|i: int|
        0 <= i < classes.len() ==> {
            let staged = #[trigger] plan.classes@[i];
            &&& staged.class_name@ == classes[i].name@
            &&& plan.class_order@[i]@ == classes[i].name@
            &&& staged.dir_name@ == class_dir_name_spec(i as nat, classes[i].name@, randoms[i]@)
            &&& staged.files@.len() == classes[i].images@.len()
            &&& forall|j: int|
                0 <= j < classes[i].images@.len() ==> (#[trigger] staged.files@[j]).source@
                    == classes[i].images@[j]@ && staged.files@[j].dest_name@
                    == staged_image_name_spec(j as nat, i as nat, classes[i].images@[j]@)
        }
}

fn stage_class(class_index: usize, class: &ClassInput, random: &[u8; 16]) -> (r: StagedClass)
    requires
        sanitizer_patterns_compile(),
    ensures
        r.class_name@ == class.name@,
        r.dir_name@ == class_dir_name_spec(class_index as nat, class.name@, random@),
        r.files@.len() == class.images@.len(),
        forall|j: int|
            0 <= j < class.images@.len() ==> (#[trigger] r.files@[j]).source@ == class.images@[j]@
                && r.files@[j].dest_name@ == staged_image_name_spec(
                j as nat,
                class_index as nat,
                class.images@[j]@,
            ),
{
    let dir_name = class_dir_name(class_index, class.name.as_str(), random);
    let mut files: Vec<StagedFile> = Vec::new();
    let mut j: usize = 0;
    while j < class.images.len()
        invariant
            j <= class.images@.len(),
            files@.len() == j,
            forall|m: int|
                0 <= m < j ==> (#[trigger] files@[m]).source@ == class.images@[m]@
                    && files@[m].dest_name@ == staged_image_name_spec(
                    m as nat,
                    class_index as nat,
                    class.images@[m]@,
                ),
        decreases class.images.len() - j,
    {
        let source = &class.images[j];
        let dest_name = staged_image_name(j, class_index, source.as_str());
        files.push(StagedFile { source: source.clone(), dest_name });
        j = j + 1;
    }
    StagedClass { class_name: class.name.clone(), dir_name, files }
}

/// The layout of the temporary dataset for `classes`, with one set of random
/// bytes per class for a blank class name; `None` only when the
/// sanitization patterns cannot be compiled.
pub fn plan_temp_dataset(classes: &Vec<ClassInput>, randoms: &Vec<[u8; 16]>) -> (r: Option<
    DatasetPlan,
>)
    requires
        randoms@.len() == classes@.len(),
    ensures
        r is Some <==> sanitizer_patterns_compile(),
        r matches Some(plan) ==> is_plan_for(plan, classes@, randoms@),
{
    if !sanitizer_ready() {
        return None;
    }
    let mut staged: Vec<StagedClass> = Vec::new();
    let mut order: Vec<String> = Vec::new();
    let mut i: usize = 0;
    while i < classes.len()
        invariant
            sanitizer_patterns_compile(),
            randoms@.len() == classes@.len(),
            i <= classes@.len(),
            staged@.len() == i,
            order@.len() == i,
            forall|k: int|
                0 <= k < i ==> {
                    let s = #[trigger] staged@[k];
                    &&& s.class_name@ == classes@[k].name@
                    &&& order@[k]@ == classes@[k].name@
                    &&& s.dir_name@ == class_dir_name_spec(k as nat, classes@[k].name@, randoms@[k]@)
                    &&& s.files@.len() == classes@[k].images@.len()
                    &&& forall|j: int|
                        0 <= j < classes@[k].images@.len() ==> (#[trigger] s.files@[j]).source@
                            == classes@[k].images@[j]@ && s.files@[j].dest_name@
                            == staged_image_name_spec(
                            j as nat,
                            k as nat,
                            classes@[k].images@[j]@,
                        )
                },
        decreases classes.len() - i,
    {
        let c = stage_class(i, &classes[i], &randoms[i]);
        staged.push(c);
        order.push(classes[i].name.clone());
        i = i + 1;
    }
    Some(DatasetPlan { classes: staged, class_order: order })
}

/// The name of the folder of a temporary dataset: the UUID text of the
/// random bytes.
pub fn temp_dataset_id(random: &[u8; 16]) -> (r: String)
    ensures
        r@ == simple_v4_text(random@),
{
    uuid_simple_from_random(random)
}

/// A folder name that the training library uses for its runs.
pub open spec fn is_runs_dir_name_spec(name: Seq<char>) -> bool {
    name.len() >= 4 && name.take(4) == "runs"@
}

/// Whether `name` starts with `runs`.
pub fn is_runs_dir_name(name: &str) -> (r: bool)
    ensures
        r == is_runs_dir_name_spec(name@),
{
    proof {
        reveal_strlit("runs");
    }
    starts_with_text(name, "runs")
}

/// Whether a folder left next to the program by an earlier session is
/// removed at startup: a runs folder or `train_output`.
pub fn is_leftover_output_dir_name(name: &str) -> (r: bool)
    ensures
        r == (is_runs_dir_name_spec(name@) || name@ == "train_output"@),
{
    is_runs_dir_name(name) || same_text(name, "train_output")
}

} // verus!
