//! File names, extensions and the image-format check.
use vstd::prelude::*;

use crate::text::{chars_of, copy_range, opt_view, same_text, string_from_chars};

verus! {

/// What `std::path::Path::file_name` gives for `path` on the platform the
/// library is built for: the final normal component, if there is one.
pub uninterp spec fn path_file_name(path: Seq<char>) -> Option<Seq<char>>;

/// What `str::to_lowercase` gives for `s` (Unicode lowercase mapping).
pub uninterp spec fn unicode_lowercase(s: Seq<char>) -> Seq<char>;

/// A path that is one plain name: not empty, not `.` or `..`, and free of
/// `/`, `\` and `:` (so no separator and no Windows prefix can occur in it).
pub open spec fn is_plain_name(path: Seq<char>) -> bool {
    &&& path.len() > 0
    &&& path != "."@
    &&& path != ".."@
    &&& forall|i: int| 0 <= i < path.len() ==> {
        let c = #[trigger] path[i];
        c != '/' && c != '\\' && c != ':'
    }
}

/// `piece` occurs in `s` as consecutive characters.
pub open spec fn is_piece_of(piece: Seq<char>, s: Seq<char>) -> bool {
    exists|k: int| 0 <= k && k + piece.len() <= s.len() && #[trigger] s.subrange(k, k + piece.len()) == piece
}

/// `s` does not hold `c`.
pub open spec fn free_of(s: Seq<char>, c: char) -> bool {
    forall|i: int| 0 <= i < s.len() ==> #[trigger] s[i] != c
}

/// `std::path::Path::file_name`, with the component read back as text.
///
/// The result is the final component of `path` when that is a normal name
/// (`None` for a path that ends in `..` or has no name). The contract states
/// this as the uninterpreted `path_file_name`, plus three facts std's parser
/// shows: a normal component is never empty, `.` or `..`; and a path that is a
/// single plain name is its own file name. It also states that the name is a
/// piece of the path (a component is a slice of the path's text), and that
/// it holds no `/` when the path holds no `\` (`/` separates components on
/// every platform; only a Windows verbatim prefix, which begins with `\`,
/// turns that off). Which component is final depends on the separators of
/// the build platform, which nothing here states.
#[verifier::external_body]
pub(crate) fn file_name_of(path: &str) -> (r: Option<String>)
    ensures
        opt_view(r) == path_file_name(path@),
        r matches Some(n) ==> n@.len() > 0 && n@ != "."@ && n@ != ".."@,
        is_plain_name(path@) ==> opt_view(r) == Some(path@),
        r matches Some(n) ==> is_piece_of(n@, path@),
        r matches Some(n) ==> (free_of(path@, '\\') ==> free_of(n@, '/')),
{
    std::path::Path::new(path).file_name().and_then(|n| n.to_str()).map(|n| n.to_string())
}

/// `c` lowered if it is an ASCII capital letter.
pub open spec fn ascii_lower_char(c: char) -> char {
    if 'A' <= c <= 'Z' {
        ((c as u32) + 32) as char
    } else {
        c
    }
}

/// `s` with its ASCII capitals lowered.
pub open spec fn ascii_lowered(s: Seq<char>) -> Seq<char> {
    Seq::new(s.len(), |i: int| ascii_lower_char(s[i]))
}

/// Whether every character of `s` is ASCII.
pub open spec fn all_ascii(s: Seq<char>) -> bool {
    forall|i: int| 0 <= i < s.len() ==> (#[trigger] s[i] as u32) < 128
}

/// `str::to_lowercase`.
///
/// The result is the uninterpreted `unicode_lowercase` of the input; for an
/// all-ASCII input the Unicode mapping is the ASCII one (capitals A-Z to a-z,
/// every other character unchanged), which the contract states.
#[verifier::external_body]
pub(crate) fn lowercase(s: &str) -> (r: String)
    ensures
        r@ == unicode_lowercase(s@),
        all_ascii(s@) ==> r@ == ascii_lowered(s@),
{
    s.to_lowercase()
}

/// Index of the last `.` in `f`.
pub open spec fn last_dot(f: Seq<char>) -> Option<int>
    decreases f.len(),
{
    if f.len() == 0 {
        None
    } else if f.last() == '.' {
        Some(f.len() - 1)
    } else {
        last_dot(f.drop_last())
    }
}

/// The extension of a file name, as `Path::extension` defines it: `None` for
/// `..`, for a name without `.`, and for a name whose only `.` leads it;
/// otherwise what follows the last `.`.
pub open spec fn extension_of_name(f: Seq<char>) -> Option<Seq<char>> {
    if f == ".."@ {
        None
    } else {
        match last_dot(f) {
            None => None,
            Some(i) => if i == 0 {
                None
            } else {
                Some(f.skip(i + 1))
            },
        }
    }
}

/// The extension of a path: that of its file name.
pub open spec fn path_extension_spec(path: Seq<char>) -> Option<Seq<char>> {
    match path_file_name(path) {
        Some(f) => extension_of_name(f),
        None => None,
    }
}

proof fn lemma_last_dot_bounds(f: Seq<char>)
    ensures
        last_dot(f) matches Some(i) ==> 0 <= i < f.len() && f[i] == '.',
    decreases f.len(),
{
    if f.len() > 0 && f.last() != '.' {
        lemma_last_dot_bounds(f.drop_last());
    }
}

/// The extension of the file name `name` (`Path::extension` on a name).
pub fn extension_of_file_name(name: &str) -> (r: Option<String>)
    ensures
        opt_view(r) == extension_of_name(name@),
{
    if same_text(name, "..") {
        return None;
    }
    let cs = chars_of(name);
    let mut j: usize = cs.len();
    proof {
        assert(cs@.take(j as int) =~= cs@);
    }
    while j > 0 && cs[j - 1] != '.'
        invariant
            cs@ == name@,
            j <= cs@.len(),
            last_dot(cs@) == last_dot(cs@.take(j as int)),
        decreases j,
    {
        proof {
            assert(cs@.take(j as int).drop_last() =~= cs@.take(j - 1));
        }
        j = j - 1;
    }
    if j == 0 {
        return None;
    }
    proof {
        assert(last_dot(cs@.take(j as int)) == Some(j - 1));
    }
    if j == 1 {
        return None;
    }
    let e = copy_range(&cs, j, cs.len());
    proof {
        assert(e@ =~= cs@.skip(j as int));
    }
    Some(string_from_chars(&e))
}

/// `Path::extension` of `path`, as text.
pub fn path_extension(path: &str) -> (r: Option<String>)
    ensures
        opt_view(r) == path_extension_spec(path@),
{
    match file_name_of(path) {
        Some(f) => extension_of_file_name(f.as_str()),
        None => None,
    }
}

/// The image extensions that training and inference accept (lowercase).
pub open spec fn is_accepted_image_extension(e: Seq<char>) -> bool {
    ||| e == "jpg"@
    ||| e == "jpeg"@
    ||| e == "png"@
    ||| e == "bmp"@
    ||| e == "webp"@
    ||| e == "tif"@
    ||| e == "tiff"@
}

/// The accepted extensions are exactly jpg, jpeg, png, bmp, webp, tif and
/// tiff; every other text is refused.
pub proof fn law_accepted_extensions(e: Seq<char>)
    ensures
        is_accepted_image_extension(e) <==> set!["jpg"@, "jpeg"@, "png"@, "bmp"@, "webp"@, "tif"@, "tiff"@].contains(e),
{
}

/// Whether the lowercased extension `e` is one of the accepted image formats.
pub fn accepted_image_extension(e: &str) -> (r: bool)
    ensures
        r == is_accepted_image_extension(e@),
        r == set!["jpg"@, "jpeg"@, "png"@, "bmp"@, "webp"@, "tif"@, "tiff"@].contains(e@),
{
    proof {
        law_accepted_extensions(e@);
    }
    same_text(e, "jpg") || same_text(e, "jpeg") || same_text(e, "png") || same_text(e, "bmp")
        || same_text(e, "webp") || same_text(e, "tif") || same_text(e, "tiff")
}

/// A path names an accepted image when its extension, lowercased, is one of
/// the accepted formats.
pub open spec fn image_path_accepted(path: Seq<char>) -> bool {
    match path_extension_spec(path) {
        Some(e) => is_accepted_image_extension(unicode_lowercase(e)),
        None => false,
    }
}

/// Whether `path` has one of the accepted image extensions, compared without
/// regard to case.
pub fn is_valid_image_extension(path: &str) -> (r: bool)
    ensures
        r == image_path_accepted(path@),
        r == (path_extension_spec(path@) is Some && set!["jpg"@, "jpeg"@, "png"@, "bmp"@, "webp"@, "tif"@, "tiff"@].contains(
            unicode_lowercase(path_extension_spec(path@)->Some_0),
        )),
{
    proof {
        law_image_path_accepted(path@);
    }
    match path_extension(path) {
        Some(e) => {
            let lower = lowercase(e.as_str());
            accepted_image_extension(lower.as_str())
        },
        None => false,
    }
}

/// A path is accepted as an image exactly when it has an extension whose
/// lowercase form is jpg, jpeg, png, bmp, webp, tif or tiff.
pub proof fn law_image_path_accepted(path: Seq<char>)
    ensures
        image_path_accepted(path) <==> (path_extension_spec(path) is Some && set!["jpg"@, "jpeg"@, "png"@, "bmp"@, "webp"@, "tif"@, "tiff"@].contains(
            unicode_lowercase(path_extension_spec(path)->Some_0),
        )),
{
    match path_extension_spec(path) {
        Some(e) => law_accepted_extensions(unicode_lowercase(e)),
        None => {},
    }
}

} // verus!
