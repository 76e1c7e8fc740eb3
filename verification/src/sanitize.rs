//! File-name and class-name sanitization.
use vstd::prelude::*;

use unicode_normalization::UnicodeNormalization;

use crate::paths::{all_ascii, file_name_of, free_of, is_piece_of, is_plain_name, path_file_name};
use crate::text::{
    chars_of, copy_range, digit_char, is_blank, is_white_space, push_str, strip_both, strip_chars,
    strip_end, strip_start, string_from_chars, string_of, trimmed, utf8_len, utf8_longer_than,
    CharClass, lemma_utf8_len_at_least_len, lemma_utf8_len_is_encoding_length,
};

verus! {

// ---------------------------------------------------------------------------
// Outside operations: regular expressions, normalization, identifiers
// ---------------------------------------------------------------------------

/// Whether `regex::Regex::new` accepts `pattern`.
pub uninterp spec fn regex_compiles(pattern: Seq<char>) -> bool;

/// What `regex::Regex::replace_all(text, rep)` returns for the regex compiled
/// from `pattern`.
pub uninterp spec fn regex_replace_all(pattern: Seq<char>, text: Seq<char>, rep: Seq<char>) -> Seq<
    char,
>;

/// The Unicode compatibility decomposition (NFKD) of `s`, as the
/// `unicode-normalization` crate computes it.
pub uninterp spec fn nfkd(s: Seq<char>) -> Seq<char>;

/// `regex::Regex`, carried through opaquely.
#[verifier::external_type_specification]
#[verifier::external_body]
pub struct ExRegex(regex::Regex);

/// A compiled regular expression together with the pattern it was compiled
/// from. Only `compile_pattern` builds one, so `regex` is always the
/// compilation of `source`.
pub struct TextPattern {
    source: String,
    regex: regex::Regex,
}

impl TextPattern {
    /// The pattern this regex was compiled from.
    pub closed spec fn source(&self) -> Seq<char> {
        self.source@
    }
}

/// `regex::Regex::new`: compiles `source`.
///
/// Claims that the result is present exactly when the crate accepts the
/// pattern (named `regex_compiles`) and that it remembers its source text.
#[verifier::external_body]
fn compile_pattern(source: &str) -> (r: Option<TextPattern>)
    ensures
        r is Some <==> regex_compiles(source@),
        r matches Some(p) ==> p.source() == source@,
{
    match regex::Regex::new(source) {
        Ok(regex) => Some(TextPattern { source: source.to_string(), regex }),
        Err(_) => None,
    }
}

/// A combining diacritical mark, U+0300 to U+036F: what the class
/// `[\u{0300}-\u{036f}]` matches.
pub open spec fn is_accent_mark(c: char) -> bool {
    0x300 <= (c as u32) <= 0x36f
}

/// `s` without combining diacritical marks.
pub open spec fn without_accent_marks(s: Seq<char>) -> Seq<char>
    decreases s.len(),
{
    if s.len() == 0 {
        s
    } else if is_accent_mark(s.last()) {
        without_accent_marks(s.drop_last())
    } else {
        without_accent_marks(s.drop_last()).push(s.last())
    }
}

/// An ASCII character that the class `[^\w\.\- ]` does not match: an ASCII
/// letter or digit, `_` (the ASCII word characters), `.`, `-` or space.
pub open spec fn is_kept_ascii(c: char) -> bool {
    ||| ('a' <= c <= 'z')
    ||| ('A' <= c <= 'Z')
    ||| ('0' <= c <= '9')
    ||| c == '_'
    ||| c == '.'
    ||| c == '-'
    ||| c == ' '
}

/// How `[^\w\.\- ]` with `"_"` treats one character `c`, giving `out`:
/// `out` is `c` or `_`, and for ASCII `c` it is `c` exactly when `c` is kept.
pub open spec fn illegal_replaced(c: char, out: char) -> bool {
    &&& (out == c || out == '_')
    &&& (c as u32) < 128 ==> out == (if is_kept_ascii(c) {
        c
    } else {
        '_'
    })
}

/// `regex::Regex::replace_all` with a replacement string.
///
/// Claims the result is `regex_replace_all` of the pattern's source, the
/// text and the replacement. For the two patterns of this module it also
/// states what the regex syntax documentation gives: a one-character class
/// matches single characters, so `[\u{0300}-\u{036f}]` with `""` deletes
/// exactly those marks, and `[^\w\.\- ]` with `"_"` keeps the length and
/// turns each character into itself or `_`; for an ASCII character, `\w`
/// is `[0-9A-Za-z_]`, so the outcome is fixed by `is_kept_ascii`. Which
/// non-ASCII characters are word characters is not stated.
#[verifier::external_body]
fn replace_all_matches(p: &TextPattern, text: &str, rep: &str) -> (r: String)
    ensures
        r@ == regex_replace_all(p.source(), text@, rep@),
        p.source() == accent_pattern() && rep@ == ""@ ==> r@ == without_accent_marks(text@),
        p.source() == illegal_pattern() && rep@ == "_"@ ==> r@.len() == text@.len(),
        p.source() == illegal_pattern() && rep@ == "_"@ ==> forall|i: int|
            0 <= i < text@.len() ==> illegal_replaced(#[trigger] text@[i], r@[i]),
{
    p.regex.replace_all(text, rep).into_owned()
}

/// `UnicodeNormalization::nfkd` collected into a `String`.
///
/// Claims the result is the NFKD form `nfkd` of the input, and that text of
/// ASCII characters only is left as it is (Unicode Standard Annex #15:
/// ASCII text is unaffected by every normalization form).
#[verifier::external_body]
fn nfkd_of(s: &str) -> (r: String)
    ensures
        r@ == nfkd(s@),
        all_ascii(s@) ==> r@ == s@,
{
    s.nfkd().collect::<String>()
}

/// The lowercase hexadecimal digit for `d < 16`.
pub open spec fn hex_char(d: nat) -> char {
    if d < 10 {
        digit_char(d)
    } else if d == 10 {
        'a'
    } else if d == 11 {
        'b'
    } else if d == 12 {
        'c'
    } else if d == 13 {
        'd'
    } else if d == 14 {
        'e'
    } else {
        'f'
    }
}

/// Byte `i` of a version-4 UUID built from random bytes `b`: byte 6 carries
/// the version 4 in its high half, byte 8 the variant bits `10`.
pub open spec fn v4_byte(b: Seq<u8>, i: int) -> nat {
    if i == 6 {
        (b[6] as nat % 16) + 0x40
    } else if i == 8 {
        (b[8] as nat % 64) + 0x80
    } else {
        b[i] as nat
    }
}

/// The simple (32 lowercase hex digits) text of the version-4 UUID built
/// from the random bytes `b`.
pub open spec fn simple_v4_text(b: Seq<u8>) -> Seq<char> {
    Seq::new(
        32,
        |k: int|
            if k % 2 == 0 {
                hex_char(v4_byte(b, k / 2) / 16)
            } else {
                hex_char(v4_byte(b, k / 2) % 16)
            },
    )
}

/// `uuid::Builder::from_random_bytes(..).into_uuid()` rendered by
/// `Uuid::simple`.
///
/// Claims the result is `simple_v4_text` of the bytes: the builder sets the
/// version and variant bits (`(b6 & 0x0f) | 0x40`, `(b8 & 0x3f) | 0x80`) and
/// `Simple` formats the 16 bytes as lowercase hex, high half first. None of
/// these calls can panic.
#[verifier::external_body]
pub(crate) fn uuid_simple_from_random(bytes: &[u8; 16]) -> (r: String)
    ensures
        r@ == simple_v4_text(bytes@),
{
    uuid::Builder::from_random_bytes(*bytes).into_uuid().simple().to_string()
}

// ---------------------------------------------------------------------------
// Specification of the sanitization
// ---------------------------------------------------------------------------

/// The regex of combining diacritical marks, removed after decomposition.
pub open spec fn accent_pattern() -> Seq<char> {
    "[\\u{0300}-\\u{036f}]"@
}

/// The regex of characters that may not stay in a file name.
pub open spec fn illegal_pattern() -> Seq<char> {
    "[^\\w\\.\\- ]"@
}

/// Both patterns that sanitization uses are accepted by the regex crate.
pub open spec fn sanitizer_patterns_compile() -> bool {
    regex_compiles(accent_pattern()) && regex_compiles(illegal_pattern())
}

/// A path separator of either platform.
pub open spec fn is_separator(c: char) -> bool {
    c == '/' || c == '\\'
}

/// `s` without `/` and `\`.
pub open spec fn without_separators(s: Seq<char>) -> Seq<char>
    decreases s.len(),
{
    if s.len() == 0 {
        s
    } else if is_separator(s.last()) {
        without_separators(s.drop_last())
    } else {
        without_separators(s.drop_last()).push(s.last())
    }
}

/// `str::replace("..", "_")`: each `..`, taken left to right without
/// overlap, becomes `_`.
pub open spec fn collapse_double_dots(s: Seq<char>) -> Seq<char>
    decreases s.len(),
{
    if s.len() >= 2 && s[0] == '.' && s[1] == '.' {
        seq!['_'] + collapse_double_dots(s.skip(2))
    } else if s.len() == 0 {
        s
    } else {
        seq![s[0]] + collapse_double_dots(s.drop_first())
    }
}

/// The name part of `name` that sanitization starts from: its file name, or
/// the whole text when it has none.
pub open spec fn base_name(name: Seq<char>) -> Seq<char> {
    match path_file_name(name) {
        Some(b) => b,
        None => name,
    }
}

/// What the name part of `name` can be: `name` itself, or a non-empty piece
/// of it other than `.` and `..`, which holds no `/` when `name` holds no
/// `\`.
pub open spec fn is_base_of(name: Seq<char>, b: Seq<char>) -> bool {
    ||| b == name
    ||| (b.len() > 0 && b != "."@ && b != ".."@ && is_piece_of(b, name) && (free_of(name, '\\')
        ==> free_of(b, '/')))
}

/// `s` with each ASCII character outside letters, digits, `_`, `.`, `-` and
/// space made `_`: what the outside steps do to ASCII text.
pub open spec fn ascii_cleaned(s: Seq<char>) -> Seq<char> {
    Seq::new(
        s.len(),
        |i: int|
            if is_kept_ascii(s[i]) {
                s[i]
            } else {
                '_'
            },
    )
}

/// The outside steps: separators removed, NFKD, accents removed, and
/// characters outside word characters, `.`, `-` and space replaced by `_`.
pub open spec fn regex_stage(base: Seq<char>) -> Seq<char> {
    let decomposed = nfkd(without_separators(base));
    let plain = regex_replace_all(accent_pattern(), decomposed, ""@);
    regex_replace_all(illegal_pattern(), plain, "_"@)
}

/// The steps after the outside calls: trimmed of white space and then of
/// dots, `..` collapsed, and cut to 64 characters when its UTF-8 form is
/// longer than 64 bytes.
pub open spec fn limited_name(cleaned: Seq<char>) -> Seq<char> {
    let t = collapse_double_dots(strip_both(trimmed(cleaned), CharClass::Dot));
    if vstd::utf8::encode_utf8(t).len() > 64 && t.len() > 64 {
        t.take(64)
    } else {
        t
    }
}

/// The name generated for a blank result: `file_` and the UUID text of the
/// random bytes.
pub open spec fn generated_name(random: Seq<u8>) -> Seq<char> {
    "file_"@ + simple_v4_text(random)
}

/// The limited name, or the generated one when that is blank.
pub open spec fn finished_name(cleaned: Seq<char>, random: Seq<u8>) -> Seq<char> {
    if is_blank(limited_name(cleaned)) {
        generated_name(random)
    } else {
        limited_name(cleaned)
    }
}

/// What `sanitize_filename` returns for `name` and the random bytes.
pub open spec fn sanitized_name(name: Seq<char>, random: Seq<u8>) -> Seq<char> {
    finished_name(regex_stage(base_name(name)), random)
}

/// `s` holds two dots in a row.
pub open spec fn has_double_dot(s: Seq<char>) -> bool {
    exists|i: int| 0 <= i < s.len() - 1 && s[i] == '.' && #[trigger] s[i + 1] == '.'
}

/// A character a sanitized name may hold: no combining diacritical mark,
/// and, when ASCII, a letter, digit, `_`, `.`, `-` or space (so never `/`
/// or `\`).
pub open spec fn is_safe_char(c: char) -> bool {
    &&& !is_accent_mark(c)
    &&& (c as u32) < 128 ==> is_kept_ascii(c)
}

pub open spec fn all_safe(s: Seq<char>) -> bool {
    forall|i: int| 0 <= i < s.len() ==> is_safe_char(#[trigger] s[i])
}

/// A name that sanitization leaves as it is: 1 to 64 ASCII letters, digits,
/// `_`, `.`, `-` and spaces, starting and ending with a letter, digit, `_`
/// or `-`, and without `..`.
pub open spec fn is_clean_ascii_name(s: Seq<char>) -> bool {
    &&& 1 <= s.len() <= 64
    &&& forall|i: int| 0 <= i < s.len() ==> is_kept_ascii(#[trigger] s[i])
    &&& is_kept_ascii(s[0]) && s[0] != '.' && s[0] != ' '
    &&& is_kept_ascii(s.last()) && s.last() != '.' && s.last() != ' '
    &&& !has_double_dot(s)
}

/// Spaces and hyphens replaced by underscores.
pub open spec fn underscore_spaces_and_dashes(s: Seq<char>) -> Seq<char> {
    Seq::new(
        s.len(),
        |i: int|
            if s[i] == ' ' || s[i] == '-' {
                '_'
            } else {
                s[i]
            },
    )
}

// ---------------------------------------------------------------------------
// Lemmas
// ---------------------------------------------------------------------------

proof fn lemma_collapse_first(s: Seq<char>)
    ensures
        collapse_double_dots(s).len() > 0 ==> s.len() > 0,
        s.len() >= 2 && s[0] == '.' && s[1] == '.' ==> collapse_double_dots(s)[0] == '_',
        s.len() > 0 && !(s.len() >= 2 && s[0] == '.' && s[1] == '.') ==> collapse_double_dots(
            s,
        )[0] == s[0],
{
}

/// `collapse_double_dots` leaves no two dots in a row.
pub proof fn lemma_collapse_has_no_double_dot(s: Seq<char>)
    ensures
        !has_double_dot(collapse_double_dots(s)),
    decreases s.len(),
{
    if s.len() >= 2 && s[0] == '.' && s[1] == '.' {
        let rest = collapse_double_dots(s.skip(2));
        lemma_collapse_has_no_double_dot(s.skip(2));
        let out = seq!['_'] + rest;
        assert forall|i: int| 0 <= i < out.len() - 1 && out[i] == '.' implies #[trigger] out[i + 1] != '.' by {
            assert(i > 0);
            let j = i - 1;
            assert(out[i] == rest[j]);
            assert(out[i + 1] == rest[j + 1]);
            if rest[j + 1] == '.' {
                assert(has_double_dot(rest));
            }
        }
    } else if s.len() == 0 {
    } else {
        let t = s.drop_first();
        let rest = collapse_double_dots(t);
        lemma_collapse_has_no_double_dot(t);
        lemma_collapse_first(t);
        let out = seq![s[0]] + rest;
        assert forall|i: int| 0 <= i < out.len() - 1 && out[i] == '.' implies #[trigger] out[i + 1] != '.' by {
            if i == 0 {
                assert(out[1] == rest[0]);
                if t.len() >= 2 && t[0] == '.' && t[1] == '.' {
                } else {
                    assert(t[0] == s[1]);
                }
            } else {
                let j = i - 1;
                assert(out[i] == rest[j]);
                assert(out[i + 1] == rest[j + 1]);
                if rest[j + 1] == '.' {
                    assert(has_double_dot(rest));
                }
            }
        }
    }
}

proof fn lemma_take_keeps_no_double_dot(s: Seq<char>, n: int)
    requires
        0 <= n <= s.len(),
        !has_double_dot(s),
    ensures
        !has_double_dot(s.take(n)),
{
    let t = s.take(n);
    assert forall|i: int| 0 <= i < t.len() - 1 && t[i] == '.' implies #[trigger] t[i + 1] != '.' by {
        assert(t[i] == s[i]);
        assert(t[i + 1] == s[i + 1]);
    }
}


proof fn lemma_hex_char(d: nat)
    requires
        d < 16,
    ensures
        ('0' <= hex_char(d) <= '9') || ('a' <= hex_char(d) <= 'f'),
{
}

/// The generated name holds only `file_` and lowercase hex digits: safe
/// characters, no dot, space or hyphen.
proof fn lemma_generated_name_shape(random: Seq<u8>)
    ensures
        generated_name(random).len() == 37,
        generated_name(random)[0] == 'f',
        all_safe(generated_name(random)),
        forall|i: int|
            0 <= i < 37 ==> #[trigger] generated_name(random)[i] != ' ' && generated_name(
                random,
            )[i] != '-' && generated_name(random)[i] != '.',
        !has_double_dot(generated_name(random)),
{
    reveal_strlit("file_");
    let g = generated_name(random);
    let h = simple_v4_text(random);
    assert forall|i: int| 0 <= i < 37 implies #[trigger] g[i] != ' ' && g[i] != '-' && g[i] != '.'
        && is_safe_char(g[i]) by {
        if i >= 5 {
            let k = i - 5;
            assert(g[i] == h[k]);
            lemma_hex_char(v4_byte(random, k / 2) / 16);
            lemma_hex_char(v4_byte(random, k / 2) % 16);
        }
    }
    assert forall|i: int| 0 <= i < g.len() implies is_safe_char(#[trigger] g[i]) by {
        assert(g[i] != ' ');
    }
}

proof fn lemma_safe_drop_first(s: Seq<char>)
    requires
        s.len() > 0,
        all_safe(s),
    ensures
        all_safe(s.drop_first()),
{
    assert forall|i: int| 0 <= i < s.drop_first().len() implies is_safe_char(
        #[trigger] s.drop_first()[i],
    ) by {
        assert(s.drop_first()[i] == s[i + 1]);
    }
}

proof fn lemma_safe_take(s: Seq<char>, n: int)
    requires
        0 <= n <= s.len(),
        all_safe(s),
    ensures
        all_safe(s.take(n)),
{
    assert forall|i: int| 0 <= i < s.take(n).len() implies is_safe_char(#[trigger] s.take(n)[i]) by {
        assert(s.take(n)[i] == s[i]);
    }
}

proof fn lemma_strip_start_safe(s: Seq<char>, cl: CharClass)
    requires
        all_safe(s),
    ensures
        all_safe(strip_start(s, cl)),
    decreases s.len(),
{
    if s.len() > 0 && cl.holds(s[0]) {
        lemma_safe_drop_first(s);
        lemma_strip_start_safe(s.drop_first(), cl);
    }
}

proof fn lemma_strip_end_safe(s: Seq<char>, cl: CharClass)
    requires
        all_safe(s),
    ensures
        all_safe(strip_end(s, cl)),
    decreases s.len(),
{
    if s.len() > 0 && cl.holds(s.last()) {
        lemma_safe_take(s, s.len() - 1);
        assert(s.drop_last() =~= s.take(s.len() - 1));
        lemma_strip_end_safe(s.drop_last(), cl);
    }
}

proof fn lemma_collapse_safe(s: Seq<char>)
    requires
        all_safe(s),
    ensures
        all_safe(collapse_double_dots(s)),
    decreases s.len(),
{
    if s.len() >= 2 && s[0] == '.' && s[1] == '.' {
        lemma_safe_drop_first(s);
        lemma_safe_drop_first(s.drop_first());
        assert(s.drop_first().drop_first() =~= s.skip(2));
        lemma_collapse_safe(s.skip(2));
        let out = seq!['_'] + collapse_double_dots(s.skip(2));
        assert forall|i: int| 0 <= i < out.len() implies is_safe_char(#[trigger] out[i]) by {
            if i > 0 {
                assert(out[i] == collapse_double_dots(s.skip(2))[i - 1]);
            }
        }
    } else if s.len() > 0 {
        lemma_safe_drop_first(s);
        lemma_collapse_safe(s.drop_first());
        let out = seq![s[0]] + collapse_double_dots(s.drop_first());
        assert forall|i: int| 0 <= i < out.len() implies is_safe_char(#[trigger] out[i]) by {
            if i > 0 {
                assert(out[i] == collapse_double_dots(s.drop_first())[i - 1]);
            }
        }
    }
}

proof fn lemma_strip_start_first(s: Seq<char>, cl: CharClass)
    ensures
        strip_start(s, cl).len() > 0 ==> !cl.holds(strip_start(s, cl)[0]),
        strip_start(s, cl).len() <= s.len(),
    decreases s.len(),
{
    if s.len() > 0 && cl.holds(s[0]) {
        lemma_strip_start_first(s.drop_first(), cl);
    }
}

proof fn lemma_strip_end_keeps_first(s: Seq<char>, cl: CharClass)
    requires
        s.len() > 0,
        !cl.holds(s[0]),
    ensures
        strip_end(s, cl).len() > 0,
        strip_end(s, cl)[0] == s[0],
    decreases s.len(),
{
    if cl.holds(s.last()) {
        assert(s.len() >= 2);
        lemma_strip_end_keeps_first(s.drop_last(), cl);
    }
}

/// A limited name that is not empty does not begin with a dot.
proof fn lemma_limited_name_first(cleaned: Seq<char>)
    ensures
        limited_name(cleaned).len() > 0 ==> limited_name(cleaned)[0] != '.',
{
    let u = trimmed(cleaned);
    let x = strip_start(u, CharClass::Dot);
    lemma_strip_start_first(u, CharClass::Dot);
    let y = strip_end(x, CharClass::Dot);
    if x.len() > 0 {
        lemma_strip_end_keeps_first(x, CharClass::Dot);
        lemma_collapse_first(y);
    } else {
        assert(y == x);
    }
}

/// The limited name never holds `..` and is at most 64 characters long.
proof fn lemma_limited_name_shape(cleaned: Seq<char>)
    ensures
        !has_double_dot(limited_name(cleaned)),
        limited_name(cleaned).len() <= 64,
        all_safe(cleaned) ==> all_safe(limited_name(cleaned)),
{
    let s = strip_both(trimmed(cleaned), CharClass::Dot);
    let t = collapse_double_dots(s);
    lemma_collapse_has_no_double_dot(s);
    lemma_utf8_len_at_least_len(t);
    lemma_utf8_len_is_encoding_length(t);
    if vstd::utf8::encode_utf8(t).len() > 64 && t.len() > 64 {
        lemma_take_keeps_no_double_dot(t, 64);
    }
    if all_safe(cleaned) {
        lemma_strip_start_safe(cleaned, CharClass::WhiteSpace);
        lemma_strip_end_safe(strip_start(cleaned, CharClass::WhiteSpace), CharClass::WhiteSpace);
        lemma_strip_start_safe(trimmed(cleaned), CharClass::Dot);
        lemma_strip_end_safe(strip_start(trimmed(cleaned), CharClass::Dot), CharClass::Dot);
        lemma_collapse_safe(s);
        if vstd::utf8::encode_utf8(t).len() > 64 && t.len() > 64 {
            lemma_safe_take(t, 64);
        }
    }
}

proof fn lemma_collapse_identity(s: Seq<char>)
    requires
        !has_double_dot(s),
    ensures
        collapse_double_dots(s) == s,
    decreases s.len(),
{
    if s.len() >= 2 && s[0] == '.' && s[1] == '.' {
        assert(s[0int + 1] == '.');
        assert(has_double_dot(s));
    } else if s.len() > 0 {
        let t = s.drop_first();
        assert forall|i: int| 0 <= i < t.len() - 1 && t[i] == '.' implies #[trigger] t[i + 1]
            != '.' by {
            assert(t[i] == s[i + 1]);
            assert(t[i + 1] == s[(i + 1) + 1]);
            if s[(i + 1) + 1] == '.' {
                assert(has_double_dot(s));
            }
        }
        lemma_collapse_identity(t);
        assert(seq![s[0]] + t =~= s);
    }
}

proof fn lemma_utf8_len_ascii(s: Seq<char>)
    requires
        all_ascii(s),
    ensures
        utf8_len(s) == s.len(),
    decreases s.len(),
{
    if s.len() > 0 {
        assert(all_ascii(s.drop_last())) by {
            assert forall|i: int| 0 <= i < s.drop_last().len() implies (#[trigger] s.drop_last()[i]
                as u32) < 128 by {
                assert(s.drop_last()[i] == s[i]);
            }
        }
        lemma_utf8_len_ascii(s.drop_last());
        assert((s[s.len() - 1] as u32) < 128);
    }
}

/// The steps after the outside calls leave a clean ASCII name as it is.
proof fn lemma_clean_name_finishes_unchanged(s: Seq<char>, random: Seq<u8>)
    requires
        is_clean_ascii_name(s),
    ensures
        finished_name(s, random) == s,
{
    assert(!is_white_space(s[0]));
    assert(!is_white_space(s.last()));
    assert(strip_start(s, CharClass::WhiteSpace) == s);
    assert(strip_end(s, CharClass::WhiteSpace) == s);
    assert(strip_start(s, CharClass::Dot) == s);
    assert(strip_end(s, CharClass::Dot) == s);
    lemma_collapse_identity(s);
    assert(all_ascii(s));
    lemma_utf8_len_ascii(s);
    lemma_utf8_len_is_encoding_length(s);
    assert(limited_name(s) == s);
    assert(!is_blank(s));
}

proof fn lemma_without_separators_identity(s: Seq<char>)
    requires
        forall|i: int| 0 <= i < s.len() ==> !is_separator(#[trigger] s[i]),
    ensures
        without_separators(s) == s,
    decreases s.len(),
{
    if s.len() > 0 {
        assert forall|i: int| 0 <= i < s.drop_last().len() implies !is_separator(
            #[trigger] s.drop_last()[i],
        ) by {
            assert(s.drop_last()[i] == s[i]);
        }
        lemma_without_separators_identity(s.drop_last());
        assert(!is_separator(s[s.len() - 1]));
        assert(s.drop_last().push(s.last()) =~= s);
    }
}

proof fn lemma_without_accents_identity(s: Seq<char>)
    requires
        forall|i: int| 0 <= i < s.len() ==> !is_accent_mark(#[trigger] s[i]),
    ensures
        without_accent_marks(s) == s,
    decreases s.len(),
{
    if s.len() > 0 {
        assert forall|i: int| 0 <= i < s.drop_last().len() implies !is_accent_mark(
            #[trigger] s.drop_last()[i],
        ) by {
            assert(s.drop_last()[i] == s[i]);
        }
        lemma_without_accents_identity(s.drop_last());
        assert(!is_accent_mark(s[s.len() - 1]));
        assert(s.drop_last().push(s.last()) =~= s);
    }
}

proof fn lemma_base_ascii(name: Seq<char>, b: Seq<char>)
    requires
        all_ascii(name),
        is_base_of(name, b),
    ensures
        all_ascii(b),
{
    if b != name {
        let k = choose|k: int|
            0 <= k && k + b.len() <= name.len() && #[trigger] name.subrange(k, k + b.len()) == b;
        assert forall|i: int| 0 <= i < b.len() implies (#[trigger] b[i] as u32) < 128 by {
            assert(b[i] == name.subrange(k, k + b.len())[i]);
            assert((name[k + i] as u32) < 128);
        }
    }
}

proof fn lemma_without_separators_ascii(s: Seq<char>)
    requires
        all_ascii(s),
    ensures
        all_ascii(without_separators(s)),
    decreases s.len(),
{
    if s.len() > 0 {
        assert(all_ascii(s.drop_last())) by {
            assert forall|i: int| 0 <= i < s.drop_last().len() implies (#[trigger] s.drop_last()[i]
                as u32) < 128 by {
                assert(s.drop_last()[i] == s[i]);
            }
        }
        lemma_without_separators_ascii(s.drop_last());
        let w = without_separators(s.drop_last());
        if !is_separator(s.last()) {
            let v = w.push(s.last());
            assert forall|i: int| 0 <= i < v.len() implies (#[trigger] v[i] as u32) < 128 by {
                if i < w.len() {
                    assert(v[i] == w[i]);
                } else {
                    assert(v[i] == s[s.len() - 1]);
                }
            }
        }
    }
}

/// A clean ASCII name is a plain name that the outside steps leave as it is.
proof fn lemma_clean_name_steps(s: Seq<char>)
    requires
        is_clean_ascii_name(s),
    ensures
        is_plain_name(s),
        all_ascii(s),
        without_separators(s) == s,
        ascii_cleaned(s) == s,
{
    reveal_strlit(".");
    reveal_strlit("..");
    assert(s != "."@) by {
        if s.len() == 1 {
            assert(s[0] != '.');
        }
    }
    assert(s != ".."@) by {
        if s.len() == 2 {
            assert(s[0] != '.');
        }
    }
    lemma_without_separators_identity(s);
    assert(ascii_cleaned(s) =~= s);
}

/// On ASCII text the accent and illegal-character steps amount to
/// `ascii_cleaned`.
proof fn lemma_ascii_cleaning(t: Seq<char>, cleaned: Seq<char>)
    requires
        all_ascii(t),
        cleaned.len() == without_accent_marks(t).len(),
        forall|i: int|
            0 <= i < without_accent_marks(t).len() ==> illegal_replaced(
                #[trigger] without_accent_marks(t)[i],
                cleaned[i],
            ),
    ensures
        cleaned == ascii_cleaned(t),
{
    assert forall|i: int| 0 <= i < t.len() implies !is_accent_mark(#[trigger] t[i]) by {
        assert((t[i] as u32) < 128);
    }
    lemma_without_accents_identity(t);
    assert forall|i: int| 0 <= i < t.len() implies #[trigger] cleaned[i] == ascii_cleaned(t)[i] by {
        assert(illegal_replaced(without_accent_marks(t)[i], cleaned[i]));
        assert((t[i] as u32) < 128);
    }
    assert(cleaned =~= ascii_cleaned(t));
}

proof fn lemma_without_accents_has_none(s: Seq<char>)
    ensures
        forall|i: int|
            0 <= i < without_accent_marks(s).len() ==> !is_accent_mark(
                #[trigger] without_accent_marks(s)[i],
            ),
    decreases s.len(),
{
    if s.len() > 0 {
        lemma_without_accents_has_none(s.drop_last());
        let w = without_accent_marks(s.drop_last());
        if !is_accent_mark(s.last()) {
            let v = w.push(s.last());
            assert forall|i: int| 0 <= i < v.len() implies !is_accent_mark(#[trigger] v[i]) by {
                if i < w.len() {
                    assert(v[i] == w[i]);
                }
            }
        }
    }
}
// ---------------------------------------------------------------------------
// Executable steps
// ---------------------------------------------------------------------------

fn remove_separators(s: &Vec<char>) -> (r: Vec<char>)
    ensures
        r@ == without_separators(s@),
{
    let mut out: Vec<char> = Vec::new();
    let mut k: usize = 0;
    proof {
        assert(s@.take(0) =~= Seq::<char>::empty());
    }
    while k < s.len()
        invariant
            k <= s@.len(),
            out@ == without_separators(s@.take(k as int)),
        decreases s.len() - k,
    {
        let c = s[k];
        if c != '/' && c != '\\' {
            out.push(c);
        }
        k = k + 1;
        proof {
            assert(s@.take(k as int).drop_last() =~= s@.take(k - 1));
        }
    }
    proof {
        assert(s@.take(s@.len() as int) =~= s@);
    }
    out
}

fn collapse_dots(s: &Vec<char>) -> (r: Vec<char>)
    ensures
        r@ == collapse_double_dots(s@),
{
    let mut out: Vec<char> = Vec::new();
    let mut k: usize = 0;
    proof {
        assert(s@.skip(0) =~= s@);
        assert(out@ + collapse_double_dots(s@) =~= collapse_double_dots(s@));
    }
    while k < s.len()
        invariant
            k <= s@.len(),
            collapse_double_dots(s@) == out@ + collapse_double_dots(s@.skip(k as int)),
        decreases s.len() - k,
    {
        let rest = Ghost(s@.skip(k as int));
        if k + 1 < s.len() && s[k] == '.' && s[k + 1] == '.' {
            out.push('_');
            proof {
                assert(rest@.skip(2) =~= s@.skip(k + 2));
                assert(collapse_double_dots(rest@) == seq!['_'] + collapse_double_dots(
                    s@.skip(k + 2),
                ));
                assert(out@ + collapse_double_dots(s@.skip(k + 2)) =~= out@.drop_last() + (
                seq!['_'] + collapse_double_dots(s@.skip(k + 2))));
            }
            k = k + 2;
        } else {
            out.push(s[k]);
            proof {
                assert(rest@.drop_first() =~= s@.skip(k + 1));
                assert(collapse_double_dots(rest@) == seq![s@[k as int]] + collapse_double_dots(
                    s@.skip(k + 1),
                ));
                assert(out@ + collapse_double_dots(s@.skip(k + 1)) =~= out@.drop_last() + (seq![
                    s@[k as int],
                ] + collapse_double_dots(s@.skip(k + 1))));
            }
            k = k + 1;
        }
    }
    proof {
        assert(s@.skip(k as int).len() == 0);
        assert(out@ + collapse_double_dots(s@.skip(k as int)) =~= out@);
    }
    out
}

fn underscore_chars(s: &Vec<char>) -> (r: Vec<char>)
    ensures
        r@ == underscore_spaces_and_dashes(s@),
{
    let mut out: Vec<char> = Vec::new();
    let mut k: usize = 0;
    while k < s.len()
        invariant
            k <= s@.len(),
            out@.len() == k,
            forall|i: int|
                0 <= i < k ==> #[trigger] out@[i] == underscore_spaces_and_dashes(s@)[i],
        decreases s.len() - k,
    {
        let c = s[k];
        if c == ' ' || c == '-' {
            out.push('_');
        } else {
            out.push(c);
        }
        k = k + 1;
    }
    proof {
        assert(out@ =~= underscore_spaces_and_dashes(s@));
    }
    out
}


/// The outside steps on `name`: its file name (or the whole text), path
/// separators removed, NFKD, accents removed, and characters outside word
/// characters, `.`, `-` and space replaced by `_`.
#[verifier::spinoff_prover]
fn regex_steps(name: &str, accents: &TextPattern, illegal: &TextPattern) -> (r: String)
    requires
        accents.source() == accent_pattern(),
        illegal.source() == illegal_pattern(),
    ensures
        r@ == regex_stage(base_name(name@)),
        all_safe(r@),
        is_clean_ascii_name(name@) ==> r@ == name@,
        is_base_of(name@, base_name(name@)),
        is_plain_name(name@) ==> base_name(name@) == name@,
        all_ascii(base_name(name@)) ==> r@ == ascii_cleaned(without_separators(base_name(name@))),
{
    let file_name = file_name_of(name);
    let base: String = match &file_name {
        Some(b) => b.clone(),
        None => string_of(name),
    };
    proof {
        assert(base@ == base_name(name@));
        assert(is_base_of(name@, base@));
    }
    let no_seps = string_from_chars(&remove_separators(&chars_of(base.as_str())));
    let decomposed = nfkd_of(no_seps.as_str());
    proof {
        reveal_strlit("");
    }
    let plain = replace_all_matches(accents, decomposed.as_str(), "");
    proof {
        reveal_strlit("_");
    }
    let cleaned = replace_all_matches(illegal, plain.as_str(), "_");
    proof {
        lemma_without_accents_has_none(decomposed@);
        assert forall|i: int| 0 <= i < cleaned@.len() implies is_safe_char(#[trigger] cleaned@[i]) by {
            let c = plain@[i];
            assert(!is_accent_mark(c));
        }
        if all_ascii(base@) {
            lemma_without_separators_ascii(base@);
            lemma_ascii_cleaning(no_seps@, cleaned@);
        }
        if is_clean_ascii_name(name@) {
            lemma_clean_name_steps(name@);
        }
    }
    cleaned
}

/// The steps after the outside calls: `cleaned` (what the regex steps gave)
/// trimmed of white space and then of dots, `..` collapsed, cut to 64
/// characters when longer than 64 bytes; when that is blank, `file_` and the
/// UUID text of `random` instead.
pub fn finish_sanitized(cleaned: &str, random: &[u8; 16]) -> (r: String)
    ensures
        r@ == finished_name(cleaned@, random@),
        !has_double_dot(r@),
        0 < r@.len() <= 64,
        r@[0] != '.',
        all_safe(cleaned@) ==> all_safe(r@),
        is_clean_ascii_name(cleaned@) ==> r@ == cleaned@,
{
    let t1 = strip_chars(&chars_of(cleaned), &CharClass::WhiteSpace);
    let t2 = strip_chars(&t1, &CharClass::Dot);
    let t = collapse_dots(&t2);
    let limited = if utf8_longer_than(&t, 64) && t.len() > 64 {
        copy_range(&t, 0, 64)
    } else {
        t
    };
    proof {
        lemma_limited_name_shape(cleaned@);
        lemma_limited_name_first(cleaned@);
        lemma_generated_name_shape(random@);
        if is_clean_ascii_name(cleaned@) {
            lemma_clean_name_finishes_unchanged(cleaned@, random@);
        }
    }
    let core = strip_chars(&limited, &CharClass::WhiteSpace);
    if core.len() == 0 {
        let mut out = String::new();
        push_str(&mut out, "file_");
        let id = uuid_simple_from_random(random);
        push_str(&mut out, id.as_str());
        proof {
            assert(out@ =~= generated_name(random@));
        }
        out
    } else {
        string_from_chars(&limited)
    }
}

/// Makes `name` safe as a file name: only its last path component is used,
/// path separators and accents are removed, every character outside word
/// characters, `.`, `-` and space becomes `_`, surrounding white space and
/// dots are trimmed, `..` becomes `_`, and the result is cut to 64
/// characters when longer than 64 bytes. A name that ends up blank is
/// replaced by `file_` and the UUID text of the random bytes `random`.
pub fn sanitize_filename(name: &str, random: &[u8; 16]) -> (r: String)
    requires
        sanitizer_patterns_compile(),
    ensures
        r@ == sanitized_name(name@, random@),
        !has_double_dot(r@),
        0 < r@.len() <= 64,
        r@[0] != '.',
        all_safe(r@),
        is_clean_ascii_name(name@) ==> r@ == name@,
        all_ascii(name@) ==> is_base_of(name@, base_name(name@)) && r@ == finished_name(
            ascii_cleaned(without_separators(base_name(name@))),
            random@,
        ),
        all_ascii(name@) && is_plain_name(name@) ==> r@ == finished_name(
            ascii_cleaned(name@),
            random@,
        ),
{
    let accents = compile_pattern("[\\u{0300}-\\u{036f}]");
    let illegal = compile_pattern("[^\\w\\.\\- ]");
    match (accents, illegal) {
        (Some(a), Some(i)) => {
            let cleaned = regex_steps(name, &a, &i);
            proof {
                if all_ascii(name@) {
                    lemma_base_ascii(name@, base_name(name@));
                }
                if is_plain_name(name@) {
                    assert forall|k: int| 0 <= k < name@.len() implies !is_separator(
                        #[trigger] name@[k],
                    ) by {
                        assert(name@[k] != '/' && name@[k] != '\\');
                    }
                    lemma_without_separators_identity(name@);
                }
            }
            finish_sanitized(cleaned.as_str(), random)
        },
        _ => {
            proof {
                assert(false);
            }
            String::new()
        },
    }
}

/// `sanitize_filename` with spaces and hyphens then replaced by `_`.
pub fn sanitize_class_name(name: &str, random: &[u8; 16]) -> (r: String)
    requires
        sanitizer_patterns_compile(),
    ensures
        r@ == underscore_spaces_and_dashes(sanitized_name(name@, random@)),
        !has_double_dot(r@),
        0 < r@.len() <= 64,
        r@[0] != '.',
        all_safe(r@),
        forall|i: int| 0 <= i < r@.len() ==> #[trigger] r@[i] != ' ' && r@[i] != '-',
{
    let base = sanitize_filename(name, random);
    let r = string_from_chars(&underscore_chars(&chars_of(base.as_str())));
    proof {
        let b = base@;
        assert forall|i: int| 0 <= i < r@.len() - 1 && r@[i] == '.' implies #[trigger] r@[i + 1]
            != '.' by {
            assert(b[i] == '.');
            if b[i + 1] == '.' {
                assert(has_double_dot(b));
            }
        }
        assert forall|i: int| 0 <= i < r@.len() implies is_safe_char(#[trigger] r@[i]) by {
            assert(is_safe_char(b[i]));
        }
    }
    r
}

/// The two spellings of a name that the naming command reports.
pub struct SanitizeResult {
    pub original: String,
    pub sanitized: String,
}

/// Whether both sanitization patterns compile.
pub fn sanitizer_ready() -> (r: bool)
    ensures
        r == sanitizer_patterns_compile(),
{
    let a = compile_pattern("[\\u{0300}-\\u{036f}]");
    let i = compile_pattern("[^\\w\\.\\- ]");
    a.is_some() && i.is_some()
}

/// The original name beside its sanitized file name; `None` only when the
/// sanitization patterns cannot be compiled.
pub fn sanitize_name(name: String, random: &[u8; 16]) -> (r: Option<SanitizeResult>)
    ensures
        r is Some <==> sanitizer_patterns_compile(),
        r matches Some(s) ==> s.original@ == name@ && s.sanitized@ == sanitized_name(
            name@,
            random@,
        ),
{
    if !sanitizer_ready() {
        return None;
    }
    let sanitized = sanitize_filename(name.as_str(), random);
    Some(SanitizeResult { original: name, sanitized })
}

} // verus!
