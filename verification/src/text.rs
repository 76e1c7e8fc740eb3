//! Character-level text operations on `Seq<char>` models: whitespace, trimming,
//! line splitting, joining, decimal rendering and the small std string
//! operations that the rest of the library builds on.
use vstd::prelude::*;

verus! {

// ---------------------------------------------------------------------------
// Character classes
// ---------------------------------------------------------------------------

/// Unicode `White_Space`, the property that `char::is_whitespace` tests.
pub open spec fn is_white_space(c: char) -> bool {
    let u = c as u32;
    ||| 0x9 <= u <= 0xd
    ||| u == 0x20
    ||| u == 0x85
    ||| u == 0xa0
    ||| u == 0x1680
    ||| 0x2000 <= u <= 0x200a
    ||| u == 0x2028
    ||| u == 0x2029
    ||| u == 0x202f
    ||| u == 0x205f
    ||| u == 0x3000
}

/// Whether `c` is white space in the sense of `char::is_whitespace`.
pub fn is_whitespace_char(c: char) -> (r: bool)
    ensures
        r == is_white_space(c),
{
    let u = c as u32;
    (0x9 <= u && u <= 0xd) || u == 0x20 || u == 0x85 || u == 0xa0 || u == 0x1680 || (0x2000 <= u
        && u <= 0x200a) || u == 0x2028 || u == 0x2029 || u == 0x202f || u == 0x205f || u == 0x3000
}

/// A set of characters that trimming removes from both ends of a text.
pub enum CharClass {
    WhiteSpace,
    Dot,
}

impl CharClass {
    pub open spec fn holds(self, c: char) -> bool {
        match self {
            CharClass::WhiteSpace => is_white_space(c),
            CharClass::Dot => c == '.',
        }
    }

    pub fn contains(&self, c: char) -> (r: bool)
        ensures
            r == self.holds(c),
    {
        match self {
            CharClass::WhiteSpace => is_whitespace_char(c),
            CharClass::Dot => c == '.',
        }
    }
}

// ---------------------------------------------------------------------------
// Trimming
// ---------------------------------------------------------------------------

/// `s` without its leading characters of class `cl`.
pub open spec fn strip_start(s: Seq<char>, cl: CharClass) -> Seq<char>
    decreases s.len(),
{
    if s.len() > 0 && cl.holds(s[0]) {
        strip_start(s.drop_first(), cl)
    } else {
        s
    }
}

/// `s` without its trailing characters of class `cl`.
pub open spec fn strip_end(s: Seq<char>, cl: CharClass) -> Seq<char>
    decreases s.len(),
{
    if s.len() > 0 && cl.holds(s.last()) {
        strip_end(s.drop_last(), cl)
    } else {
        s
    }
}

/// `s` with the characters of class `cl` removed from both ends
/// (`str::trim_matches` with that class).
pub open spec fn strip_both(s: Seq<char>, cl: CharClass) -> Seq<char> {
    strip_end(strip_start(s, cl), cl)
}

/// `str::trim`: leading and trailing white space removed.
pub open spec fn trimmed(s: Seq<char>) -> Seq<char> {
    strip_both(s, CharClass::WhiteSpace)
}

/// A text is blank when nothing but white space is in it.
pub open spec fn is_blank(s: Seq<char>) -> bool {
    trimmed(s).len() == 0
}

proof fn lemma_strip_start_unfold(s: Seq<char>, i: int, cl: CharClass)
    requires
        0 <= i < s.len(),
        cl.holds(s[i]),
    ensures
        strip_start(s.subrange(i, s.len() as int), cl) == strip_start(
            s.subrange(i + 1, s.len() as int),
            cl,
        ),
{
    assert(s.subrange(i, s.len() as int).drop_first() =~= s.subrange(i + 1, s.len() as int));
}

proof fn lemma_strip_end_unfold(s: Seq<char>, i: int, j: int, cl: CharClass)
    requires
        0 <= i < j <= s.len(),
        cl.holds(s[j - 1]),
    ensures
        strip_end(s.subrange(i, j), cl) == strip_end(s.subrange(i, j - 1), cl),
{
    assert(s.subrange(i, j).drop_last() =~= s.subrange(i, j - 1));
}

/// The characters of `s` with those of class `cl` removed from both ends.
pub fn strip_chars(s: &Vec<char>, cl: &CharClass) -> (r: Vec<char>)
    ensures
        r@ == strip_both(s@, *cl),
{
    let n = s.len();
    let mut i: usize = 0;
    proof {
        assert(s@.subrange(0, n as int) =~= s@);
    }
    while i < n && cl.contains(s[i])
        invariant
            n == s@.len(),
            0 <= i <= n,
            strip_start(s@, *cl) == strip_start(s@.subrange(i as int, n as int), *cl),
        decreases n - i,
    {
        proof {
            lemma_strip_start_unfold(s@, i as int, *cl);
        }
        i = i + 1;
    }
    let mut j: usize = n;
    while j > i && cl.contains(s[j - 1])
        invariant
            n == s@.len(),
            i <= j <= n,
            strip_start(s@, *cl) == s@.subrange(i as int, n as int),
            strip_both(s@, *cl) == strip_end(s@.subrange(i as int, j as int), *cl),
        decreases j - i,
    {
        proof {
            lemma_strip_end_unfold(s@, i as int, j as int, *cl);
        }
        j = j - 1;
    }
    copy_range(s, i, j)
}

/// `s[from..to]` as a new vector.
pub fn copy_range(s: &Vec<char>, from: usize, to: usize) -> (r: Vec<char>)
    requires
        from <= to <= s.len(),
    ensures
        r@ == s@.subrange(from as int, to as int),
{
    let mut out: Vec<char> = Vec::new();
    let mut k = from;
    while k < to
        invariant
            from <= k <= to <= s.len(),
            out@ == s@.subrange(from as int, k as int),
        decreases to - k,
    {
        out.push(s[k]);
        k = k + 1;
        proof {
            assert(out@ =~= s@.subrange(from as int, k as int));
        }
    }
    out
}

/// `str::trim`: `s` without leading and trailing white space.
pub fn trim(s: &str) -> (r: String)
    ensures
        r@ == trimmed(s@),
{
    let cs = chars_of(s);
    let t = strip_chars(&cs, &CharClass::WhiteSpace);
    string_from_chars(&t)
}

/// Whether `s` holds nothing but white space.
pub fn is_blank_text(s: &str) -> (r: bool)
    ensures
        r == is_blank(s@),
{
    let cs = chars_of(s);
    let t = strip_chars(&cs, &CharClass::WhiteSpace);
    t.len() == 0
}

// ---------------------------------------------------------------------------
// Conversions between `str`, `String` and characters
// ---------------------------------------------------------------------------

/// The characters of `s`, in order.
pub fn chars_of(s: &str) -> (r: Vec<char>)
    ensures
        r@ == s@,
{
    let mut out: Vec<char> = Vec::new();
    for c in it: s.chars()
        invariant
            out@ == it.seq().take(it.index() as int),
    {
        out.push(c);
    }
    out
}

/// `String::push`: appends one character.
#[verifier::external_body]
pub(crate) fn push_char(s: &mut String, c: char)
    ensures
        final(s)@ == old(s)@.push(c),
{
    s.push(c)
}

/// Appends all of `cs` to `s`.
pub fn push_chars(s: &mut String, cs: &Vec<char>)
    ensures
        final(s)@ == old(s)@ + cs@,
{
    let ghost start = s@;
    let mut k: usize = 0;
    while k < cs.len()
        invariant
            k <= cs@.len(),
            s@ == start + cs@.take(k as int),
        decreases cs.len() - k,
    {
        push_char(s, cs[k]);
        k = k + 1;
        proof {
            assert(start + cs@.take(k as int) =~= (start + cs@.take(k - 1)).push(cs@[k - 1]));
        }
    }
    proof {
        assert(cs@.take(cs@.len() as int) =~= cs@);
    }
}

/// Appends all of `t` to `s`.
pub fn push_str(s: &mut String, t: &str)
    ensures
        final(s)@ == old(s)@ + t@,
{
    let cs = chars_of(t);
    push_chars(s, &cs);
}

/// A `String` holding exactly the characters `cs`.
pub fn string_from_chars(cs: &Vec<char>) -> (r: String)
    ensures
        r@ == cs@,
{
    let mut s = String::new();
    push_chars(&mut s, cs);
    proof {
        assert(Seq::<char>::empty() + cs@ =~= cs@);
    }
    s
}

/// A `String` holding the characters of `t`.
pub fn string_of(t: &str) -> (r: String)
    ensures
        r@ == t@,
{
    t.to_owned()
}

/// `true` when `a` and `b` hold the same characters.
pub fn same_text(a: &str, b: &str) -> (r: bool)
    ensures
        r == (a@ == b@),
{
    let x = chars_of(a);
    let y = chars_of(b);
    if x.len() != y.len() {
        return false;
    }
    let mut k: usize = 0;
    while k < x.len()
        invariant
            x@ == a@,
            y@ == b@,
            x@.len() == y@.len(),
            k <= x@.len(),
            forall|m: int| 0 <= m < k ==> x@[m] == y@[m],
        decreases x.len() - k,
    {
        if x[k] != y[k] {
            return false;
        }
        k = k + 1;
    }
    proof {
        assert(x@ =~= y@);
    }
    true
}

/// `true` when `s` begins with `prefix`.
pub fn starts_with_text(s: &str, prefix: &str) -> (r: bool)
    ensures
        r == (prefix@.len() <= s@.len() && s@.take(prefix@.len() as int) == prefix@),
{
    let x = chars_of(s);
    let p = chars_of(prefix);
    if p.len() > x.len() {
        return false;
    }
    let mut k: usize = 0;
    while k < p.len()
        invariant
            x@ == s@,
            p@ == prefix@,
            p@.len() <= x@.len(),
            k <= p@.len(),
            forall|m: int| 0 <= m < k ==> x@[m] == p@[m],
        decreases p.len() - k,
    {
        if x[k] != p[k] {
            proof {
                assert(s@.take(prefix@.len() as int)[k as int] != prefix@[k as int]);
            }
            return false;
        }
        k = k + 1;
    }
    proof {
        assert(s@.take(prefix@.len() as int) =~= prefix@);
    }
    true
}

// ---------------------------------------------------------------------------
// UTF-8 length
// ---------------------------------------------------------------------------

/// Number of bytes in the UTF-8 encoding of `c`.
pub open spec fn utf8_width(c: char) -> nat {
    let u = c as u32;
    if u < 0x80 {
        1
    } else if u < 0x800 {
        2
    } else if u < 0x10000 {
        3
    } else {
        4
    }
}

/// Number of bytes in the UTF-8 encoding of `s` (what `str::len` returns).
pub open spec fn utf8_len(s: Seq<char>) -> nat
    decreases s.len(),
{
    if s.len() == 0 {
        0
    } else {
        utf8_len(s.drop_last()) + utf8_width(s.last())
    }
}

proof fn lemma_encode_utf8_concat(a: Seq<char>, b: Seq<char>)
    ensures
        vstd::utf8::encode_utf8(a + b) == vstd::utf8::encode_utf8(a) + vstd::utf8::encode_utf8(b),
    decreases a.len(),
{
    if a.len() == 0 {
        assert(a + b =~= b);
        assert(vstd::utf8::encode_utf8(a) =~= Seq::<u8>::empty());
        assert(Seq::<u8>::empty() + vstd::utf8::encode_utf8(b) =~= vstd::utf8::encode_utf8(b));
    } else {
        lemma_encode_utf8_concat(a.drop_first(), b);
        assert((a + b).drop_first() =~= a.drop_first() + b);
        assert((a + b)[0] == a[0]);
        assert(vstd::utf8::encode_utf8(a + b) =~= vstd::utf8::encode_scalar(a[0] as u32)
            + vstd::utf8::encode_utf8(a.drop_first() + b));
    }
}

proof fn lemma_scalar_width(c: char)
    ensures
        vstd::utf8::encode_scalar(c as u32).len() == utf8_width(c),
{
    vstd::utf8::char_is_scalar(c);
}

/// `utf8_len` is the length of vstd's UTF-8 encoding of the text, the length
/// that `str::len` reports.
pub proof fn lemma_utf8_len_is_encoding_length(s: Seq<char>)
    ensures
        utf8_len(s) == vstd::utf8::encode_utf8(s).len(),
    decreases s.len(),
{
    if s.len() > 0 {
        lemma_utf8_len_is_encoding_length(s.drop_last());
        lemma_encode_utf8_concat(s.drop_last(), seq![s.last()]);
        assert(s.drop_last() + seq![s.last()] =~= s);
        assert(seq![s.last()].drop_first() =~= Seq::<char>::empty());
        assert(vstd::utf8::encode_utf8(seq![s.last()]) =~= vstd::utf8::encode_scalar(
            s.last() as u32,
        ) + vstd::utf8::encode_utf8(Seq::<char>::empty()));
        lemma_scalar_width(s.last());
    }
}

/// A text has at least as many UTF-8 bytes as characters.
pub(crate) proof fn lemma_utf8_len_at_least_len(s: Seq<char>)
    ensures
        utf8_len(s) >= s.len(),
    decreases s.len(),
{
    if s.len() > 0 {
        lemma_utf8_len_at_least_len(s.drop_last());
    }
}

proof fn lemma_utf8_len_monotone(s: Seq<char>, i: int, j: int)
    requires
        0 <= i <= j <= s.len(),
    ensures
        utf8_len(s.take(i)) <= utf8_len(s.take(j)),
    decreases j - i,
{
    if i < j {
        lemma_utf8_len_monotone(s, i, j - 1);
        assert(s.take(j).drop_last() =~= s.take(j - 1));
    }
}

/// Whether the UTF-8 encoding of `s` is longer than `limit` bytes.
pub fn utf8_longer_than(s: &Vec<char>, limit: usize) -> (r: bool)
    ensures
        r == (vstd::utf8::encode_utf8(s@).len() > limit),
{
    proof {
        lemma_utf8_len_is_encoding_length(s@);
    }
    let r = utf8_len_exceeds(s, limit);
    r
}

fn utf8_len_exceeds(s: &Vec<char>, limit: usize) -> (r: bool)
    ensures
        r == (utf8_len(s@) > limit),
{
    let mut total: usize = 0;
    let mut k: usize = 0;
    while k < s.len()
        invariant
            k <= s@.len(),
            total == utf8_len(s@.take(k as int)),
            total <= limit,
        decreases s.len() - k,
    {
        let u = s[k] as u32;
        let w: usize = if u < 0x80 {
            1
        } else if u < 0x800 {
            2
        } else if u < 0x10000 {
            3
        } else {
            4
        };
        proof {
            assert(s@.take(k + 1).drop_last() =~= s@.take(k as int));
        }
        if w > limit - total {
            proof {
                lemma_utf8_len_monotone(s@, k + 1, s@.len() as int);
                assert(s@.take(s@.len() as int) =~= s@);
            }
            return true;
        }
        total = total + w;
        k = k + 1;
    }
    proof {
        assert(s@.take(s@.len() as int) =~= s@);
    }
    false
}

// ---------------------------------------------------------------------------
// Lines
// ---------------------------------------------------------------------------

/// Index of the first `'\n'` in `s`, if there is one.
pub open spec fn first_newline(s: Seq<char>) -> Option<int>
    decreases s.len(),
{
    if s.len() == 0 {
        None
    } else if s[0] == '\n' {
        Some(0)
    } else {
        match first_newline(s.drop_first()) {
            Some(k) => Some(k + 1),
            None => None,
        }
    }
}

/// A line as `str::lines` yields it: a piece that ended with `'\n'` loses one
/// trailing `'\r'`.
pub open spec fn strip_cr(piece: Seq<char>) -> Seq<char> {
    if piece.len() > 0 && piece.last() == '\r' {
        piece.drop_last()
    } else {
        piece
    }
}

/// `str::lines`: the text split at `'\n'` (and `"\r\n"`); a final line ending
/// does not start an empty last line, and an empty text has no lines.
pub open spec fn lines_of(s: Seq<char>) -> Seq<Seq<char>>
    decreases s.len(),
{
    if s.len() == 0 {
        Seq::empty()
    } else {
        match first_newline(s) {
            None => seq![s],
            Some(k) => {
                if 0 <= k < s.len() {
                    seq![strip_cr(s.take(k))] + lines_of(s.skip(k + 1))
                } else {
                    Seq::empty()
                }
            },
        }
    }
}

proof fn lemma_first_newline(s: Seq<char>, k: int)
    requires
        0 <= k < s.len(),
        s[k] == '\n',
        forall|m: int| 0 <= m < k ==> s[m] != '\n',
    ensures
        first_newline(s) == Some(k),
    decreases k,
{
    if k > 0 {
        lemma_first_newline(s.drop_first(), k - 1);
    }
}

proof fn lemma_no_newline(s: Seq<char>)
    requires
        forall|m: int| 0 <= m < s.len() ==> s[m] != '\n',
    ensures
        first_newline(s) == None::<int>,
    decreases s.len(),
{
    if s.len() > 0 {
        lemma_no_newline(s.drop_first());
    }
}

/// `str::lines` of `text`, each line as a `String`.
pub fn split_lines(text: &str) -> (r: Vec<String>)
    ensures
        r@.len() == lines_of(text@).len(),
        forall|i: int| 0 <= i < r@.len() ==> #[trigger] r@[i]@ == lines_of(text@)[i],
{
    let cs = chars_of(text);
    let n = cs.len();
    let mut out: Vec<String> = Vec::new();
    let mut start: usize = 0;
    let mut k: usize = 0;
    let ghost outv: Seq<Seq<char>> = Seq::empty();
    proof {
        assert(cs@.skip(0) =~= cs@);
        assert(outv + lines_of(cs@) =~= lines_of(cs@));
    }
    while k < n
        invariant
            cs@ == text@,
            n == cs@.len(),
            start <= k <= n,
            out@.len() == outv.len(),
            forall|i: int| 0 <= i < out@.len() ==> #[trigger] out@[i]@ == outv[i],
            lines_of(text@) == outv + lines_of(cs@.skip(start as int)),
            forall|m: int| start <= m < k ==> cs@[m] != '\n',
        decreases n - k,
    {
        if cs[k] == '\n' {
            let ghost rest = cs@.skip(start as int);
            proof {
                lemma_first_newline(rest, k - start);
                assert(rest.take(k - start) =~= cs@.subrange(start as int, k as int));
                assert(rest.skip(k - start + 1) =~= cs@.skip(k + 1));
            }
            let piece = copy_range(&cs, start, k);
            let line = if piece.len() > 0 && piece[piece.len() - 1] == '\r' {
                let p2 = copy_range(&piece, 0, piece.len() - 1);
                proof {
                    assert(p2@ =~= piece@.drop_last());
                }
                p2
            } else {
                piece
            };
            let ls = string_from_chars(&line);
            out.push(ls);
            proof {
                outv = outv.push(strip_cr(cs@.subrange(start as int, k as int)));
                assert(outv.push(strip_cr(cs@.subrange(start as int, k as int))) + lines_of(
                    cs@.skip(k + 1),
                ) =~= outv + (seq![strip_cr(cs@.subrange(start as int, k as int))] + lines_of(
                    cs@.skip(k + 1),
                )));
            }
            start = k + 1;
        }
        k = k + 1;
    }
    if start < n {
        let ghost rest = cs@.skip(start as int);
        proof {
            assert forall|m: int| 0 <= m < rest.len() implies rest[m] != '\n' by {
                assert(rest[m] == cs@[start + m]);
            }
            lemma_no_newline(rest);
            assert(rest =~= cs@.subrange(start as int, n as int));
        }
        let piece = copy_range(&cs, start, n);
        let ls = string_from_chars(&piece);
        out.push(ls);
        proof {
            outv = outv.push(rest);
            assert(lines_of(rest) == seq![rest]);
        }
    } else {
        proof {
            assert(cs@.skip(start as int).len() == 0);
        }
    }
    proof {
        assert(lines_of(text@) =~= outv);
    }
    out
}

// ---------------------------------------------------------------------------
// Joining
// ---------------------------------------------------------------------------

/// The pieces of `list` with `sep` between each two of them (`slice::join`).
pub open spec fn join_with(list: Seq<Seq<char>>, sep: Seq<char>) -> Seq<char>
    decreases list.len(),
{
    if list.len() == 0 {
        Seq::empty()
    } else if list.len() == 1 {
        list[0]
    } else {
        join_with(list.drop_last(), sep) + sep + list.last()
    }
}

/// The view of an optional string.
pub open spec fn opt_view(o: Option<String>) -> Option<Seq<char>> {
    match o {
        Some(s) => Some(s@),
        None => None,
    }
}

/// The views of a vector of strings.
pub open spec fn string_views(v: Seq<String>) -> Seq<Seq<char>> {
    v.map_values(|s: String| s@)
}

/// `slice::join`: the strings of `list` with `sep` between each two of them.
pub fn join_strings(list: &Vec<String>, sep: &str) -> (r: String)
    ensures
        r@ == join_with(string_views(list@), sep@),
{
    let mut res = String::new();
    let ghost views = string_views(list@);
    let mut i: usize = 0;
    while i < list.len()
        invariant
            i <= list@.len(),
            views == string_views(list@),
            res@ == join_with(views.take(i as int), sep@),
        decreases list.len() - i,
    {
        if i != 0 {
            push_str(&mut res, sep);
        }
        push_str(&mut res, list[i].as_str());
        proof {
            assert(views.take(i + 1).drop_last() =~= views.take(i as int));
            if i == 0 {
                assert(res@ =~= views[0]);
            }
        }
        i = i + 1;
    }
    proof {
        assert(views.take(list@.len() as int) =~= views);
    }
    res
}

// ---------------------------------------------------------------------------
// Decimal rendering
// ---------------------------------------------------------------------------

/// The decimal digit character for `d < 10`.
pub open spec fn digit_char(d: nat) -> char {
    if d == 0 {
        '0'
    } else if d == 1 {
        '1'
    } else if d == 2 {
        '2'
    } else if d == 3 {
        '3'
    } else if d == 4 {
        '4'
    } else if d == 5 {
        '5'
    } else if d == 6 {
        '6'
    } else if d == 7 {
        '7'
    } else if d == 8 {
        '8'
    } else {
        '9'
    }
}

/// The decimal rendering of `n`, without leading zeros (`"0"` for zero).
pub open spec fn decimal(n: nat) -> Seq<char>
    decreases n,
{
    if n < 10 {
        seq![digit_char(n)]
    } else {
        decimal(n / 10).push(digit_char(n % 10))
    }
}

/// The rendering of `{:04}`: `decimal(n)` padded on the left with zeros to
/// four characters.
pub open spec fn decimal_width4(n: nat) -> Seq<char> {
    let d = decimal(n);
    if d.len() < 4 {
        Seq::new((4 - d.len()) as nat, |i: int| '0') + d
    } else {
        d
    }
}

/// The rendering of an `i32` with `{}`.
pub open spec fn signed_decimal(n: int) -> Seq<char> {
    if n < 0 {
        seq!['-'] + decimal((-n) as nat)
    } else {
        decimal(n as nat)
    }
}

/// The rendering of an `Option<i32>` with `{:?}`.
pub open spec fn debug_option_i32(v: Option<i32>) -> Seq<char> {
    match v {
        Some(n) => "Some("@ + signed_decimal(n as int) + ")"@,
        None => "None"@,
    }
}

fn digit(d: u64) -> (c: char)
    requires
        d < 10,
    ensures
        c == digit_char(d as nat),
{
    if d == 0 {
        '0'
    } else if d == 1 {
        '1'
    } else if d == 2 {
        '2'
    } else if d == 3 {
        '3'
    } else if d == 4 {
        '4'
    } else if d == 5 {
        '5'
    } else if d == 6 {
        '6'
    } else if d == 7 {
        '7'
    } else if d == 8 {
        '8'
    } else {
        '9'
    }
}

/// Appends the decimal rendering of `n` to `s`.
pub fn push_decimal(s: &mut String, n: u64)
    ensures
        final(s)@ == old(s)@ + decimal(n as nat),
    decreases n,
{
    if n >= 10 {
        push_decimal(s, n / 10);
        let ghost mid = s@;
        push_char(s, digit(n % 10));
        proof {
            assert(s@ =~= old(s)@ + decimal(n as nat));
        }
    } else {
        push_char(s, digit(n));
        proof {
            assert(s@ =~= old(s)@ + decimal(n as nat));
        }
    }
}

/// Appends `{:04}` of `n` to `s`.
pub fn push_decimal_width4(s: &mut String, n: u64)
    ensures
        final(s)@ == old(s)@ + decimal_width4(n as nat),
{
    let mut digits = String::new();
    push_decimal(&mut digits, n);
    let ghost d = decimal(n as nat);
    assert(digits@ =~= d);
    let dc = chars_of(digits.as_str());
    let mut pad: usize = 0;
    let ghost start = s@;
    if dc.len() < 4 {
        let need = 4 - dc.len();
        while pad < need
            invariant
                pad <= need,
                need == 4 - d.len(),
                s@ == start + Seq::new(pad as nat, |i: int| '0'),
            decreases need - pad,
        {
            push_char(s, '0');
            pad = pad + 1;
            proof {
                assert(s@ =~= start + Seq::new(pad as nat, |i: int| '0'));
            }
        }
    }
    push_chars(s, &dc);
    proof {
        assert(s@ =~= start + decimal_width4(n as nat));
    }
}

/// Appends `{}` of an `i32` to `s`.
pub fn push_signed_decimal(s: &mut String, n: i32)
    ensures
        final(s)@ == old(s)@ + signed_decimal(n as int),
{
    if n < 0 {
        push_char(s, '-');
        let m: u64 = (-(n as i64)) as u64;
        push_decimal(s, m);
        proof {
            assert(s@ =~= old(s)@ + signed_decimal(n as int));
        }
    } else {
        push_decimal(s, n as u64);
    }
}

/// Appends `{:?}` of an `Option<i32>` to `s`.
pub fn push_debug_option_i32(s: &mut String, v: Option<i32>)
    ensures
        final(s)@ == old(s)@ + debug_option_i32(v),
{
    match v {
        Some(n) => {
            push_str(s, "Some(");
            push_signed_decimal(s, n);
            push_str(s, ")");
            proof {
                assert(s@ =~= old(s)@ + debug_option_i32(v));
            }
        },
        None => {
            push_str(s, "None");
        },
    }
}

} // verus!
