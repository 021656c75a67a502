//! Text helpers: the few standard-library string operations the library
//! relies on, and small verified utilities built from them.

use vstd::prelude::*;

verus! {

/// Whether a character has the Unicode `White_Space` property, which is
/// what `char::is_whitespace` and `str::trim` test.
pub open spec fn is_white_space(c: char) -> bool {
    let n = c as int;
    ||| 0x09 <= n <= 0x0d
    ||| n == 0x20 || n == 0x85 || n == 0xa0 || n == 0x1680
    ||| 0x2000 <= n <= 0x200a
    ||| n == 0x2028 || n == 0x2029 || n == 0x202f || n == 0x205f || n == 0x3000
}

/// A text with its leading and trailing white space removed.
pub open spec fn trimmed(text: Seq<char>) -> Seq<char>
    decreases text.len(),
{
    if text.len() > 0 && is_white_space(text[0]) {
        trimmed(text.drop_first())
    } else if text.len() > 0 && is_white_space(text.last()) {
        trimmed(text.drop_last())
    } else {
        text
    }
}

/// A trimmed text has no white space at either end, so trimming it again
/// leaves it as it is.
pub proof fn lemma_trimmed_is_trimmed(text: Seq<char>)
    ensures
        trimmed(text).len() > 0 ==> !is_white_space(trimmed(text)[0]) && !is_white_space(
            trimmed(text).last(),
        ),
        trimmed(trimmed(text)) == trimmed(text),
    decreases text.len(),
{
    if text.len() > 0 && is_white_space(text[0]) {
        lemma_trimmed_is_trimmed(text.drop_first());
    } else if text.len() > 0 && is_white_space(text.last()) {
        lemma_trimmed_is_trimmed(text.drop_last());
    }
}

/// The text that `str::to_lowercase` makes of a text.
pub uninterp spec fn lowercased(text: Seq<char>) -> Seq<char>;

/// Whether every character of a text is ASCII.
pub open spec fn is_ascii_text(text: Seq<char>) -> bool {
    forall|i: int| 0 <= i < text.len() ==> (text[i] as int) < 128
}

/// The lower-case form of an ASCII character: `A`-`Z` become `a`-`z`, any
/// other character is left as it is.
pub open spec fn ascii_lower(c: char) -> char {
    if 65 <= (c as int) <= 90 {
        ((c as int) + 32) as char
    } else {
        c
    }
}

/// A text with its ASCII capitals made lower-case.
pub open spec fn ascii_lowercase(text: Seq<char>) -> Seq<char> {
    text.map_values(|c: char| ascii_lower(c))
}

/// The lower-case form of a text: for ASCII text, its capitals lowered one
/// by one; otherwise the text that `str::to_lowercase` makes of it.
pub open spec fn lowered(text: Seq<char>) -> Seq<char> {
    if is_ascii_text(text) {
        ascii_lowercase(text)
    } else {
        lowercased(text)
    }
}

/// Wraps `str::trim`, copied into a new `String`.
#[verifier::external_body]
pub(crate) fn trim(text: &str) -> (r: String)
    ensures
        r@ == trimmed(text@),
{
    text.trim().to_string()
}

/// Wraps `str::to_lowercase`. The result is the Unicode lower-case mapping
/// of each character; on ASCII text that maps `A`-`Z` to `a`-`z` and leaves
/// every other character as it is. What it makes of other text is named
/// `lowercased`, not stated.
#[verifier::external_body]
pub(crate) fn to_lowercase(text: &str) -> (r: String)
    ensures
        r@ == lowercased(text@),
        is_ascii_text(text@) ==> r@ == ascii_lowercase(text@),
{
    text.to_lowercase()
}

/// The index of the last occurrence of `c` in a text, or -1 when there is
/// none.
pub open spec fn last_index_of(text: Seq<char>, c: char) -> int
    decreases text.len(),
{
    if text.len() == 0 {
        -1
    } else if text.last() == c {
        text.len() - 1
    } else {
        last_index_of(text.drop_last(), c)
    }
}

/// The extension of a plain file name: the text after its last `.`, or
/// `None` when no `.` follows its first character.
pub open spec fn plain_extension(path: Seq<char>) -> Option<Seq<char>> {
    let i = last_index_of(path, '.');
    if i < 1 {
        None
    } else {
        Some(path.subrange(i + 1, path.len() as int))
    }
}

/// The last `/`-separated part of a path (the whole path when it has no `/`).
pub open spec fn last_part(path: Seq<char>) -> Seq<char> {
    path.subrange(last_index_of(path, '/') + 1, path.len() as int)
}

/// A path whose file name is its last `/`-separated part on every platform:
/// `/` separates on every platform, and with no `\` or `:` and no leading
/// `//` the path has no Windows prefix; the last part is a name, not empty,
/// `.` or `..`.
pub open spec fn has_portable_file_name(path: Seq<char>) -> bool {
    &&& !path.contains('\\')
    &&& !path.contains(':')
    &&& !(path.len() >= 2 && path[0] == '/' && path[1] == '/')
    &&& last_part(path).len() > 0
    &&& last_part(path) != seq!['.']
    &&& last_part(path) != seq!['.', '.']
}

/// The extension of such a path: that of its last part.
pub open spec fn portable_extension(path: Seq<char>) -> Option<Seq<char>> {
    plain_extension(last_part(path))
}

/// Wraps `Path::extension` (as UTF-8 text). An extension is the text after
/// a `.` of the path and holds no `.`. Which part of a path is its file name
/// depends on the platform's path syntax for a path with `\`, `:` or a
/// leading `//`; for other paths it is the last `/`-separated part, and the
/// extension is the text after that part's last `.` (see
/// `portable_extension`).
#[verifier::external_body]
pub(crate) fn path_extension(path: &str) -> (r: Option<String>)
    ensures
        r matches Some(e) ==> !e@.contains('.') && exists|i: int|
            0 <= i && i + 1 + e@.len() <= path@.len() && path@[i] == '.' && path@.subrange(
                i + 1,
                i + 1 + e@.len(),
            ) == e@,
        has_portable_file_name(path@) ==> match r {
            Some(e) => portable_extension(path@) == Some(e@),
            None => portable_extension(path@) is None,
        },
{
    std::path::Path::new(path).extension().and_then(|e| e.to_str()).map(|e| e.to_string())
}

/// Wraps `String::push`.
#[verifier::external_body]
pub(crate) fn push_char(text: &mut String, c: char)
    ensures
        final(text)@ == old(text)@.push(c),
{
    text.push(c)
}

/// Wraps `str::chars` collected into a vector.
#[verifier::external_body]
pub(crate) fn chars_of(text: &str) -> (r: Vec<char>)
    ensures
        r@ == text@,
{
    text.chars().collect()
}

/// Whether two texts are equal.
pub fn text_eq(a: &str, b: &str) -> (r: bool)
    ensures
        r == (a@ == b@),
{
    let a_owned = a.to_owned();
    let b_owned = b.to_owned();
    a_owned == b_owned
}

/// The text made of `chars[from..to]`.
pub fn text_of_range(chars: &Vec<char>, from: usize, to: usize) -> (r: String)
    requires
        from <= to <= chars@.len(),
    ensures
        r@ == chars@.subrange(from as int, to as int),
{
    let mut out = String::new();
    let mut i = from;
    while i < to
        invariant
            from <= i <= to <= chars@.len(),
            out@ == chars@.subrange(from as int, i as int),
        decreases to - i,
    {
        push_char(&mut out, chars[i]);
        assert(out@ =~= chars@.subrange(from as int, i + 1));
        i = i + 1;
    }
    out
}

/// Index of the first `sep` in `text` at or after `from`, or the length of
/// `text` when there is none: where the field that starts at `from` ends.
pub open spec fn field_end(text: Seq<char>, sep: char, from: int) -> int
    recommends
        0 <= from <= text.len(),
    decreases text.len() - from,
{
    if from >= text.len() || text[from] == sep {
        from
    } else {
        field_end(text, sep, from + 1)
    }
}

/// The facts that make `field_end` what it says: it is at or after `from`,
/// within the text, and no `sep` lies between `from` and it.
pub proof fn lemma_field_end(text: Seq<char>, sep: char, from: int)
    requires
        0 <= from <= text.len(),
    ensures
        from <= field_end(text, sep, from) <= text.len(),
        field_end(text, sep, from) < text.len() ==> text[field_end(text, sep, from)] == sep,
        forall|k: int| from <= k < field_end(text, sep, from) ==> text[k] != sep,
    decreases text.len() - from,
{
    if from < text.len() && text[from] != sep {
        lemma_field_end(text, sep, from + 1);
    }
}

/// Finds where the field starting at `from` ends (see `field_end`).
pub fn find_field_end(chars: &Vec<char>, sep: char, from: usize) -> (r: usize)
    requires
        from <= chars@.len(),
    ensures
        r == field_end(chars@, sep, from as int),
{
    let mut i = from;
    while i < chars.len() && chars[i] != sep
        invariant
            from <= i <= chars@.len(),
            field_end(chars@, sep, i as int) == field_end(chars@, sep, from as int),
        decreases chars@.len() - i,
    {
        i = i + 1;
    }
    i
}

} // verus!
