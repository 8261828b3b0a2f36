//! YAML frontmatter of Markdown notes: finding it, reading a title and tags
//! from it, and writing it for notes that have none.
#![verifier::loop_isolation(false)]

use crate::text::{
    chars_eq, chars_of, deep_chars, extend_chars, spec_last_index_of, spec_trim,
    spec_trim_start_in, string_of,
    sub_chars, trim, trim_start_in,
};
use vstd::prelude::*;

verus! {

/// `line` without one trailing `\n` and then one trailing `\r`.
pub open spec fn spec_trim_line_ending(line: Seq<char>) -> Seq<char> {
    let a = if line.len() > 0 && line.last() == '\n' {
        line.drop_last()
    } else {
        line
    };
    if a.len() > 0 && a.last() == '\r' {
        a.drop_last()
    } else {
        a
    }
}

pub fn trim_line_ending_chars(line: &[char]) -> (r: Vec<char>)
    ensures
        r@ == spec_trim_line_ending(line@),
{
    let mut end = line.len();
    if end > 0 && line[end - 1] == '\n' {
        end = end - 1;
    }
    if end > 0 && line[end - 1] == '\r' {
        end = end - 1;
    }
    let r = sub_chars(line, 0, end);
    assert(line@.take(line.len() as int) == line@);
    assert(line@.subrange(0, line.len() - 1) == line@.drop_last());
    r
}

/// Removes one trailing line ending (`\n`, `\r\n` or `\r`) from a line.
pub fn trim_line_ending(line: &str) -> (r: String)
    ensures
        r@ == spec_trim_line_ending(line@),
{
    string_of(&trim_line_ending_chars(&chars_of(line)))
}

/// The pieces of `s` that `str::split_inclusive('\n')` yields: each ends with
/// its `\n`, except perhaps the last; an empty string yields none.
pub open spec fn spec_split_inclusive(s: Seq<char>) -> Seq<Seq<char>>
    decreases s.len(),
{
    if s.len() == 0 {
        Seq::empty()
    } else {
        let p = spec_split_inclusive(s.drop_last());
        if p.len() == 0 || p.last().last() == '\n' {
            p.push(seq![s.last()])
        } else {
            p.update(p.len() - 1, p.last().push(s.last()))
        }
    }
}

/// The pieces concatenated.
pub open spec fn spec_concat(pieces: Seq<Seq<char>>) -> Seq<char>
    decreases pieces.len(),
{
    if pieces.len() == 0 {
        Seq::empty()
    } else {
        spec_concat(pieces.drop_last()) + pieces.last()
    }
}

pub proof fn lemma_split_inclusive_pieces_nonempty(s: Seq<char>)
    ensures
        forall|i: int|
            0 <= i < spec_split_inclusive(s).len() ==> #[trigger] spec_split_inclusive(s)[i].len()
                > 0,
    decreases s.len(),
{
    if s.len() > 0 {
        lemma_split_inclusive_pieces_nonempty(s.drop_last());
        let p = spec_split_inclusive(s.drop_last());
        let q = spec_split_inclusive(s);
        assert forall|i: int| 0 <= i < q.len() implies #[trigger] q[i].len() > 0 by {
            if i < p.len() {
                assert(p[i].len() > 0);
            }
        }
    }
}

pub fn split_inclusive_lines(s: &[char]) -> (r: Vec<Vec<char>>)
    ensures
        deep_chars(r@) == spec_split_inclusive(s@),
{
    let mut r: Vec<Vec<char>> = Vec::new();
    let mut i: usize = 0;
    proof {
        lemma_split_inclusive_pieces_nonempty(s@);
    }
    while i < s.len()
        invariant
            i <= s.len(),
            deep_chars(r@) == spec_split_inclusive(s@.take(i as int)),
        decreases s.len() - i,
    {
        assert(s@.take(i as int + 1).drop_last() == s@.take(i as int));
        let ghost before = deep_chars(r@);
        proof {
            lemma_split_inclusive_pieces_nonempty(s@.take(i as int));
        }
        let n = r.len();
        let starts_new = if n == 0 {
            true
        } else {
            let l = &r[n - 1];
            assert(l@ == before[n - 1]);
            assert(l@.len() > 0);
            l[l.len() - 1] == '\n'
        };
        if starts_new {
            let mut line: Vec<char> = Vec::new();
            line.push(s[i]);
            r.push(line);
            assert(deep_chars(r@) == before.push(seq![s@[i as int]]));
        } else {
            let mut last = r.pop().unwrap();
            last.push(s[i]);
            r.push(last);
            assert(deep_chars(r@) == before.update(
                before.len() - 1,
                before.last().push(s@[i as int]),
            ));
        }
        i = i + 1;
    }
    assert(s@.take(s.len() as int) == s@);
    r
}

pub open spec fn is_fence(line: Seq<char>) -> bool {
    spec_trim(spec_trim_line_ending(line)) == "---"@
}

pub open spec fn is_closing_fence(line: Seq<char>) -> bool {
    spec_trim(spec_trim_line_ending(line)) == "---"@ || spec_trim(spec_trim_line_ending(line))
        == "..."@
}

/// The index of the first closing fence at index `j` or later.
pub open spec fn spec_closing_from(lines: Seq<Seq<char>>, j: int) -> Option<int>
    decreases lines.len() - j,
{
    if j < 0 || j >= lines.len() {
        None
    } else if is_closing_fence(lines[j]) {
        Some(j)
    } else {
        spec_closing_from(lines, j + 1)
    }
}

/// `content` without a leading byte-order mark.
pub open spec fn spec_strip_bom(content: Seq<char>) -> Seq<char> {
    if content.len() > 0 && content[0] == '\u{feff}' {
        content.drop_first()
    } else {
        content
    }
}

/// The YAML between a first line of `---` and the next line of `---` or
/// `...` (a byte-order mark before the first line is allowed), or `None`
/// when the note does not open with frontmatter.
pub open spec fn spec_frontmatter_body(content: Seq<char>) -> Option<Seq<char>> {
    let lines = spec_split_inclusive(spec_strip_bom(content));
    if lines.len() == 0 || !is_fence(lines[0]) {
        None
    } else {
        match spec_closing_from(lines, 1) {
            Some(j) => Some(spec_concat(lines.subrange(1, j))),
            None => None,
        }
    }
}

pub fn frontmatter_body_chars(content: &[char]) -> (r: Option<Vec<char>>)
    ensures
        match r {
            Some(b) => spec_frontmatter_body(content@) == Some(b@),
            None => spec_frontmatter_body(content@) is None,
        },
{
    let body_source = if content.len() > 0 && content[0] == '\u{feff}' {
        sub_chars(content, 1, content.len())
    } else {
        sub_chars(content, 0, content.len())
    };
    assert(content@.subrange(0, content.len() as int) == content@);
    let lines = split_inclusive_lines(&body_source);
    let ghost d = deep_chars(lines@);
    if lines.len() == 0 {
        return None;
    }
    let first = trim(&trim_line_ending_chars(&lines[0]));
    assert(lines[0]@ == d[0]);
    if !chars_eq(&first, &chars_of("---")) {
        return None;
    }
    let mut body: Vec<char> = Vec::new();
    let mut j: usize = 1;
    while j < lines.len()
        invariant
            1 <= j <= lines.len(),
            d == deep_chars(lines@),
            spec_closing_from(d, 1) == spec_closing_from(d, j as int),
            body@ == spec_concat(d.subrange(1, j as int)),
        decreases lines.len() - j,
    {
        let line = &lines[j];
        assert(line@ == d[j as int]);
        let t = trim(&trim_line_ending_chars(line));
        if chars_eq(&t, &chars_of("---")) || chars_eq(&t, &chars_of("...")) {
            return Some(body);
        }
        assert(d.subrange(1, j as int + 1).drop_last() == d.subrange(1, j as int));
        extend_chars(&mut body, line);
        j = j + 1;
    }
    None
}

/// The YAML frontmatter of a note, without its fences, when the note opens with it.
pub fn frontmatter_body(content: &str) -> (r: Option<String>)
    ensures
        match r {
            Some(b) => spec_frontmatter_body(content@) == Some(b@),
            None => spec_frontmatter_body(content@) is None,
        },
{
    match frontmatter_body_chars(&chars_of(content)) {
        Some(b) => Some(string_of(&b)),
        None => None,
    }
}

} // verus!

verus! {

/// `s` with each `''` read as one `'`, from left to right.
pub open spec fn spec_single_quoted(s: Seq<char>) -> Seq<char>
    decreases s.len(),
{
    if s.len() == 0 {
        Seq::empty()
    } else if s.len() >= 2 && s[0] == '\'' && s[1] == '\'' {
        seq!['\''] + spec_single_quoted(s.skip(2))
    } else {
        seq![s[0]] + spec_single_quoted(s.skip(1))
    }
}

/// The character that a backslash escape in a double-quoted scalar stands for.
pub open spec fn spec_escaped_char(c: char) -> char {
    if c == 'n' {
        '\n'
    } else if c == 'r' {
        '\r'
    } else if c == 't' {
        '\t'
    } else {
        c
    }
}

/// The text of a double-quoted scalar's inside, `escaped` telling whether a
/// backslash came just before `s`; a lone trailing backslash is kept.
pub open spec fn spec_double_quoted(s: Seq<char>, escaped: bool) -> Seq<char>
    decreases s.len(),
{
    if s.len() == 0 {
        if escaped {
            seq!['\\']
        } else {
            Seq::empty()
        }
    } else if escaped {
        seq![spec_escaped_char(s[0])] + spec_double_quoted(s.skip(1), false)
    } else if s[0] == '\\' {
        spec_double_quoted(s.skip(1), true)
    } else {
        seq![s[0]] + spec_double_quoted(s.skip(1), false)
    }
}

/// The value of a one-line YAML scalar: single- or double-quoted text, or
/// plain text up to a ` #` comment, trimmed.
pub open spec fn spec_parse_yaml_scalar(value: Seq<char>) -> Seq<char> {
    let v = spec_trim(value);
    if v.len() >= 2 && v[0] == '\'' && v.last() == '\'' {
        spec_single_quoted(v.subrange(1, v.len() - 1))
    } else if v.len() >= 2 && v[0] == '"' && v.last() == '"' {
        spec_double_quoted(v.subrange(1, v.len() - 1), false)
    } else {
        let w = match crate::text::spec_find(v, " #"@) {
            Some(i) => v.take(i),
            None => v,
        };
        spec_trim(w)
    }
}

fn single_quoted(s: &[char]) -> (r: Vec<char>)
    ensures
        r@ == spec_single_quoted(s@),
{
    let mut out: Vec<char> = Vec::new();
    let mut i: usize = 0;
    assert(s@.skip(0) == s@);
    while i < s.len()
        invariant
            i <= s.len(),
            out@ + spec_single_quoted(s@.skip(i as int)) == spec_single_quoted(s@),
        decreases s.len() - i,
    {
        let ghost rest = s@.skip(i as int);
        if i + 1 < s.len() && s[i] == '\'' && s[i + 1] == '\'' {
            assert(rest.skip(2) == s@.skip(i + 2));
            out.push('\'');
            assert(out@ + spec_single_quoted(s@.skip(i + 2)) == spec_single_quoted(s@));
            i = i + 2;
        } else {
            assert(rest.skip(1) == s@.skip(i + 1));
            out.push(s[i]);
            assert(out@ + spec_single_quoted(s@.skip(i + 1)) == spec_single_quoted(s@));
            i = i + 1;
        }
    }
    assert(out@ + spec_single_quoted(s@.skip(i as int)) == out@);
    out
}

fn double_quoted(s: &[char]) -> (r: Vec<char>)
    ensures
        r@ == spec_double_quoted(s@, false),
{
    let mut out: Vec<char> = Vec::new();
    let mut escaped = false;
    let mut i: usize = 0;
    assert(s@.skip(0) == s@);
    while i < s.len()
        invariant
            i <= s.len(),
            out@ + spec_double_quoted(s@.skip(i as int), escaped) == spec_double_quoted(s@, false),
        decreases s.len() - i,
    {
        let ghost rest = s@.skip(i as int);
        assert(rest.skip(1) == s@.skip(i + 1));
        let c = s[i];
        if escaped {
            let mapped = if c == 'n' {
                '\n'
            } else if c == 'r' {
                '\r'
            } else if c == 't' {
                '\t'
            } else {
                c
            };
            out.push(mapped);
            escaped = false;
        } else if c == '\\' {
            escaped = true;
        } else {
            out.push(c);
        }
        i = i + 1;
    }
    if escaped {
        out.push('\\');
    }
    out
}

pub fn parse_yaml_scalar_chars(value: &[char]) -> (r: Vec<char>)
    ensures
        r@ == spec_parse_yaml_scalar(value@),
{
    let v = trim(value);
    let n = v.len();
    if n >= 2 && v[0] == '\'' && v[n - 1] == '\'' {
        return single_quoted(&sub_chars(&v, 1, n - 1));
    }
    if n >= 2 && v[0] == '"' && v[n - 1] == '"' {
        return double_quoted(&sub_chars(&v, 1, n - 1));
    }
    let comment = [' ', '#'];
    assert(comment@ == " #"@) by {
        reveal_strlit(" #");
    }
    let w = match crate::text::find(&v, comment.as_slice()) {
        Some(i) => {
            proof {
                crate::text::lemma_find_in_range(v@, comment@);
            }
            sub_chars(&v, 0, i)
        },
        None => sub_chars(&v, 0, n),
    };
    assert(v@.subrange(0, n as int) == v@);
    trim(&w)
}

/// The value of a one-line YAML scalar: single- or double-quoted text, or
/// plain text up to a ` #` comment, trimmed.
pub fn parse_yaml_scalar(value: &str) -> (r: String)
    ensures
        r@ == spec_parse_yaml_scalar(value@),
{
    string_of(&parse_yaml_scalar_chars(&chars_of(value)))
}

} // verus!

verus! {

// ---------------------------------------------------------------------------
// Inline lists
// ---------------------------------------------------------------------------

/// The values of an inline list's inside from index `i` on, the current value
/// starting at `start`; commas inside quotes do not separate values, and a
/// backslash inside double quotes escapes the next character.
pub open spec fn spec_inline_values_from(
    inner: Seq<char>,
    i: int,
    start: int,
    quote: Option<char>,
    escaped: bool,
) -> Seq<Seq<char>>
    decreases inner.len() - i,
{
    if i < 0 || i >= inner.len() {
        seq![spec_parse_yaml_scalar(spec_trim(inner.subrange(start, inner.len() as int)))]
    } else {
        let c = inner[i];
        if escaped {
            spec_inline_values_from(inner, i + 1, start, quote, false)
        } else if c == '\\' && quote == Some('"') {
            spec_inline_values_from(inner, i + 1, start, quote, true)
        } else if c == '\'' || c == '"' {
            let next = if quote == Some(c) {
                None
            } else if quote is None {
                Some(c)
            } else {
                quote
            };
            spec_inline_values_from(inner, i + 1, start, next, false)
        } else if c == ',' && quote is None {
            seq![spec_parse_yaml_scalar(spec_trim(inner.subrange(start, i)))]
                + spec_inline_values_from(inner, i + 1, i + 1, quote, false)
        } else {
            spec_inline_values_from(inner, i + 1, start, quote, false)
        }
    }
}

/// The values of an inline YAML list such as `[a, 'b c', "d"]`: the text
/// between the first character and the last `]`, split at unquoted commas,
/// each read as a scalar. Without a `]` the whole value is one scalar.
pub open spec fn spec_parse_inline_yaml_list(value: Seq<char>) -> Seq<Seq<char>> {
    let end = spec_last_index_of(value, ']');
    if end < 0 {
        seq![spec_parse_yaml_scalar(value)]
    } else {
        spec_inline_values_from(value.subrange(1, end), 0, 0, None, false)
    }
}

/// The list's text must start one byte in: either there is no `]`, or the
/// last `]` comes after a one-byte first character.
pub open spec fn inline_list_slice_ok(value: Seq<char>) -> bool {
    spec_last_index_of(value, ']') < 0 || (spec_last_index_of(value, ']') >= 1 && (value[0] as u32)
        < 0x80)
}

pub open spec fn strings_view(v: Seq<String>) -> Seq<Seq<char>> {
    v.map_values(|s: String| s@)
}

pub fn parse_inline_yaml_list_chars(value: &[char]) -> (r: Vec<Vec<char>>)
    requires
        inline_list_slice_ok(value@),
    ensures
        deep_chars(r@) == spec_parse_inline_yaml_list(value@),
{
    proof {
        crate::text::lemma_last_index_of(value@, ']');
    }
    let end = match crate::text::last_index_of(value, ']') {
        None => {
            let mut r: Vec<Vec<char>> = Vec::new();
            r.push(parse_yaml_scalar_chars(value));
            assert(deep_chars(r@) == seq![spec_parse_yaml_scalar(value@)]);
            return r;
        },
        Some(e) => e,
    };
    let inner = sub_chars(value, 1, end);
    let mut values: Vec<Vec<char>> = Vec::new();
    let mut start: usize = 0;
    let mut quote: Option<char> = None;
    let mut escaped = false;
    let mut i: usize = 0;
    while i < inner.len()
        invariant
            i <= inner.len(),
            start <= i,
            deep_chars(values@) + spec_inline_values_from(inner@, i as int, start as int, quote, escaped)
                == spec_inline_values_from(inner@, 0, 0, None, false),
        decreases inner.len() - i,
    {
        let c = inner[i];
        if escaped {
            escaped = false;
        } else if c == '\\' && quote == Some('"') {
            escaped = true;
        } else if c == '\'' || c == '"' {
            if quote == Some(c) {
                quote = None;
            } else if quote.is_none() {
                quote = Some(c);
            }
        } else if c == ',' && quote.is_none() {
            let piece = trim(&sub_chars(&inner, start, i));
            let ghost before = deep_chars(values@);
            values.push(parse_yaml_scalar_chars(&piece));
            assert(deep_chars(values@) == before + seq![spec_parse_yaml_scalar(piece@)]);
            assert(before + spec_inline_values_from(inner@, i as int, start as int, quote, escaped)
                == deep_chars(values@) + spec_inline_values_from(inner@, i + 1, i + 1, quote, false));
            start = i + 1;
        }
        i = i + 1;
    }
    let piece = trim(&sub_chars(&inner, start, inner.len()));
    let ghost before = deep_chars(values@);
    values.push(parse_yaml_scalar_chars(&piece));
    assert(deep_chars(values@) == before + seq![spec_parse_yaml_scalar(piece@)]);
    values
}

/// The values of an inline YAML list such as `[a, 'b c', "d"]`.
pub fn parse_inline_yaml_list(value: &str) -> (r: Vec<String>)
    requires
        inline_list_slice_ok(value@),
    ensures
        strings_view(r@) == spec_parse_inline_yaml_list(value@),
{
    let values = parse_inline_yaml_list_chars(&chars_of(value));
    let mut r: Vec<String> = Vec::new();
    let mut i: usize = 0;
    while i < values.len()
        invariant
            i <= values.len(),
            strings_view(r@) == deep_chars(values@).take(i as int),
        decreases values.len() - i,
    {
        r.push(string_of(&values[i]));
        assert(strings_view(r@) == deep_chars(values@).take(i as int + 1));
        i = i + 1;
    }
    assert(deep_chars(values@).take(values.len() as int) == deep_chars(values@));
    r
}

// ---------------------------------------------------------------------------
// Tags
// ---------------------------------------------------------------------------

/// A tag as stored: trimmed, without leading `#`, trimmed again.
pub open spec fn spec_clean_tag(tag: Seq<char>) -> Seq<char> {
    spec_trim(spec_trim_start_in(spec_trim(tag), seq!['#']))
}

/// The tag list after adding `tag`: unchanged when the cleaned tag is empty
/// or already listed.
pub open spec fn spec_push_tag(tags: Seq<Seq<char>>, tag: Seq<char>) -> Seq<Seq<char>> {
    let t = spec_clean_tag(tag);
    if t.len() == 0 || tags.contains(t) {
        tags
    } else {
        tags.push(t)
    }
}

/// The tag list after adding each of `list` in order.
pub open spec fn spec_push_tags(tags: Seq<Seq<char>>, list: Seq<Seq<char>>) -> Seq<Seq<char>>
    decreases list.len(),
{
    if list.len() == 0 {
        tags
    } else {
        spec_push_tag(spec_push_tags(tags, list.drop_last()), list.last())
    }
}

pub fn clean_tag(tag: &[char]) -> (r: Vec<char>)
    ensures
        r@ == spec_clean_tag(tag@),
{
    let hash = ['#'];
    assert(hash@ == seq!['#']);
    trim(&trim_start_in(&trim(tag), hash.as_slice()))
}

fn contains_string(tags: &Vec<String>, t: &[char]) -> (r: bool)
    ensures
        r == strings_view(tags@).contains(t@),
{
    let mut i: usize = 0;
    while i < tags.len()
        invariant
            i <= tags.len(),
            forall|j: int| 0 <= j < i ==> strings_view(tags@)[j] != t@,
        decreases tags.len() - i,
    {
        if chars_eq(&chars_of(tags[i].as_str()), t) {
            assert(strings_view(tags@)[i as int] == t@);
            return true;
        }
        i = i + 1;
    }
    false
}

/// Adds a tag, cleaned of surrounding space and leading `#`, unless it is
/// empty or already present.
pub fn push_tag(tags: &mut Vec<String>, tag: String)
    ensures
        strings_view(final(tags)@) == spec_push_tag(strings_view(old(tags)@), tag@),
{
    let t = clean_tag(&chars_of(tag.as_str()));
    if t.len() == 0 || contains_string(tags, &t) {
        return;
    }
    let ghost before = strings_view(tags@);
    tags.push(string_of(&t));
    assert(strings_view(tags@) == before.push(t@));
}

/// Adding tags never lists one twice, nor an empty one.
pub proof fn lemma_push_tag_keeps_distinct(tags: Seq<Seq<char>>, tag: Seq<char>)
    requires
        tags.no_duplicates(),
        forall|i: int| 0 <= i < tags.len() ==> #[trigger] tags[i].len() > 0,
    ensures
        spec_push_tag(tags, tag).no_duplicates(),
        forall|i: int|
            0 <= i < spec_push_tag(tags, tag).len() ==> #[trigger] spec_push_tag(tags, tag)[i].len()
                > 0,
{
    let t = spec_clean_tag(tag);
    if !(t.len() == 0 || tags.contains(t)) {
        let r = tags.push(t);
        assert forall|i: int, j: int| 0 <= i < j < r.len() implies r[i] != r[j] by {
            if j == tags.len() {
                assert(tags.contains(tags[i]));
            }
        }
        assert forall|i: int| 0 <= i < r.len() implies #[trigger] r[i].len() > 0 by {
            if i < tags.len() {
                assert(r[i] == tags[i]);
            }
        }
    }
}

// ---------------------------------------------------------------------------
// Writing frontmatter
// ---------------------------------------------------------------------------

/// How one character is written inside a double-quoted YAML scalar.
pub open spec fn spec_escape_char(c: char) -> Seq<char> {
    if c == '\\' {
        seq!['\\', '\\']
    } else if c == '"' {
        seq!['\\', '"']
    } else if c == '\n' {
        seq!['\\', 'n']
    } else if c == '\r' {
        seq!['\\', 'r']
    } else if c == '\t' {
        seq!['\\', 't']
    } else if crate::text::spec_is_control(c) {
        seq![' ']
    } else {
        seq![c]
    }
}

/// `value` written for a double-quoted YAML scalar.
pub open spec fn spec_escape_yaml_double_quoted(value: Seq<char>) -> Seq<char>
    decreases value.len(),
{
    if value.len() == 0 {
        Seq::empty()
    } else {
        spec_escape_yaml_double_quoted(value.drop_last()) + spec_escape_char(value.last())
    }
}

pub fn escape_yaml_double_quoted_chars(value: &[char]) -> (r: Vec<char>)
    ensures
        r@ == spec_escape_yaml_double_quoted(value@),
{
    let mut out: Vec<char> = Vec::new();
    let mut i: usize = 0;
    while i < value.len()
        invariant
            i <= value.len(),
            out@ == spec_escape_yaml_double_quoted(value@.take(i as int)),
        decreases value.len() - i,
    {
        assert(value@.take(i as int + 1).drop_last() == value@.take(i as int));
        let c = value[i];
        let ghost before = out@;
        if c == '\\' {
            out.push('\\');
            out.push('\\');
        } else if c == '"' {
            out.push('\\');
            out.push('"');
        } else if c == '\n' {
            out.push('\\');
            out.push('n');
        } else if c == '\r' {
            out.push('\\');
            out.push('r');
        } else if c == '\t' {
            out.push('\\');
            out.push('t');
        } else if crate::text::is_control(c) {
            out.push(' ');
        } else {
            out.push(c);
        }
        assert(out@ == before + spec_escape_char(c));
        i = i + 1;
    }
    assert(value@.take(value.len() as int) == value@);
    out
}

/// `value` written for a double-quoted YAML scalar: backslash, quote and the
/// line and tab controls escaped, other control characters made spaces.
pub fn escape_yaml_double_quoted(value: &str) -> (r: String)
    ensures
        r@ == spec_escape_yaml_double_quoted(value@),
{
    string_of(&escape_yaml_double_quoted_chars(&chars_of(value)))
}

/// The `tags:` entries, one line each.
pub open spec fn spec_tag_lines(tags: Seq<Seq<char>>) -> Seq<char>
    decreases tags.len(),
{
    if tags.len() == 0 {
        Seq::empty()
    } else {
        spec_tag_lines(tags.drop_last()) + "  - \""@ + spec_escape_yaml_double_quoted(tags.last())
            + "\"\n"@
    }
}

/// The Markdown that an exported note is written as: the content itself when
/// it already opens with frontmatter, else frontmatter with the title (or
/// `Untitled`) and the cleaned, distinct tags, then a blank line and the content.
pub open spec fn spec_render_note_markdown(
    title: Seq<char>,
    tags: Seq<Seq<char>>,
    content: Seq<char>,
) -> Seq<char> {
    if spec_frontmatter_body(content) is Some {
        content
    } else {
        let t = if spec_trim(title).len() == 0 {
            "Untitled"@
        } else {
            spec_trim(title)
        };
        let normalized = spec_push_tags(Seq::empty(), tags);
        "---\ntitle: \""@ + spec_escape_yaml_double_quoted(t) + "\"\n"@ + (if normalized.len()
            == 0 {
            Seq::empty()
        } else {
            "tags:\n"@ + spec_tag_lines(normalized)
        }) + "---\n"@ + (if content.len() == 0 {
            Seq::empty()
        } else {
            "\n"@ + content
        })
    }
}

/// The Markdown that an exported note is written as.
pub fn render_note_markdown(title: &str, tags: &[String], content: &str) -> (r: String)
    ensures
        r@ == spec_render_note_markdown(title@, strings_view(tags@), content@),
{
    let content_chars = chars_of(content);
    if frontmatter_body_chars(&content_chars).is_some() {
        return owned_copy(content);
    }
    let trimmed = trim(&chars_of(title));
    let t = if trimmed.len() == 0 {
        chars_of("Untitled")
    } else {
        trimmed
    };
    let mut normalized: Vec<String> = Vec::new();
    let mut i: usize = 0;
    while i < tags.len()
        invariant
            i <= tags.len(),
            strings_view(normalized@) == spec_push_tags(
                Seq::empty(),
                strings_view(tags@).take(i as int),
            ),
        decreases tags.len() - i,
    {
        assert(strings_view(tags@).take(i as int + 1).drop_last() == strings_view(tags@).take(
            i as int,
        ));
        push_tag(&mut normalized, tags[i].clone());
        i = i + 1;
    }
    assert(strings_view(tags@).take(tags.len() as int) == strings_view(tags@));
    let mut out = chars_of("---\ntitle: \"");
    extend_chars(&mut out, &escape_yaml_double_quoted_chars(&t));
    extend_chars(&mut out, &chars_of("\"\n"));
    let ghost head = out@;
    if normalized.len() > 0 {
        extend_chars(&mut out, &chars_of("tags:\n"));
        let ghost tag_head = out@;
        let mut k: usize = 0;
        while k < normalized.len()
            invariant
                k <= normalized.len(),
                out@ == tag_head + spec_tag_lines(strings_view(normalized@).take(k as int)),
            decreases normalized.len() - k,
        {
            assert(strings_view(normalized@).take(k as int + 1).drop_last() == strings_view(
                normalized@,
            ).take(k as int));
            extend_chars(&mut out, &chars_of("  - \""));
            extend_chars(
                &mut out,
                &escape_yaml_double_quoted_chars(&chars_of(normalized[k].as_str())),
            );
            extend_chars(&mut out, &chars_of("\"\n"));
            k = k + 1;
        }
        assert(strings_view(normalized@).take(normalized.len() as int) == strings_view(
            normalized@,
        ));
    }
    let ghost middle = out@;
    extend_chars(&mut out, &chars_of("---\n"));
    if content_chars.len() > 0 {
        extend_chars(&mut out, &chars_of("\n"));
        extend_chars(&mut out, &content_chars);
    }
    string_of(&out)
}

fn owned_copy(s: &str) -> (r: String)
    ensures
        r@ == s@,
{
    crate::text::owned(s)
}

} // verus!

verus! {

// ---------------------------------------------------------------------------
// Reading frontmatter
// ---------------------------------------------------------------------------

/// The title and tags that a note's frontmatter declares.
#[derive(Debug, Default, PartialEq, Eq)]
pub struct BasicFrontmatter {
    pub title: Option<String>,
    pub tags: Vec<String>,
}

/// A line as `str::lines` yields it: without a final `\n`, and without a `\r`
/// just before that `\n`.
pub open spec fn spec_strip_line(l: Seq<char>) -> Seq<char> {
    if l.len() > 0 && l.last() == '\n' {
        let a = l.drop_last();
        if a.len() > 0 && a.last() == '\r' {
            a.drop_last()
        } else {
            a
        }
    } else {
        l
    }
}

/// The lines of `s`, as `str::lines` yields them.
pub open spec fn spec_lines(s: Seq<char>) -> Seq<Seq<char>> {
    spec_split_inclusive(s).map_values(|l: Seq<char>| spec_strip_line(l))
}

/// The reader's state: the title so far, the tags so far, and whether the
/// lines that follow may be entries of a `tags:` block list.
pub struct FrontmatterState {
    pub title: Option<Seq<char>>,
    pub tags: Seq<Seq<char>>,
    pub reading_tag_list: bool,
}

pub open spec fn spec_is_indented(raw: Seq<char>) -> bool {
    raw.len() > 0 && (raw[0] == ' ' || raw[0] == '\t')
}

/// How one frontmatter line changes the reader's state. Blank lines and `#`
/// comments change nothing; indented `- value` lines after `tags:` add a tag;
/// `title:` sets a non-empty title; `tags:` takes an inline list, a single
/// value, or (when empty) opens a block list; other keys are ignored.
pub open spec fn spec_frontmatter_step(st: FrontmatterState, raw: Seq<char>) -> FrontmatterState {
    let trimmed = spec_trim(raw);
    if trimmed.len() == 0 || trimmed[0] == '#' {
        st
    } else if st.reading_tag_list && spec_is_indented(raw) {
        if trimmed[0] == '-' {
            FrontmatterState {
                tags: spec_push_tag(
                    st.tags,
                    spec_parse_yaml_scalar(spec_trim(trimmed.skip(1))),
                ),
                ..st
            }
        } else {
            st
        }
    } else if spec_is_indented(raw) {
        FrontmatterState { reading_tag_list: false, ..st }
    } else {
        let colon = crate::text::spec_first_index(raw, ':');
        if colon >= raw.len() {
            FrontmatterState { reading_tag_list: false, ..st }
        } else {
            let key = spec_trim(raw.take(colon));
            let value = raw.skip(colon + 1);
            if crate::text::spec_eq_ignore_ascii_case(key, "title"@) {
                let t = spec_parse_yaml_scalar(spec_trim(value));
                FrontmatterState {
                    title: if t.len() > 0 {
                        Some(t)
                    } else {
                        st.title
                    },
                    reading_tag_list: false,
                    ..st
                }
            } else if crate::text::spec_eq_ignore_ascii_case(key, "tags"@) {
                let v = spec_trim(value);
                if v.len() == 0 {
                    FrontmatterState { reading_tag_list: true, ..st }
                } else if v[0] == '[' {
                    FrontmatterState {
                        tags: spec_push_tags(st.tags, spec_parse_inline_yaml_list(v)),
                        reading_tag_list: false,
                        ..st
                    }
                } else {
                    FrontmatterState {
                        tags: spec_push_tag(st.tags, spec_parse_yaml_scalar(v)),
                        reading_tag_list: false,
                        ..st
                    }
                }
            } else {
                FrontmatterState { reading_tag_list: false, ..st }
            }
        }
    }
}

pub open spec fn spec_frontmatter_start() -> FrontmatterState {
    FrontmatterState { title: None, tags: Seq::empty(), reading_tag_list: false }
}

/// The reader's state after the first `n` lines.
pub open spec fn spec_frontmatter_fold(lines: Seq<Seq<char>>, n: int) -> FrontmatterState
    decreases n,
{
    if n <= 0 {
        spec_frontmatter_start()
    } else {
        spec_frontmatter_step(spec_frontmatter_fold(lines, n - 1), lines[n - 1])
    }
}

/// The title and tags that a note's frontmatter declares; none without frontmatter.
pub open spec fn spec_parse_basic_frontmatter(content: Seq<char>) -> (Option<Seq<char>>, Seq<
    Seq<char>,
>) {
    match spec_frontmatter_body(content) {
        None => (None, Seq::empty()),
        Some(body) => {
            let lines = spec_lines(body);
            let st = spec_frontmatter_fold(lines, lines.len() as int);
            (st.title, st.tags)
        },
    }
}

pub open spec fn view_opt_string(o: Option<String>) -> Option<Seq<char>> {
    match o {
        Some(s) => Some(s@),
        None => None,
    }
}

fn strip_line(l: &[char]) -> (r: Vec<char>)
    ensures
        r@ == spec_strip_line(l@),
{
    if l.len() > 0 && l[l.len() - 1] == '\n' {
        let a = sub_chars(l, 0, l.len() - 1);
        assert(a@ == l@.drop_last());
        if a.len() > 0 && a[a.len() - 1] == '\r' {
            let b = sub_chars(&a, 0, a.len() - 1);
            assert(b@ == a@.drop_last());
            b
        } else {
            a
        }
    } else {
        let r = sub_chars(l, 0, l.len());
        assert(r@ == l@);
        r
    }
}

pub open spec fn state_of(title: Option<String>, tags: Seq<String>, reading: bool) -> FrontmatterState {
    FrontmatterState { title: view_opt_string(title), tags: strings_view(tags), reading_tag_list: reading }
}

/// Adds the tags of a non-empty `tags:` value: an inline list or one scalar.
fn push_tags_value(tags: &mut Vec<String>, v: &[char])
    requires
        v@.len() > 0,
    ensures
        strings_view(final(tags)@) == if v@[0] == '[' {
            spec_push_tags(strings_view(old(tags)@), spec_parse_inline_yaml_list(v@))
        } else {
            spec_push_tag(strings_view(old(tags)@), spec_parse_yaml_scalar(v@))
        },
{
    if v[0] == '[' {
        proof {
            crate::text::lemma_last_index_of(v@, ']');
        }
        let list = parse_inline_yaml_list_chars(v);
        let ghost base = strings_view(tags@);
        let mut k: usize = 0;
        while k < list.len()
            invariant
                k <= list.len(),
                strings_view(tags@) == spec_push_tags(base, deep_chars(list@).take(k as int)),
            decreases list.len() - k,
        {
            assert(deep_chars(list@).take(k as int + 1).drop_last() == deep_chars(list@).take(
                k as int,
            ));
            push_tag(tags, string_of(&list[k]));
            k = k + 1;
        }
        assert(deep_chars(list@).take(list.len() as int) == deep_chars(list@));
    } else {
        let scalar = parse_yaml_scalar_chars(v);
        push_tag(tags, string_of(&scalar));
    }
}

/// Applies one frontmatter line to the reader's state.
fn frontmatter_step(
    title: &mut Option<String>,
    tags: &mut Vec<String>,
    reading_tag_list: &mut bool,
    raw: &[char],
)
    ensures
        state_of(*final(title), final(tags)@, *final(reading_tag_list)) == spec_frontmatter_step(
            state_of(*old(title), old(tags)@, *old(reading_tag_list)),
            raw@,
        ),
{
    let trimmed = trim(raw);
    let indented = raw.len() > 0 && (raw[0] == ' ' || raw[0] == '\t');
    if trimmed.len() == 0 || trimmed[0] == '#' {
        return;
    }
    if *reading_tag_list && indented {
        if trimmed[0] == '-' {
            let value = trim(&sub_chars(&trimmed, 1, trimmed.len()));
            assert(trimmed@.subrange(1, trimmed@.len() as int) == trimmed@.skip(1));
            let scalar = parse_yaml_scalar_chars(&value);
            push_tag(tags, string_of(&scalar));
        }
        return;
    }
    *reading_tag_list = false;
    if indented {
        return;
    }
    let colon = crate::text::first_index(raw, ':');
    if colon >= raw.len() {
        return;
    }
    let key = trim(&sub_chars(raw, 0, colon));
    let value = sub_chars(raw, colon + 1, raw.len());
    assert(raw@.subrange(colon + 1, raw@.len() as int) == raw@.skip(colon + 1));
    if crate::text::eq_ignore_ascii_case(&key, &chars_of("title")) {
        let t = parse_yaml_scalar_chars(&trim(&value));
        if t.len() > 0 {
            *title = Some(string_of(&t));
        }
    } else if crate::text::eq_ignore_ascii_case(&key, &chars_of("tags")) {
        let v = trim(&value);
        if v.len() == 0 {
            *reading_tag_list = true;
        } else {
            push_tags_value(tags, &v);
        }
    }
}

/// Reads the title and tags of a note's frontmatter without changing the note.
pub fn parse_basic_frontmatter(content: &str) -> (r: BasicFrontmatter)
    ensures
        (view_opt_string(r.title), strings_view(r.tags@)) == spec_parse_basic_frontmatter(content@),
{
    let body = match frontmatter_body_chars(&chars_of(content)) {
        None => {
            let r = BasicFrontmatter { title: None, tags: Vec::new() };
            assert(strings_view(r.tags@) == Seq::<Seq<char>>::empty());
            return r;
        },
        Some(b) => b,
    };
    let pieces = split_inclusive_lines(&body);
    let ghost lines = spec_lines(body@);
    let mut title: Option<String> = None;
    let mut tags: Vec<String> = Vec::new();
    let mut reading_tag_list = false;
    assert(strings_view(tags@) == Seq::<Seq<char>>::empty());
    let mut i: usize = 0;
    while i < pieces.len()
        invariant
            i <= pieces.len(),
            lines.len() == pieces.len(),
            deep_chars(pieces@) == spec_split_inclusive(body@),
            lines == spec_lines(body@),
            spec_frontmatter_fold(lines, i as int) == state_of(title, tags@, reading_tag_list),
        decreases pieces.len() - i,
    {
        let raw = strip_line(&pieces[i]);
        assert(pieces[i as int]@ == deep_chars(pieces@)[i as int]);
        assert(raw@ == lines[i as int]);
        frontmatter_step(&mut title, &mut tags, &mut reading_tag_list, &raw);
        i = i + 1;
    }
    BasicFrontmatter { title, tags }
}


// ---------------------------------------------------------------------------
// Rendering twice
// ---------------------------------------------------------------------------

/// Splitting after a complete line splits the two parts on their own.
pub proof fn lemma_split_inclusive_concat(a: Seq<char>, b: Seq<char>)
    requires
        a.len() == 0 || a.last() == '\n',
    ensures
        spec_split_inclusive(a + b) == spec_split_inclusive(a) + spec_split_inclusive(b),
    decreases b.len(),
{
    if a.len() == 0 {
        assert(a + b =~= b);
        assert(spec_split_inclusive(a) =~= Seq::<Seq<char>>::empty());
        assert(spec_split_inclusive(a) + spec_split_inclusive(b) =~= spec_split_inclusive(b));
    } else if b.len() == 0 {
        assert(a + b =~= a);
        assert(spec_split_inclusive(b) =~= Seq::<Seq<char>>::empty());
        assert(spec_split_inclusive(a) + spec_split_inclusive(b) =~= spec_split_inclusive(a));
    } else {
        let b0 = b.drop_last();
        lemma_split_inclusive_concat(a, b0);
        assert((a + b).drop_last() =~= a + b0);
        assert((a + b).last() == b.last());
        lemma_split_inclusive_pieces_nonempty(a);
        let pa = spec_split_inclusive(a);
        let pb0 = spec_split_inclusive(b0);
        let pab0 = spec_split_inclusive(a + b0);
        assert(pa.len() > 0);
        assert(pa.last().len() > 0);
        assert(pa.last().last() == '\n') by {
            lemma_split_inclusive_last(a);
        }
        if pb0.len() == 0 {
            assert(pab0 =~= pa);
            assert(spec_split_inclusive(a + b) =~= pa.push(seq![b.last()]));
            assert(spec_split_inclusive(b) =~= pb0.push(seq![b.last()]));
            assert(pa + pb0.push(seq![b.last()]) =~= pa.push(seq![b.last()]));
        } else {
            assert(pab0.last() == pb0.last());
            if pb0.last().last() == '\n' {
                assert(spec_split_inclusive(a + b) =~= (pa + pb0).push(seq![b.last()]));
                assert(spec_split_inclusive(b) =~= pb0.push(seq![b.last()]));
                assert((pa + pb0).push(seq![b.last()]) =~= pa + pb0.push(seq![b.last()]));
            } else {
                let grown = pb0.last().push(b.last());
                assert(spec_split_inclusive(a + b) =~= (pa + pb0).update(pab0.len() - 1, grown));
                assert(spec_split_inclusive(b) =~= pb0.update(pb0.len() - 1, grown));
                assert((pa + pb0).update(pab0.len() - 1, grown) =~= pa + pb0.update(pb0.len() - 1, grown));
            }
        }
    }
}

/// The last piece of a text ends where the text ends.
pub proof fn lemma_split_inclusive_last(s: Seq<char>)
    requires
        s.len() > 0,
    ensures
        spec_split_inclusive(s).len() > 0,
        spec_split_inclusive(s).last().len() > 0,
        spec_split_inclusive(s).last().last() == s.last(),
    decreases s.len(),
{
    let p = spec_split_inclusive(s.drop_last());
    if s.len() > 1 {
        lemma_split_inclusive_last(s.drop_last());
    }
}

/// A closing fence at index `k` or later makes the search from `j` succeed.
pub proof fn lemma_closing_from_finds(lines: Seq<Seq<char>>, j: int, k: int)
    requires
        0 <= j <= k < lines.len(),
        is_closing_fence(lines[k]),
    ensures
        spec_closing_from(lines, j) is Some,
    decreases k - j,
{
    if !is_closing_fence(lines[j]) {
        lemma_closing_from_finds(lines, j + 1, k);
    }
}

/// A line of three dashes, ended by `\n`, is a fence.
pub proof fn lemma_dash_line_is_fence()
    ensures
        spec_split_inclusive("---\n"@) == seq!["---\n"@],
        is_fence("---\n"@),
        is_closing_fence("---\n"@),
{
    reveal_strlit("---\n");
    reveal_strlit("---");
    let d = "---\n"@;
    let s1 = seq!['-'];
    let s2 = seq!['-', '-'];
    let s3 = seq!['-', '-', '-'];
    assert(s1.drop_last() =~= Seq::<char>::empty());
    assert(spec_split_inclusive(Seq::<char>::empty()).len() == 0);
    assert(spec_split_inclusive(s1) == spec_split_inclusive(s1.drop_last()).push(seq![s1.last()]));
    assert(spec_split_inclusive(s1) =~= seq![s1]);
    assert(s2.drop_last() =~= s1);
    assert(s1.push('-') =~= s2);
    assert(spec_split_inclusive(s2) =~= seq![s2]);
    assert(s3.drop_last() =~= s2);
    assert(s2.push('-') =~= s3);
    assert(spec_split_inclusive(s3) =~= seq![s3]);
    assert(d.drop_last() =~= s3);
    assert(s3.push('\n') =~= d);
    assert(spec_split_inclusive(d) =~= seq![d]);
    assert(spec_trim_line_ending(d) =~= "---"@);
    assert(!crate::text::spec_is_white_space('-'));
    assert(crate::text::spec_trim_start("---"@) == "---"@);
    assert(crate::text::spec_trim_end("---"@) == "---"@);
}

/// A rendered note opens with frontmatter, so rendering it again, with any
/// title and tags, gives it back unchanged.
pub proof fn lemma_render_is_idempotent(
    title: Seq<char>,
    tags: Seq<Seq<char>>,
    content: Seq<char>,
    other_title: Seq<char>,
    other_tags: Seq<Seq<char>>,
)
    ensures
        spec_frontmatter_body(spec_render_note_markdown(title, tags, content)) is Some,
        spec_render_note_markdown(other_title, other_tags, spec_render_note_markdown(title, tags, content))
            == spec_render_note_markdown(title, tags, content),
{
    if spec_frontmatter_body(content) is None {
        let r = spec_render_note_markdown(title, tags, content);
        let t = if spec_trim(title).len() == 0 {
            "Untitled"@
        } else {
            spec_trim(title)
        };
        let normalized = spec_push_tags(Seq::empty(), tags);
        let fence = "---\n"@;
        let middle = "title: \""@ + spec_escape_yaml_double_quoted(t) + "\"\n"@ + (if normalized.len() == 0 {
            Seq::empty()
        } else {
            "tags:\n"@ + spec_tag_lines(normalized)
        });
        let rest = if content.len() == 0 {
            Seq::<char>::empty()
        } else {
            "\n"@ + content
        };
        reveal_strlit("---\n");
        reveal_strlit("---\ntitle: \"");
        reveal_strlit("title: \"");
        assert("---\ntitle: \""@ =~= fence + "title: \""@);
        assert(r =~= fence + middle + fence + rest);
        lemma_dash_line_is_fence();
        assert(spec_strip_bom(r) == r);
        reveal_strlit("\"\n");
        assert(middle.len() > 0);
        if normalized.len() == 0 {
            assert(middle.last() == '\n');
        } else {
            lemma_tag_lines_end(normalized);
        }
        lemma_split_inclusive_concat(fence, middle);
        assert((fence + middle).last() == '\n');
        lemma_split_inclusive_concat(fence + middle, fence);
        assert((fence + middle + fence).last() == '\n');
        lemma_split_inclusive_concat(fence + middle + fence, rest);
        let lines = spec_split_inclusive(r);
        let x = spec_split_inclusive(middle);
        assert(lines == seq![fence] + x + seq![fence] + spec_split_inclusive(rest));
        assert(lines[0] == fence);
        let k: int = 1 + x.len() as int;
        assert(lines[k] == fence);
        lemma_closing_from_finds(lines, 1, k);
    }
}

/// The `tags:` entries end with a line break.
proof fn lemma_tag_lines_end(tags: Seq<Seq<char>>)
    requires
        tags.len() > 0,
    ensures
        ("tags:\n"@ + spec_tag_lines(tags)).len() > 0,
        ("tags:\n"@ + spec_tag_lines(tags)).last() == '\n',
{
    reveal_strlit("\"\n");
    reveal_strlit("tags:\n");
}


// ---------------------------------------------------------------------------
// Quoting and reading back
// ---------------------------------------------------------------------------

/// Whether a character survives quoting for YAML unchanged: any but the
/// control characters, of which only line feed, carriage return and tab.
pub open spec fn spec_quotes_faithfully(c: char) -> bool {
    !crate::text::spec_is_control(c) || c == '\n' || c == '\r' || c == '\t'
}

/// Escaping two texts one after the other escapes their concatenation.
pub proof fn lemma_escape_concat(a: Seq<char>, b: Seq<char>)
    ensures
        spec_escape_yaml_double_quoted(a + b) == spec_escape_yaml_double_quoted(a) + spec_escape_yaml_double_quoted(b),
    decreases b.len(),
{
    if b.len() == 0 {
        assert(a + b =~= a);
        assert(spec_escape_yaml_double_quoted(a) + spec_escape_yaml_double_quoted(b) =~= spec_escape_yaml_double_quoted(a));
    } else {
        lemma_escape_concat(a, b.drop_last());
        assert((a + b).drop_last() =~= a + b.drop_last());
        assert((a + b).last() == b.last());
        let ea = spec_escape_yaml_double_quoted(a);
        let eb0 = spec_escape_yaml_double_quoted(b.drop_last());
        let ec = spec_escape_char(b.last());
        assert(ea + eb0 + ec =~= ea + (eb0 + ec));
    }
}

/// Reading back one escaped character gives the character.
proof fn lemma_unescape_char(c: char, rest: Seq<char>)
    requires
        spec_quotes_faithfully(c),
    ensures
        spec_double_quoted(spec_escape_char(c) + rest, false) == seq![c] + spec_double_quoted(rest, false),
{
    let e = spec_escape_char(c);
    let t = e + rest;
    if e.len() == 2 {
        assert(t[0] == '\\');
        let u = t.skip(1);
        assert(u =~= seq![e[1]] + rest);
        assert(u.skip(1) =~= rest);
        assert(u[0] == e[1]);
        assert(spec_escaped_char(e[1]) == c);
        assert(spec_double_quoted(t, false) == spec_double_quoted(u, true));
        assert(spec_double_quoted(u, true) == seq![spec_escaped_char(u[0])] + spec_double_quoted(u.skip(1), false));
    } else {
        assert(e == seq![c]);
        assert(t[0] == c);
        assert(c != '\\');
        assert(t.skip(1) =~= rest);
        assert(spec_double_quoted(t, false) == seq![t[0]] + spec_double_quoted(t.skip(1), false));
    }
}

/// Reading back an escaped text, followed by more, gives the text.
proof fn lemma_unescape(a: Seq<char>, rest: Seq<char>)
    requires
        forall|i: int| 0 <= i < a.len() ==> spec_quotes_faithfully(#[trigger] a[i]),
    ensures
        spec_double_quoted(spec_escape_yaml_double_quoted(a) + rest, false) == a + spec_double_quoted(rest, false),
    decreases a.len(),
{
    if a.len() == 0 {
        assert(spec_escape_yaml_double_quoted(a) + rest =~= rest);
        assert(a + spec_double_quoted(rest, false) =~= spec_double_quoted(rest, false));
    } else {
        let tail = a.skip(1);
        assert(a =~= seq![a[0]] + tail);
        lemma_escape_concat(seq![a[0]], tail);
        assert(seq![a[0]].drop_last() =~= Seq::<char>::empty());
        assert(spec_escape_yaml_double_quoted(Seq::<char>::empty()) =~= Seq::<char>::empty());
        assert(spec_escape_yaml_double_quoted(seq![a[0]]) =~= spec_escape_char(a[0]));
        assert forall|i: int| 0 <= i < tail.len() implies spec_quotes_faithfully(#[trigger] tail[i]) by {
            assert(tail[i] == a[i + 1]);
        }
        lemma_unescape(tail, rest);
        let et = spec_escape_yaml_double_quoted(tail);
        assert(spec_escape_yaml_double_quoted(a) + rest =~= spec_escape_char(a[0]) + (et + rest));
        lemma_unescape_char(a[0], et + rest);
        assert(seq![a[0]] + (tail + spec_double_quoted(rest, false)) =~= a + spec_double_quoted(rest, false));
    }
}

/// A text without control characters other than line feed, carriage return
/// and tab, escaped and put in double quotes, reads back as itself.
pub proof fn lemma_quoted_scalar_round_trip(value: Seq<char>)
    requires
        forall|i: int| 0 <= i < value.len() ==> spec_quotes_faithfully(#[trigger] value[i]),
    ensures
        spec_parse_yaml_scalar(seq!['"'] + spec_escape_yaml_double_quoted(value) + seq!['"']) == value,
{
    let e = spec_escape_yaml_double_quoted(value);
    let v = seq!['"'] + e + seq!['"'];
    assert(v[0] == '"');
    assert(v.last() == '"');
    assert(!crate::text::spec_is_white_space('"'));
    assert(crate::text::spec_trim_start(v) == v);
    assert(crate::text::spec_trim_end(v) == v);
    assert(v.subrange(1, v.len() - 1) =~= e);
    lemma_unescape(value, Seq::empty());
    assert(e + Seq::<char>::empty() =~= e);
    assert(value + Seq::<char>::empty() =~= value);
}

} // verus!
