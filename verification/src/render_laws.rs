//! What reading a written note gives back: the title and tags that
//! `render_note_markdown` writes are the ones `parse_basic_frontmatter`
//! reads.
use crate::frontmatter::{
    is_closing_fence, lemma_split_inclusive_concat, spec_closing_from, spec_concat, spec_escape_char,
    spec_escape_yaml_double_quoted, spec_split_inclusive, spec_tag_lines, spec_trim_line_ending,
    lemma_dash_line_is_fence, spec_frontmatter_body, spec_push_tags, spec_render_note_markdown, spec_strip_bom,
    lemma_quoted_scalar_round_trip, spec_parse_yaml_scalar, spec_quotes_faithfully, spec_frontmatter_step,
    spec_is_indented, spec_push_tag, FrontmatterState, spec_clean_tag, spec_frontmatter_fold, spec_frontmatter_start,
    spec_lines, spec_parse_basic_frontmatter, spec_strip_line,
};
use crate::text::spec_trim_start_in;
use crate::text::{spec_is_white_space, spec_trim, spec_trim_end, spec_trim_start};
use vstd::prelude::*;

verus! {

/// The line a rendered note gives its title.
pub open spec fn spec_title_line(title: Seq<char>) -> Seq<char> {
    "title: \""@ + spec_escape_yaml_double_quoted(title) + "\"\n"@
}

/// The line a rendered note gives one tag.
pub open spec fn spec_tag_line(tag: Seq<char>) -> Seq<char> {
    "  - \""@ + spec_escape_yaml_double_quoted(tag) + "\"\n"@
}

/// Escaping never writes a line feed.
proof fn lemma_escape_one_line(s: Seq<char>)
    ensures
        forall|i: int| 0 <= i < spec_escape_yaml_double_quoted(s).len() ==> #[trigger] spec_escape_yaml_double_quoted(s)[i] != '\n',
    decreases s.len(),
{
    if s.len() > 0 {
        lemma_escape_one_line(s.drop_last());
        let a = spec_escape_yaml_double_quoted(s.drop_last());
        let e = spec_escape_char(s.last());
        assert forall|i: int| 0 <= i < (a + e).len() implies #[trigger] (a + e)[i] != '\n' by {
            if i >= a.len() {
                assert((a + e)[i] == e[i - a.len()]);
            } else {
                assert((a + e)[i] == a[i]);
            }
        }
    }
}

/// A text without a line feed forms one piece.
proof fn lemma_split_no_newline(t: Seq<char>)
    requires
        t.len() > 0,
        forall|i: int| 0 <= i < t.len() ==> #[trigger] t[i] != '\n',
    ensures
        spec_split_inclusive(t) == seq![t],
    decreases t.len(),
{
    let d = t.drop_last();
    if d.len() == 0 {
        assert(spec_split_inclusive(d).len() == 0);
        assert(seq![t.last()] =~= t);
    } else {
        assert forall|i: int| 0 <= i < d.len() implies #[trigger] d[i] != '\n' by {
            assert(d[i] == t[i]);
        }
        lemma_split_no_newline(d);
        assert(d.last() == t[t.len() - 2]);
        assert(d.push(t.last()) =~= t);
        assert(seq![d].update(0, d.push(t.last())) =~= seq![t]);
    }
}

/// A line ended by its only line feed forms one piece.
proof fn lemma_split_one_line(s: Seq<char>)
    requires
        s.len() > 0,
        s.last() == '\n',
        forall|i: int| 0 <= i < s.len() - 1 ==> #[trigger] s[i] != '\n',
    ensures
        spec_split_inclusive(s) == seq![s],
{
    let d = s.drop_last();
    if d.len() == 0 {
        assert(spec_split_inclusive(d).len() == 0);
        assert(seq![s.last()] =~= s);
    } else {
        assert forall|i: int| 0 <= i < d.len() implies #[trigger] d[i] != '\n' by {
            assert(d[i] == s[i]);
        }
        lemma_split_no_newline(d);
        assert(d.push(s.last()) =~= s);
        assert(seq![d].update(0, d.push(s.last())) =~= seq![s]);
    }
}

/// A line of the form `head`, escaped text, `"` and a line feed, with a
/// `head` free of line feeds, forms one piece.
proof fn lemma_quoted_line_splits(head: Seq<char>, value: Seq<char>)
    requires
        forall|i: int| 0 <= i < head.len() ==> #[trigger] head[i] != '\n',
    ensures
        spec_split_inclusive(head + spec_escape_yaml_double_quoted(value) + "\"\n"@) == seq![
            head + spec_escape_yaml_double_quoted(value) + "\"\n"@,
        ],
{
    reveal_strlit("\"\n");
    let e = spec_escape_yaml_double_quoted(value);
    let s = head + e + "\"\n"@;
    lemma_escape_one_line(value);
    assert forall|i: int| 0 <= i < s.len() - 1 implies #[trigger] s[i] != '\n' by {
        if i < head.len() {
            assert(s[i] == head[i]);
        } else if i < head.len() + e.len() {
            assert(s[i] == e[i - head.len()]);
        } else {
            assert(s[i] == '"');
        }
    }
    lemma_split_one_line(s);
}

pub proof fn lemma_title_line_splits(title: Seq<char>)
    ensures
        spec_split_inclusive(spec_title_line(title)) == seq![spec_title_line(title)],
{
    reveal_strlit("title: \"");
    lemma_quoted_line_splits("title: \""@, title);
}

pub proof fn lemma_tag_line_splits(tag: Seq<char>)
    ensures
        spec_split_inclusive(spec_tag_line(tag)) == seq![spec_tag_line(tag)],
{
    reveal_strlit("  - \"");
    lemma_quoted_line_splits("  - \""@, tag);
}

/// The `tags:` entries split into one piece per tag.
pub proof fn lemma_tag_lines_split(tags: Seq<Seq<char>>)
    ensures
        spec_split_inclusive(spec_tag_lines(tags)) == tags.map_values(|t: Seq<char>| spec_tag_line(t)),
        spec_tag_lines(tags).len() == 0 || spec_tag_lines(tags).last() == '\n',
    decreases tags.len(),
{
    if tags.len() == 0 {
        assert(spec_split_inclusive(Seq::<char>::empty()).len() == 0);
        assert(tags.map_values(|t: Seq<char>| spec_tag_line(t)) =~= Seq::<Seq<char>>::empty());
    } else {
        let d = tags.drop_last();
        lemma_tag_lines_split(d);
        reveal_strlit("  - \"");
        reveal_strlit("\"\n");
        assert(spec_tag_lines(tags) =~= spec_tag_lines(d) + spec_tag_line(tags.last()));
        lemma_split_inclusive_concat(spec_tag_lines(d), spec_tag_line(tags.last()));
        lemma_tag_line_splits(tags.last());
        assert(tags.map_values(|t: Seq<char>| spec_tag_line(t)) =~= d.map_values(|t: Seq<char>| spec_tag_line(t)).push(
            spec_tag_line(tags.last()),
        ));
    }
}


/// Joining the pieces of a text gives the text back.
pub proof fn lemma_concat_split(s: Seq<char>)
    ensures
        spec_concat(spec_split_inclusive(s)) == s,
    decreases s.len(),
{
    if s.len() == 0 {
        assert(spec_split_inclusive(s).len() == 0);
        assert(spec_concat(Seq::<Seq<char>>::empty()) =~= s);
    } else {
        let d = s.drop_last();
        lemma_concat_split(d);
        let p = spec_split_inclusive(d);
        let q = spec_split_inclusive(s);
        if p.len() == 0 || p.last().last() == '\n' {
            assert(q == p.push(seq![s.last()]));
            assert(q.drop_last() =~= p);
            assert(spec_concat(q) =~= d + seq![s.last()]);
        } else {
            let grown = p.last().push(s.last());
            assert(q == p.update(p.len() - 1, grown));
            assert(q.drop_last() =~= p.drop_last());
            assert(spec_concat(p) == spec_concat(p.drop_last()) + p.last());
            assert(spec_concat(q) == spec_concat(p.drop_last()) + grown);
            assert(spec_concat(q) =~= d + seq![s.last()]);
        }
        assert(d + seq![s.last()] =~= s);
    }
}

/// The first closing fence at `j` or later is at `k` when there is one at
/// `k` and none before it.
pub proof fn lemma_closing_from_exact(lines: Seq<Seq<char>>, j: int, k: int)
    requires
        0 <= j <= k < lines.len(),
        is_closing_fence(lines[k]),
        forall|m: int| j <= m < k ==> !is_closing_fence(#[trigger] lines[m]),
    ensures
        spec_closing_from(lines, j) == Some(k),
    decreases k - j,
{
    if j < k {
        lemma_closing_from_exact(lines, j + 1, k);
    }
}

/// A line that, trimmed, is not three characters long closes nothing.
proof fn lemma_not_fence(line: Seq<char>)
    requires
        spec_trim(spec_trim_line_ending(line)).len() != 3,
    ensures
        !is_closing_fence(line),
{
    reveal_strlit("---");
    reveal_strlit("...");
}

/// Trimming leaves a text that starts and ends with a non-blank unchanged.
proof fn lemma_trim_keeps(s: Seq<char>)
    requires
        s.len() > 0,
        !spec_is_white_space(s[0]),
        !spec_is_white_space(s.last()),
    ensures
        spec_trim(s) == s,
{
}

pub proof fn lemma_title_line_not_fence(title: Seq<char>)
    ensures
        !is_closing_fence(spec_title_line(title)),
        spec_trim_line_ending(spec_title_line(title)) == "title: \""@ + spec_escape_yaml_double_quoted(title) + "\""@,
{
    reveal_strlit("title: \"");
    reveal_strlit("\"\n");
    reveal_strlit("\"");
    let l = spec_title_line(title);
    let body = "title: \""@ + spec_escape_yaml_double_quoted(title) + "\""@;
    assert(l =~= body.push('\n'));
    assert(l.drop_last() =~= body);
    assert(spec_trim_line_ending(l) == body);
    assert(body[0] == 't');
    assert(body.last() == '"');
    lemma_trim_keeps(body);
    lemma_not_fence(l);
}

pub proof fn lemma_tag_line_not_fence(tag: Seq<char>)
    ensures
        !is_closing_fence(spec_tag_line(tag)),
        spec_trim_line_ending(spec_tag_line(tag)) == "  - \""@ + spec_escape_yaml_double_quoted(tag) + "\""@,
{
    reveal_strlit("  - \"");
    reveal_strlit("\"\n");
    reveal_strlit("\"");
    let l = spec_tag_line(tag);
    let body = "  - \""@ + spec_escape_yaml_double_quoted(tag) + "\""@;
    assert(l =~= body.push('\n'));
    assert(l.drop_last() =~= body);
    assert(spec_trim_line_ending(l) == body);
    let rest = body.drop_first().drop_first();
    assert(body[0] == ' ');
    assert(body.drop_first()[0] == ' ');
    assert(rest[0] == '-');
    assert(spec_trim_start(body) == spec_trim_start(body.drop_first()));
    assert(spec_trim_start(body.drop_first()) == spec_trim_start(rest));
    assert(spec_trim_start(rest) == rest);
    assert(rest.last() == '"');
    assert(spec_trim_end(rest) == rest);
    assert(rest.len() >= 4);
    lemma_not_fence(l);
}

pub proof fn lemma_tags_header_not_fence()
    ensures
        !is_closing_fence("tags:\n"@),
        spec_split_inclusive("tags:\n"@) == seq!["tags:\n"@],
        spec_trim_line_ending("tags:\n"@) == "tags:"@,
{
    reveal_strlit("tags:\n");
    reveal_strlit("tags:");
    let l = "tags:\n"@;
    assert(l.drop_last() =~= "tags:"@);
    assert(spec_trim_line_ending(l) == "tags:"@);
    lemma_trim_keeps("tags:"@);
    lemma_not_fence(l);
    assert forall|i: int| 0 <= i < l.len() - 1 implies #[trigger] l[i] != '\n' by {}
    lemma_split_one_line(l);
}


/// The title a rendered note is given: the trimmed title, or `Untitled`.
pub open spec fn spec_rendered_title(title: Seq<char>) -> Seq<char> {
    if spec_trim(title).len() == 0 {
        "Untitled"@
    } else {
        spec_trim(title)
    }
}

/// The frontmatter lines of a rendered note, between its fences.
pub open spec fn spec_rendered_middle(title: Seq<char>, tags: Seq<Seq<char>>) -> Seq<char> {
    let normalized = spec_push_tags(Seq::empty(), tags);
    spec_title_line(spec_rendered_title(title)) + (if normalized.len() == 0 {
        Seq::empty()
    } else {
        "tags:\n"@ + spec_tag_lines(normalized)
    })
}

/// The pieces of the frontmatter lines of a rendered note: the title line,
/// then, when there are tags, the `tags:` line and one line per tag.
pub open spec fn spec_rendered_pieces(title: Seq<char>, tags: Seq<Seq<char>>) -> Seq<Seq<char>> {
    let normalized = spec_push_tags(Seq::empty(), tags);
    seq![spec_title_line(spec_rendered_title(title))] + (if normalized.len() == 0 {
        Seq::empty()
    } else {
        seq!["tags:\n"@] + normalized.map_values(|t: Seq<char>| spec_tag_line(t))
    })
}

pub proof fn lemma_rendered_pieces(title: Seq<char>, tags: Seq<Seq<char>>)
    ensures
        spec_split_inclusive(spec_rendered_middle(title, tags)) == spec_rendered_pieces(title, tags),
        forall|i: int| 0 <= i < spec_rendered_pieces(title, tags).len() ==> !is_closing_fence(
            #[trigger] spec_rendered_pieces(title, tags)[i],
        ),
        spec_rendered_middle(title, tags).len() > 0,
        spec_rendered_middle(title, tags).last() == '\n',
{
    let t = spec_rendered_title(title);
    let normalized = spec_push_tags(Seq::empty(), tags);
    let tl = spec_title_line(t);
    reveal_strlit("\"\n");
    reveal_strlit("tags:\n");
    lemma_title_line_splits(t);
    lemma_title_line_not_fence(t);
    assert(tl.last() == '\n');
    let pieces = spec_rendered_pieces(title, tags);
    if normalized.len() == 0 {
        assert(spec_rendered_middle(title, tags) =~= tl);
        assert(pieces =~= seq![tl]);
    } else {
        let tp = "tags:\n"@ + spec_tag_lines(normalized);
        lemma_tags_header_not_fence();
        lemma_tag_lines_split(normalized);
        lemma_split_inclusive_concat("tags:\n"@, spec_tag_lines(normalized));
        lemma_split_inclusive_concat(tl, tp);
        assert(spec_rendered_middle(title, tags) =~= tl + tp);
        let tag_pieces = normalized.map_values(|x: Seq<char>| spec_tag_line(x));
        assert(pieces =~= seq![tl] + (seq!["tags:\n"@] + tag_pieces));
        assert forall|i: int| 0 <= i < pieces.len() implies !is_closing_fence(#[trigger] pieces[i]) by {
            if i >= 2 {
                assert(pieces[i] == spec_tag_line(normalized[i - 2]));
                lemma_tag_line_not_fence(normalized[i - 2]);
            }
        }
        if spec_tag_lines(normalized).len() == 0 {
            assert(tp =~= "tags:\n"@);
        } else {
            assert(tp.last() == spec_tag_lines(normalized).last());
        }
    }
}

/// The frontmatter of a note rendered from content without frontmatter is
/// exactly its title and tag lines.
pub proof fn lemma_rendered_body(title: Seq<char>, tags: Seq<Seq<char>>, content: Seq<char>)
    requires
        spec_frontmatter_body(content) is None,
    ensures
        spec_frontmatter_body(spec_render_note_markdown(title, tags, content)) == Some(spec_rendered_middle(title, tags)),
{
    let r = spec_render_note_markdown(title, tags, content);
    let middle = spec_rendered_middle(title, tags);
    let fence = "---\n"@;
    let rest = if content.len() == 0 {
        Seq::<char>::empty()
    } else {
        "\n"@ + content
    };
    reveal_strlit("---\n");
    reveal_strlit("---\ntitle: \"");
    reveal_strlit("title: \"");
    reveal_strlit("\"\n");
    assert("---\ntitle: \""@ =~= fence + "title: \""@);
    assert(r =~= fence + middle + fence + rest);
    lemma_dash_line_is_fence();
    assert(spec_strip_bom(r) == r);
    lemma_rendered_pieces(title, tags);
    lemma_split_inclusive_concat(fence, middle);
    assert((fence + middle).last() == '\n');
    lemma_split_inclusive_concat(fence + middle, fence);
    assert((fence + middle + fence).last() == '\n');
    lemma_split_inclusive_concat(fence + middle + fence, rest);
    let lines = spec_split_inclusive(r);
    let x = spec_split_inclusive(middle);
    assert(lines == seq![fence] + x + seq![fence] + spec_split_inclusive(rest));
    let k: int = 1 + x.len() as int;
    assert(lines[k] == fence);
    assert forall|m: int| 1 <= m < k implies !is_closing_fence(#[trigger] lines[m]) by {
        assert(lines[m] == x[m - 1]);
    }
    lemma_closing_from_exact(lines, 1, k);
    assert(lines.subrange(1, k) =~= x);
    lemma_concat_split(middle);
}


/// Whether every character of a text survives quoting for YAML unchanged.
pub open spec fn spec_all_faithful(s: Seq<char>) -> bool {
    forall|i: int| 0 <= i < s.len() ==> spec_quotes_faithfully(#[trigger] s[i])
}

/// The text between a first character `open` and a last `"`, read back as
/// a quoted scalar, after `prefix` of blanks.
proof fn lemma_read_quoted_value(value: Seq<char>)
    requires
        spec_all_faithful(value),
    ensures
        spec_parse_yaml_scalar(spec_trim(" \""@ + spec_escape_yaml_double_quoted(value) + "\""@)) == value,
{
    reveal_strlit(" \"");
    reveal_strlit("\"");
    let q = seq!['"'] + spec_escape_yaml_double_quoted(value) + seq!['"'];
    let v = " \""@ + spec_escape_yaml_double_quoted(value) + "\""@;
    assert(v =~= seq![' '] + q);
    assert(v.drop_first() =~= q);
    assert(spec_is_white_space(' '));
    assert(spec_trim_start(v) == spec_trim_start(q));
    assert(spec_trim_start(q) == q);
    assert(spec_trim_end(q) == q);
    lemma_quoted_scalar_round_trip(value);
}

/// The stripped title line of a rendered note.
pub open spec fn spec_title_text(title: Seq<char>) -> Seq<char> {
    "title: \""@ + spec_escape_yaml_double_quoted(title) + "\""@
}

/// The stripped line of one tag of a rendered note.
pub open spec fn spec_tag_text(tag: Seq<char>) -> Seq<char> {
    "  - \""@ + spec_escape_yaml_double_quoted(tag) + "\""@
}

/// Reading a rendered title line sets the title.
proof fn lemma_step_title(st: FrontmatterState, title: Seq<char>)
    requires
        !st.reading_tag_list,
        title.len() > 0,
        spec_all_faithful(title),
    ensures
        spec_frontmatter_step(st, spec_title_text(title)) == (FrontmatterState {
            title: Some(title),
            reading_tag_list: false,
            ..st
        }),
{
    reveal_strlit("title: \"");
    reveal_strlit("\"");
    reveal_strlit("title");
    reveal_strlit(" \"");
    let raw = spec_title_text(title);
    let e = spec_escape_yaml_double_quoted(title);
    assert(raw[0] == 't');
    assert(raw.last() == '"');
    assert(!spec_is_white_space('t'));
    lemma_trim_keeps(raw);
    assert(!spec_is_indented(raw));
    crate::text::lemma_first_index_from(raw, ':', 0);
    assert(raw[5] == ':');
    assert(raw[0] != ':' && raw[1] != ':' && raw[2] != ':' && raw[3] != ':' && raw[4] != ':');
    let colon = crate::text::spec_first_index(raw, ':');
    assert(colon == 5);
    assert(raw.take(5) =~= "title"@);
    lemma_trim_keeps("title"@);
    assert(crate::text::spec_eq_ignore_ascii_case("title"@, "title"@));
    assert(raw.skip(6) =~= " \""@ + e + "\""@);
    lemma_read_quoted_value(title);
}

/// Reading the `tags:` line of a rendered note opens the tag list.
proof fn lemma_step_tags_header(st: FrontmatterState)
    requires
        !st.reading_tag_list,
    ensures
        spec_frontmatter_step(st, "tags:"@) == (FrontmatterState { reading_tag_list: true, ..st }),
{
    reveal_strlit("tags:");
    reveal_strlit("tags");
    reveal_strlit("title");
    let raw = "tags:"@;
    lemma_trim_keeps(raw);
    crate::text::lemma_first_index_from(raw, ':', 0);
    assert(raw[4] == ':');
    assert(raw[0] != ':' && raw[1] != ':' && raw[2] != ':' && raw[3] != ':');
    assert(crate::text::spec_first_index(raw, ':') == 4);
    assert(raw.take(4) =~= "tags"@);
    lemma_trim_keeps("tags"@);
    assert(!crate::text::spec_eq_ignore_ascii_case("tags"@, "title"@));
    assert(crate::text::spec_eq_ignore_ascii_case("tags"@, "tags"@));
    assert(raw.skip(5).len() == 0);
    assert(spec_trim(raw.skip(5)).len() == 0);
}

/// Reading a rendered tag line while the tag list is open adds the tag.
proof fn lemma_step_tag(st: FrontmatterState, tag: Seq<char>)
    requires
        st.reading_tag_list,
        spec_all_faithful(tag),
    ensures
        spec_frontmatter_step(st, spec_tag_text(tag)) == (FrontmatterState {
            tags: spec_push_tag(st.tags, tag),
            ..st
        }),
{
    reveal_strlit("  - \"");
    reveal_strlit("\"");
    reveal_strlit(" \"");
    let raw = spec_tag_text(tag);
    let e = spec_escape_yaml_double_quoted(tag);
    let rest = raw.drop_first().drop_first();
    assert(raw[0] == ' ');
    assert(raw.drop_first()[0] == ' ');
    assert(rest[0] == '-');
    assert(spec_trim_start(raw) == spec_trim_start(raw.drop_first()));
    assert(spec_trim_start(raw.drop_first()) == spec_trim_start(rest));
    assert(spec_trim_start(rest) == rest);
    assert(rest.last() == '"');
    assert(spec_trim_end(rest) == rest);
    assert(spec_trim(raw) == rest);
    assert(spec_is_indented(raw));
    assert(rest.skip(1) =~= " \""@ + e + "\""@);
    lemma_read_quoted_value(tag);
}


/// Trimming the start drops a prefix, and leaves a text that is empty or
/// starts with a non-blank.
proof fn lemma_trim_start_shape(s: Seq<char>)
    ensures
        spec_trim_start(s).len() <= s.len(),
        spec_trim_start(s) == s.skip(s.len() - spec_trim_start(s).len()),
        spec_trim_start(s).len() == 0 || !spec_is_white_space(spec_trim_start(s)[0]),
    decreases s.len(),
{
    if s.len() > 0 && spec_is_white_space(s[0]) {
        lemma_trim_start_shape(s.drop_first());
        let t = spec_trim_start(s.drop_first());
        assert(s.drop_first().skip(s.drop_first().len() - t.len()) =~= s.skip(s.len() - t.len()));
    } else {
        assert(s.skip(0) =~= s);
    }
}

/// Trimming the end drops a suffix, and leaves a text that is empty or
/// ends with a non-blank.
proof fn lemma_trim_end_shape(s: Seq<char>)
    ensures
        spec_trim_end(s).len() <= s.len(),
        spec_trim_end(s) == s.take(spec_trim_end(s).len() as int),
        spec_trim_end(s).len() == 0 || !spec_is_white_space(spec_trim_end(s).last()),
    decreases s.len(),
{
    if s.len() > 0 && spec_is_white_space(s.last()) {
        lemma_trim_end_shape(s.drop_last());
        let t = spec_trim_end(s.drop_last());
        assert(s.drop_last().take(t.len() as int) =~= s.take(t.len() as int));
    } else {
        assert(s.take(s.len() as int) =~= s);
    }
}

/// Trimming keeps only characters of the text, and trimming again changes
/// nothing.
proof fn lemma_trim_shape(s: Seq<char>)
    ensures
        forall|i: int| 0 <= i < spec_trim(s).len() ==> exists|j: int| 0 <= j < s.len() && #[trigger] spec_trim(s)[i] == s[j],
        spec_trim(spec_trim(s)) == spec_trim(s),
{
    lemma_trim_start_shape(s);
    let u = spec_trim_start(s);
    lemma_trim_end_shape(u);
    let v = spec_trim_end(u);
    let off = s.len() - u.len();
    assert forall|i: int| 0 <= i < v.len() implies exists|j: int| 0 <= j < s.len() && #[trigger] v[i] == s[j] by {
        assert(v[i] == u[i]);
        assert(u[i] == s[i + off]);
    }
    if v.len() > 0 {
        assert(v[0] == u[0]);
        lemma_trim_keeps(v);
    } else {
        assert(spec_trim_start(v) == v);
        assert(spec_trim_end(v) == v);
    }
}

/// A tag written without `#` and with characters that survive quoting is
/// stored as a text that stays the same when cleaned again, with such
/// characters only.
proof fn lemma_clean_plain_tag(tag: Seq<char>)
    requires
        spec_all_faithful(tag),
        forall|i: int| 0 <= i < tag.len() ==> #[trigger] tag[i] != '#',
    ensures
        spec_clean_tag(spec_clean_tag(tag)) == spec_clean_tag(tag),
        spec_all_faithful(spec_clean_tag(tag)),
        forall|i: int| 0 <= i < spec_clean_tag(tag).len() ==> #[trigger] spec_clean_tag(tag)[i] != '#',
{
    let t = spec_trim(tag);
    lemma_trim_shape(tag);
    assert forall|i: int| 0 <= i < t.len() implies #[trigger] t[i] != '#' && spec_quotes_faithfully(t[i]) by {
        let j = choose|j: int| 0 <= j < tag.len() && t[i] == tag[j];
    }
    assert(spec_trim_start_in(t, seq!['#']) == t) by {
        if t.len() > 0 {
            assert(!seq!['#'].contains(t[0]));
        }
    }
    assert(spec_clean_tag(tag) == spec_trim(t));
    assert(spec_trim(t) == t);
    assert(spec_trim_start_in(t, seq!['#']) == t) by {
        if t.len() > 0 {
            assert(!seq!['#'].contains(t[0]));
        }
    }
}

/// The stored tags of a rendered note: each non-empty, none twice, each
/// unchanged when cleaned again, and made of characters that survive
/// quoting.
proof fn lemma_normalized_tags(tags: Seq<Seq<char>>)
    requires
        forall|j: int| 0 <= j < tags.len() ==> spec_all_faithful(#[trigger] tags[j]),
        forall|j: int, i: int| 0 <= j < tags.len() && 0 <= i < tags[j].len() ==> #[trigger] tags[j][i] != '#',
    ensures
        forall|i: int| 0 <= i < spec_push_tags(Seq::empty(), tags).len() ==> {
            let n = #[trigger] spec_push_tags(Seq::empty(), tags)[i];
            &&& n.len() > 0
            &&& spec_clean_tag(n) == n
            &&& spec_all_faithful(n)
        },
        forall|i: int, j: int|
            0 <= i < j < spec_push_tags(Seq::empty(), tags).len() ==> #[trigger] spec_push_tags(Seq::empty(), tags)[i]
                != #[trigger] spec_push_tags(Seq::empty(), tags)[j],
    decreases tags.len(),
{
    if tags.len() > 0 {
        let d = tags.drop_last();
        assert forall|j: int| 0 <= j < d.len() implies spec_all_faithful(#[trigger] d[j]) by {
            assert(d[j] == tags[j]);
        }
        assert forall|j: int, i: int| 0 <= j < d.len() && 0 <= i < d[j].len() implies #[trigger] d[j][i] != '#' by {
            assert(d[j] == tags[j]);
        }
        lemma_normalized_tags(d);
        let last = tags.last();
        assert(last == tags[tags.len() - 1]);
        assert forall|i: int| 0 <= i < last.len() implies #[trigger] last[i] != '#' by {
            assert(tags[tags.len() - 1][i] != '#');
        }
        lemma_clean_plain_tag(last);
        let acc = spec_push_tags(Seq::empty(), d);
        let c = spec_clean_tag(last);
        assert(spec_push_tags(Seq::empty(), tags) == spec_push_tag(acc, last));
        if c.len() > 0 && !acc.contains(c) {
            let r = acc.push(c);
            assert(spec_push_tags(Seq::empty(), tags) == r);
            assert forall|i: int| 0 <= i < r.len() implies {
                let n = #[trigger] r[i];
                &&& n.len() > 0
                &&& spec_clean_tag(n) == n
                &&& spec_all_faithful(n)
            } by {
                if i < acc.len() {
                    assert(r[i] == acc[i]);
                }
            }
            assert forall|i: int, j: int| 0 <= i < j < r.len() implies #[trigger] r[i] != #[trigger] r[j] by {
                if j == acc.len() {
                    assert(r[i] == acc[i]);
                    assert(acc.contains(acc[i]));
                } else {
                    assert(r[i] == acc[i] && r[j] == acc[j]);
                }
            }
        }
    }
}

/// Reading the tag lines of a rendered note, with the tag list open, adds
/// the stored tags in order.
proof fn lemma_fold_tags(lines: Seq<Seq<char>>, start: int, st: FrontmatterState, nt: Seq<Seq<char>>, m: int)
    requires
        0 <= start,
        0 <= m <= nt.len(),
        start + nt.len() <= lines.len(),
        spec_frontmatter_fold(lines, start) == st,
        st.reading_tag_list,
        st.tags.len() == 0,
        forall|i: int| 0 <= i < nt.len() ==> lines[start + i] == spec_tag_text(#[trigger] nt[i]),
        forall|i: int| 0 <= i < nt.len() ==> {
            let n = #[trigger] nt[i];
            &&& n.len() > 0
            &&& spec_clean_tag(n) == n
            &&& spec_all_faithful(n)
        },
        forall|i: int, j: int| 0 <= i < j < nt.len() ==> #[trigger] nt[i] != #[trigger] nt[j],
    ensures
        spec_frontmatter_fold(lines, start + m) == (FrontmatterState { tags: nt.take(m), ..st }),
    decreases m,
{
    if m == 0 {
        assert(nt.take(0) =~= st.tags);
    } else {
        lemma_fold_tags(lines, start, st, nt, m - 1);
        let before = FrontmatterState { tags: nt.take(m - 1), ..st };
        assert(lines[start + m - 1] == spec_tag_text(nt[m - 1]));
        lemma_step_tag(before, nt[m - 1]);
        assert(!nt.take(m - 1).contains(nt[m - 1])) by {
            if nt.take(m - 1).contains(nt[m - 1]) {
                let k = choose|k: int| 0 <= k < nt.take(m - 1).len() && #[trigger] nt.take(m - 1)[k] == nt[m - 1];
                assert(nt[k] == nt[m - 1]);
            }
        }
        assert(nt.take(m - 1).push(nt[m - 1]) =~= nt.take(m));
    }
}

/// Reading a note written from a title and tags gives back the title it was
/// written with (the trimmed title, or `Untitled`) and its stored tags (the
/// cleaned tags, without empty ones and later repeats, in order), when the
/// content did not already open with frontmatter, the title and tags hold
/// only characters that survive quoting, and no tag holds `#`.
pub proof fn lemma_parse_rendered_note(title: Seq<char>, tags: Seq<Seq<char>>, content: Seq<char>)
    requires
        spec_frontmatter_body(content) is None,
        spec_all_faithful(title),
        forall|j: int| 0 <= j < tags.len() ==> spec_all_faithful(#[trigger] tags[j]),
        forall|j: int, i: int| 0 <= j < tags.len() && 0 <= i < tags[j].len() ==> #[trigger] tags[j][i] != '#',
    ensures
        spec_parse_basic_frontmatter(spec_render_note_markdown(title, tags, content)) == (
            Some(spec_rendered_title(title)),
            spec_push_tags(Seq::empty(), tags),
        ),
{
    let t = spec_rendered_title(title);
    let nt = spec_push_tags(Seq::empty(), tags);
    lemma_rendered_body(title, tags, content);
    lemma_rendered_pieces(title, tags);
    lemma_normalized_tags(tags);
    reveal_strlit("Untitled");
    if spec_trim(title).len() == 0 {
        assert forall|i: int| 0 <= i < t.len() implies spec_quotes_faithfully(#[trigger] t[i]) by {
            assert(t[i] != '\u{7f}');
        }
    } else {
        lemma_trim_shape(title);
        assert forall|i: int| 0 <= i < t.len() implies spec_quotes_faithfully(#[trigger] t[i]) by {
            let j = choose|j: int| 0 <= j < title.len() && t[i] == title[j];
        }
    }
    assert(t.len() > 0);
    let middle = spec_rendered_middle(title, tags);
    let pieces = spec_rendered_pieces(title, tags);
    let lines = spec_lines(middle);
    assert(lines == pieces.map_values(|l: Seq<char>| spec_strip_line(l)));
    reveal_strlit("\"\n");
    reveal_strlit("title: \"");
    reveal_strlit("  - \"");
    reveal_strlit("\"");
    reveal_strlit("tags:\n");
    reveal_strlit("tags:");
    assert(spec_title_line(t) =~= spec_title_text(t).push('\n'));
    assert(spec_strip_line(spec_title_line(t)) == spec_title_text(t)) by {
        assert(spec_title_line(t).drop_last() =~= spec_title_text(t));
    }
    assert(lines[0] == spec_title_text(t));
    lemma_step_title(spec_frontmatter_start(), t);
    assert(spec_frontmatter_fold(lines, 1) == spec_frontmatter_step(spec_frontmatter_fold(lines, 0), lines[0]));
    let st1 = FrontmatterState { title: Some(t), reading_tag_list: false, ..spec_frontmatter_start() };
    assert(spec_frontmatter_fold(lines, 1) == st1);
    if nt.len() == 0 {
        assert(lines.len() == 1);
    } else {
        assert(spec_strip_line("tags:\n"@) == "tags:"@) by {
            assert("tags:\n"@.drop_last() =~= "tags:"@);
        }
        assert(lines[1] == "tags:"@);
        lemma_step_tags_header(st1);
        let st2 = FrontmatterState { reading_tag_list: true, ..st1 };
        assert(spec_frontmatter_fold(lines, 2) == st2);
        assert forall|i: int| 0 <= i < nt.len() implies lines[2 + i] == spec_tag_text(#[trigger] nt[i]) by {
            assert(pieces[2 + i] == spec_tag_line(nt[i]));
            assert(spec_tag_line(nt[i]) =~= spec_tag_text(nt[i]).push('\n'));
            assert(spec_tag_line(nt[i]).drop_last() =~= spec_tag_text(nt[i]));
        }
        assert(lines.len() == 2 + nt.len());
        lemma_fold_tags(lines, 2, st2, nt, nt.len() as int);
        assert(nt.take(nt.len() as int) =~= nt);
    }
}

} // verus!
