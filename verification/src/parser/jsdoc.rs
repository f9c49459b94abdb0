//! JSDoc comments: lines, descriptions, tags and `@param` entries.
use crate::assoc::StrTable;
use crate::text::{chars_of, find_char, lemma_has_first, first_index, has_char, is_prefix, joined, join_strings, slice_to_vec, starts_with, string_of, views};
use vstd::prelude::*;

verus! {

/// `char::is_whitespace`: the characters with the Unicode `White_Space`
/// property.
pub open spec fn is_ws(c: char) -> bool {
    let u = c as u32;
    u == 0x20 || (0x09 <= u && u <= 0x0d) || u == 0x85 || u == 0xa0 || u == 0x1680 || (0x2000 <= u
        && u <= 0x200a) || u == 0x2028 || u == 0x2029 || u == 0x202f || u == 0x205f || u == 0x3000
}

/// Whether a character is white space; see `is_ws`.
pub fn is_whitespace_char(c: char) -> (r: bool)
    ensures
        r == is_ws(c),
{
    let u = c as u32;
    u == 0x20 || (0x09 <= u && u <= 0x0d) || u == 0x85 || u == 0xa0 || u == 0x1680 || (0x2000 <= u
        && u <= 0x200a) || u == 0x2028 || u == 0x2029 || u == 0x202f || u == 0x205f || u == 0x3000
}

/// The number of leading white-space characters.
pub open spec fn ws_prefix_len(s: Seq<char>) -> nat
    decreases s.len(),
{
    if s.len() > 0 && is_ws(s[0]) {
        1 + ws_prefix_len(s.drop_first())
    } else {
        0
    }
}

/// The number of trailing white-space characters.
pub open spec fn ws_suffix_len(s: Seq<char>) -> nat
    decreases s.len(),
{
    if s.len() > 0 && is_ws(s.last()) {
        1 + ws_suffix_len(s.drop_last())
    } else {
        0
    }
}

/// The number of leading `*`.
pub open spec fn star_prefix_len(s: Seq<char>) -> nat
    decreases s.len(),
{
    if s.len() > 0 && s[0] == '*' {
        1 + star_prefix_len(s.drop_first())
    } else {
        0
    }
}

/// `str::trim`: without leading and trailing white space.
pub open spec fn trim(s: Seq<char>) -> Seq<char> {
    let a = s.skip(ws_prefix_len(s) as int);
    a.take(a.len() - ws_suffix_len(a))
}

/// A JSDoc line as the parser reads it: trimmed, without its leading `*`,
/// trimmed again.
pub open spec fn clean(s: Seq<char>) -> Seq<char> {
    let t = trim(s);
    trim(t.skip(star_prefix_len(t) as int))
}

/// Without a final `\r`.
pub open spec fn strip_cr(l: Seq<char>) -> Seq<char> {
    if l.len() > 0 && l.last() == '\r' {
        l.drop_last()
    } else {
        l
    }
}

/// `str::lines`: the text split at each `\n` (a `\r` before it dropped), with
/// no empty line after a final `\n`.
pub open spec fn lines_of(s: Seq<char>) -> Seq<Seq<char>>
    decreases s.len(),
{
    if s.len() == 0 {
        Seq::empty()
    } else if has_char(s, '\n') {
        proof {
            lemma_has_first(s, '\n');
        }
        seq![strip_cr(s.take(first_index(s, '\n')))] + lines_of(s.skip(first_index(s, '\n') + 1))
    } else {
        seq![s]
    }
}

/// The cleaned lines of a comment.
pub open spec fn clean_lines(s: Seq<char>) -> Seq<Seq<char>> {
    cleaned(lines_of(s))
}

/// Each line cleaned.
pub open spec fn cleaned(ls: Seq<Seq<char>>) -> Seq<Seq<char>> {
    ls.map_values(|l: Seq<char>| clean(l))
}

proof fn lemma_ws_prefix(s: Seq<char>, i: int)
    requires
        0 <= i <= s.len(),
        forall|j: int| 0 <= j < i ==> is_ws(s[j]),
        i == s.len() || !is_ws(s[i]),
    ensures
        ws_prefix_len(s) == i,
    decreases i,
{
    if i > 0 {
        lemma_ws_prefix(s.drop_first(), i - 1);
    }
}

proof fn lemma_ws_suffix(s: Seq<char>, i: int)
    requires
        0 <= i <= s.len(),
        forall|j: int| s.len() - i <= j < s.len() ==> is_ws(s[j]),
        i == s.len() || !is_ws(s[s.len() - 1 - i]),
    ensures
        ws_suffix_len(s) == i,
    decreases i,
{
    if i > 0 {
        lemma_ws_suffix(s.drop_last(), i - 1);
    }
}

proof fn lemma_star_prefix(s: Seq<char>, i: int)
    requires
        0 <= i <= s.len(),
        forall|j: int| 0 <= j < i ==> s[j] == '*',
        i == s.len() || s[i] != '*',
    ensures
        star_prefix_len(s) == i,
    decreases i,
{
    if i > 0 {
        lemma_star_prefix(s.drop_first(), i - 1);
    }
}

/// `s` trimmed; see `trim`.
pub fn trim_chars(s: &[char]) -> (r: Vec<char>)
    ensures
        r@ == trim(s@),
{
    let n = s.len();
    let mut i: usize = 0;
    while i < n && is_whitespace_char(s[i])
        invariant
            i <= n == s@.len(),
            forall|j: int| 0 <= j < i ==> is_ws(s@[j]),
        decreases n - i,
    {
        i += 1;
    }
    proof {
        lemma_ws_prefix(s@, i as int);
    }
    let a = slice_to_vec(s, i, n);
    let m = a.len();
    let mut k: usize = 0;
    while k < m && is_whitespace_char(a[m - 1 - k])
        invariant
            k <= m == a@.len(),
            forall|j: int| m - k <= j < m ==> is_ws(a@[j]),
        decreases m - k,
    {
        k += 1;
    }
    proof {
        lemma_ws_suffix(a@, k as int);
        assert(a@ =~= s@.skip(i as int));
    }
    let r = slice_to_vec(&a, 0, m - k);
    assert(r@ =~= a@.take(m - k));
    r
}

/// A JSDoc line cleaned; see `clean`.
pub fn clean_chars(s: &[char]) -> (r: Vec<char>)
    ensures
        r@ == clean(s@),
{
    let t = trim_chars(s);
    let n = t.len();
    let mut i: usize = 0;
    while i < n && t[i] == '*'
        invariant
            i <= n == t@.len(),
            forall|j: int| 0 <= j < i ==> t@[j] == '*',
        decreases n - i,
    {
        i += 1;
    }
    proof {
        lemma_star_prefix(t@, i as int);
    }
    let u = slice_to_vec(&t, i, n);
    assert(u@ =~= t@.skip(i as int));
    trim_chars(&u)
}

/// The views of a list of character vectors.
pub open spec fn char_views(v: Seq<Vec<char>>) -> Seq<Seq<char>> {
    v.map_values(|l: Vec<char>| l@)
}

/// Splits a text into lines; see `lines_of`.
pub fn split_lines(s: &[char]) -> (r: Vec<Vec<char>>)
    ensures
        char_views(r@) == lines_of(s@),
{
    let n = s.len();
    let mut r: Vec<Vec<char>> = Vec::new();
    let mut start: usize = 0;
    assert(s@.skip(0) =~= s@);
    while start < n
        invariant
            start <= n == s@.len(),
            lines_of(s@) == char_views(r@) + lines_of(s@.skip(start as int)),
        decreases n - start,
    {
        let rest = slice_to_vec(s, start, n);
        assert(rest@ =~= s@.skip(start as int));
        let ghost before = char_views(r@);
        match find_char(&rest, '\n') {
            Some(k) => {
                let mut line = slice_to_vec(&rest, 0, k);
                assert(line@ =~= rest@.take(k as int));
                let ln = line.len();
                if ln > 0 && line[ln - 1] == '\r' {
                    line = slice_to_vec(&line, 0, ln - 1);
                    assert(line@ =~= rest@.take(k as int).drop_last());
                }
                assert(line@ == strip_cr(rest@.take(k as int)));
                r.push(line);
                assert(rest@.skip(k + 1) =~= s@.skip(start + k + 1));
                start = start + k + 1;
                assert(char_views(r@) =~= before.push(strip_cr(rest@.take(first_index(rest@, '\n')))));
            },
            None => {
                let ghost rv = rest@;
                r.push(rest);
                start = n;
                assert(char_views(r@) =~= before.push(rv));
                assert(s@.skip(n as int) =~= Seq::<char>::empty());
            },
        }
    }
    assert(s@.skip(n as int) =~= Seq::<char>::empty());
    assert(lines_of(s@.skip(n as int)) =~= Seq::<Seq<char>>::empty());
    r
}

/// The cleaned lines of a comment; see `clean_lines`.
pub fn comment_lines(text: &str) -> (r: Vec<Vec<char>>)
    ensures
        char_views(r@) == clean_lines(text@),
{
    let ls = split_lines(&chars_of(text));
    let mut r: Vec<Vec<char>> = Vec::new();
    let mut i: usize = 0;
    while i < ls.len()
        invariant
            i <= ls@.len(),
            char_views(r@) == cleaned(char_views(ls@).take(i as int)),
        decreases ls@.len() - i,
    {
        assert(char_views(ls@).take(i + 1) =~= char_views(ls@).take(i as int).push(ls@[i as int]@));
        let c = clean_chars(ls[i].as_slice());
        assert(c@ == clean(char_views(ls@)[i as int]));
        let ghost before = char_views(r@);
        r.push(c);
        assert(char_views(r@) =~= before.push(c@));
        assert(cleaned(char_views(ls@).take(i + 1)) =~= cleaned(char_views(ls@).take(i as int)).push(clean(char_views(ls@)[i as int])));
        assert(char_views(r@) =~= cleaned(char_views(ls@).take(i + 1)));
        i += 1;
    }
    assert(char_views(ls@).take(ls@.len() as int) =~= char_views(ls@));
    r
}

/// The parts of a description: the non-empty lines before the first line
/// that starts with `@`.
pub open spec fn description_parts(ls: Seq<Seq<char>>) -> Seq<Seq<char>>
    decreases ls.len(),
{
    if ls.len() == 0 {
        Seq::empty()
    } else if is_prefix("@"@, ls[0]) {
        Seq::empty()
    } else if ls[0].len() == 0 {
        description_parts(ls.drop_first())
    } else {
        seq![ls[0]] + description_parts(ls.drop_first())
    }
}

/// The description of a JSDoc comment: the non-empty lines before the first
/// tag, joined with spaces.
pub open spec fn jsdoc_description(text: Seq<char>) -> Seq<char> {
    joined(description_parts(clean_lines(text)), " "@)
}

/// The lines of a comment, as strings.
fn line_strings(ls: &Vec<Vec<char>>, i: usize) -> (r: String)
    requires
        i < ls@.len(),
    ensures
        r@ == char_views(ls@)[i as int],
{
    string_of(ls[i].as_slice())
}

/// The description of a JSDoc comment; see `jsdoc_description`.
pub fn parse_jsdoc_description(text: &str) -> (r: String)
    ensures
        r@ == jsdoc_description(text@),
{
    let ls = comment_lines(text);
    let ghost cl = char_views(ls@);
    let mut parts: Vec<String> = Vec::new();
    let mut i: usize = 0;
    let at = chars_of("@");
    assert(cl.skip(0) =~= cl);
    while i < ls.len()
        invariant
            i <= ls@.len(),
            cl == char_views(ls@),
            cl == clean_lines(text@),
            at@ == "@"@,
            description_parts(cl) == views(parts@) + description_parts(cl.skip(i as int)),
        decreases ls@.len() - i,
    {
        assert(cl.skip(i as int)[0] == cl[i as int]);
        assert(cl.skip(i as int).drop_first() =~= cl.skip(i + 1));
        if starts_with(ls[i].as_slice(), at.as_slice()) {
            assert(description_parts(cl.skip(i as int)) =~= Seq::<Seq<char>>::empty());
            assert(views(parts@) =~= description_parts(cl));
            return join_strings(&parts, " ");
        }
        if ls[i].len() > 0 {
            let ghost before = views(parts@);
            parts.push(line_strings(&ls, i));
            assert(views(parts@) =~= before.push(cl[i as int]));
            assert(views(parts@) + description_parts(cl.skip(i + 1)) =~= before + description_parts(cl.skip(i as int)));
        }
        i += 1;
    }
    assert(cl.skip(i as int) =~= Seq::<Seq<char>>::empty());
    assert(views(parts@) =~= description_parts(cl));
    join_strings(&parts, " ")
}

/// `@tag=` or `@tag:` starts the line, for one of the tags.
pub open spec fn is_excluded(l: Seq<char>, tags: Seq<Seq<char>>) -> bool {
    exists|j: int|
        0 <= j < tags.len() && (is_prefix("@"@ + tags[j] + "="@, l) || is_prefix(
            "@"@ + tags[j] + ":"@,
            l,
        ))
}

/// The parts of a description without the lines of the given tags: the
/// non-empty lines, other than those of the tags, before the first other line
/// that starts with `@`.
pub open spec fn description_parts_excluding(ls: Seq<Seq<char>>, tags: Seq<Seq<char>>) -> Seq<Seq<char>>
    decreases ls.len(),
{
    if ls.len() == 0 {
        Seq::empty()
    } else if is_excluded(ls[0], tags) {
        description_parts_excluding(ls.drop_first(), tags)
    } else if is_prefix("@"@, ls[0]) {
        Seq::empty()
    } else if ls[0].len() == 0 {
        description_parts_excluding(ls.drop_first(), tags)
    } else {
        seq![ls[0]] + description_parts_excluding(ls.drop_first(), tags)
    }
}

/// The views of a list of string slices.
pub open spec fn str_views(s: Seq<&str>) -> Seq<Seq<char>> {
    s.map_values(|t: &str| t@)
}

/// The description of a JSDoc comment without the lines of the given tags,
/// joined with spaces.
pub open spec fn jsdoc_description_excluding(text: Seq<char>, tags: Seq<Seq<char>>) -> Seq<char> {
    joined(description_parts_excluding(clean_lines(text), tags), " "@)
}

/// Whether a line starts with `@tag=` or `@tag:` for one of the tags.
fn excluded_line(line: &[char], tags: &[&str]) -> (r: bool)
    ensures
        r == is_excluded(line@, str_views(tags@)),
{
    let ghost tv = str_views(tags@);
    let mut j: usize = 0;
    while j < tags.len()
        invariant
            j <= tags@.len(),
            tv == str_views(tags@),
            forall|k: int| 0 <= k < j ==> !(is_prefix("@"@ + tv[k] + "="@, line@) || is_prefix(
                "@"@ + tv[k] + ":"@,
                line@,
            )),
        decreases tags@.len() - j,
    {
        let eq = crate::text::concat3("@", tags[j], "=");
        let colon = crate::text::concat3("@", tags[j], ":");
        if starts_with(line, chars_of(eq.as_str()).as_slice()) || starts_with(line, chars_of(colon.as_str()).as_slice()) {
            assert(tv[j as int] == tags@[j as int]@);
            return true;
        }
        j += 1;
    }
    false
}

/// The description of a JSDoc comment without the lines of the given tags;
/// see `jsdoc_description_excluding`.
pub fn parse_jsdoc_description_excluding_tags(text: &str, exclude_tags: &[&str]) -> (r: String)
    ensures
        r@ == jsdoc_description_excluding(text@, str_views(exclude_tags@)),
{
    let ls = comment_lines(text);
    let ghost cl = char_views(ls@);
    let ghost tv = str_views(exclude_tags@);
    let mut parts: Vec<String> = Vec::new();
    let mut i: usize = 0;
    let at = chars_of("@");
    assert(cl.skip(0) =~= cl);
    while i < ls.len()
        invariant
            i <= ls@.len(),
            cl == char_views(ls@),
            tv == str_views(exclude_tags@),
            cl == clean_lines(text@),
            at@ == "@"@,
            description_parts_excluding(cl, tv) == views(parts@) + description_parts_excluding(cl.skip(i as int), tv),
        decreases ls@.len() - i,
    {
        assert(cl.skip(i as int)[0] == cl[i as int]);
        assert(cl.skip(i as int).drop_first() =~= cl.skip(i + 1));
        if excluded_line(ls[i].as_slice(), exclude_tags) {
        } else if starts_with(ls[i].as_slice(), at.as_slice()) {
            assert(description_parts_excluding(cl.skip(i as int), tv) =~= Seq::<Seq<char>>::empty());
            assert(views(parts@) =~= description_parts_excluding(cl, tv));
            return join_strings(&parts, " ");
        } else if ls[i].len() > 0 {
            let ghost before = views(parts@);
            parts.push(line_strings(&ls, i));
            assert(views(parts@) =~= before.push(cl[i as int]));
            assert(views(parts@) + description_parts_excluding(cl.skip(i + 1), tv) =~= before
                + description_parts_excluding(cl.skip(i as int), tv));
        }
        i += 1;
    }
    assert(cl.skip(i as int) =~= Seq::<Seq<char>>::empty());
    assert(views(parts@) =~= description_parts_excluding(cl, tv));
    join_strings(&parts, " ")
}

/// Whether a cleaned line is the `@ignore` tag.
pub open spec fn is_ignore_line(l: Seq<char>) -> bool {
    l == "@ignore"@ || is_prefix("@ignore "@, l) || is_prefix("@ignore\t"@, l)
}

/// Whether a JSDoc comment holds the `@ignore` tag on a line of its own.
pub open spec fn has_ignore_tag(text: Seq<char>) -> bool {
    exists|i: int| 0 <= i < clean_lines(text).len() && is_ignore_line(#[trigger] clean_lines(text)[i])
}

/// Whether a JSDoc comment holds the `@ignore` tag; see `has_ignore_tag`.
pub fn has_jsdoc_ignore_tag(text: &str) -> (r: bool)
    ensures
        r == has_ignore_tag(text@),
{
    let ls = comment_lines(text);
    let ghost cl = char_views(ls@);
    let a = chars_of("@ignore");
    let b = chars_of("@ignore ");
    let c = chars_of("@ignore\t");
    let mut i: usize = 0;
    while i < ls.len()
        invariant
            i <= ls@.len(),
            cl == char_views(ls@),
            cl == clean_lines(text@),
            a@ == "@ignore"@,
            b@ == "@ignore "@,
            c@ == "@ignore\t"@,
            forall|j: int| 0 <= j < i ==> !is_ignore_line(#[trigger] cl[j]),
        decreases ls@.len() - i,
    {
        assert(cl[i as int] == ls@[i as int]@);
        if crate::text::chars_eq(ls[i].as_slice(), a.as_slice()) || starts_with(ls[i].as_slice(), b.as_slice())
            || starts_with(ls[i].as_slice(), c.as_slice()) {
            assert(is_ignore_line(cl[i as int]));
            return true;
        }
        i += 1;
    }
    false
}

/// The value between the quotes that start `r`, if it is quoted.
pub open spec fn quoted(r: Seq<char>) -> Option<Seq<char>> {
    if r.len() > 0 && r[0] == '"' && has_char(r.skip(1), '"') {
        Some(r.skip(1).take(first_index(r.skip(1), '"')))
    } else {
        None
    }
}

/// The value of a tag on a cleaned line: `@tag="value"` gives the quoted
/// value, `@tag:value` the non-empty trimmed rest.
pub open spec fn tag_value_in(l: Seq<char>, tag: Seq<char>) -> Option<Seq<char>> {
    let eq = "@"@ + tag + "="@;
    let colon = "@"@ + tag + ":"@;
    if is_prefix(eq, l) && quoted(trim(l.skip(eq.len() as int))) is Some {
        quoted(trim(l.skip(eq.len() as int)))
    } else if is_prefix(colon, l) && trim(l.skip(colon.len() as int)).len() > 0 {
        Some(trim(l.skip(colon.len() as int)))
    } else {
        None
    }
}

/// The value of the first line that gives the tag a value.
pub open spec fn first_tag_value(ls: Seq<Seq<char>>, tag: Seq<char>) -> Option<Seq<char>>
    decreases ls.len(),
{
    if ls.len() == 0 {
        None
    } else if tag_value_in(ls[0], tag) is Some {
        tag_value_in(ls[0], tag)
    } else {
        first_tag_value(ls.drop_first(), tag)
    }
}

/// The value of a JSDoc tag written `@tag="value"` or `@tag:value`.
pub open spec fn jsdoc_tag(text: Seq<char>, tag: Seq<char>) -> Option<Seq<char>> {
    first_tag_value(clean_lines(text), tag)
}

/// The view of an optional string.
pub open spec fn opt_string_view(o: Option<String>) -> Option<Seq<char>> {
    match o {
        Some(s) => Some(s@),
        None => None,
    }
}

/// The value between the quotes that start `r`; see `quoted`.
fn quoted_chars(r: &[char]) -> (v: Option<Vec<char>>)
    ensures
        match v {
            Some(x) => quoted(r@) == Some(x@),
            None => quoted(r@) is None,
        },
{
    if r.len() > 0 && r[0] == '"' {
        let rest = slice_to_vec(r, 1, r.len());
        assert(rest@ =~= r@.skip(1));
        match find_char(&rest, '"') {
            Some(end) => {
                let v = slice_to_vec(&rest, 0, end);
                assert(v@ =~= rest@.take(end as int));
                Some(v)
            },
            None => None,
        }
    } else {
        None
    }
}

/// The value of a tag on a cleaned line; see `tag_value_in`.
fn tag_value_chars(l: &[char], tag: &str) -> (v: Option<Vec<char>>)
    ensures
        match v {
            Some(x) => tag_value_in(l@, tag@) == Some(x@),
            None => tag_value_in(l@, tag@) is None,
        },
{
    let eq = chars_of(crate::text::concat3("@", tag, "=").as_str());
    let colon = chars_of(crate::text::concat3("@", tag, ":").as_str());
    if starts_with(l, eq.as_slice()) {
        let rest = slice_to_vec(l, eq.len(), l.len());
        assert(rest@ =~= l@.skip(eq@.len() as int));
        let t = trim_chars(&rest);
        match quoted_chars(&t) {
            Some(v) => return Some(v),
            None => {},
        }
    }
    if starts_with(l, colon.as_slice()) {
        let rest = slice_to_vec(l, colon.len(), l.len());
        assert(rest@ =~= l@.skip(colon@.len() as int));
        let t = trim_chars(&rest);
        if t.len() > 0 {
            return Some(t);
        }
    }
    None
}

/// The value of a JSDoc tag; see `jsdoc_tag`.
pub fn parse_jsdoc_tag(text: &str, tag_name: &str) -> (r: Option<String>)
    ensures
        opt_string_view(r) == jsdoc_tag(text@, tag_name@),
{
    let ls = comment_lines(text);
    let ghost cl = char_views(ls@);
    let mut i: usize = 0;
    assert(cl.skip(0) =~= cl);
    while i < ls.len()
        invariant
            i <= ls@.len(),
            cl == char_views(ls@),
            cl == clean_lines(text@),
            first_tag_value(cl, tag_name@) == first_tag_value(cl.skip(i as int), tag_name@),
        decreases ls@.len() - i,
    {
        assert(cl.skip(i as int)[0] == cl[i as int]);
        assert(cl.skip(i as int).drop_first() =~= cl.skip(i + 1));
        assert(cl[i as int] == ls@[i as int]@);
        match tag_value_chars(ls[i].as_slice(), tag_name) {
            Some(v) => return Some(string_of(v.as_slice())),
            None => {},
        }
        i += 1;
    }
    None
}

/// The number of leading characters that are not white space.
pub open spec fn word_len(s: Seq<char>) -> nat
    decreases s.len(),
{
    if s.len() > 0 && !is_ws(s[0]) {
        1 + word_len(s.drop_first())
    } else {
        0
    }
}

/// The name and description of a `@param` line: `@param name description`
/// or `@param {type} name description`, a leading `- ` dropped from the
/// description; both must be non-empty.
pub open spec fn param_entry(l: Seq<char>) -> Option<(Seq<char>, Seq<char>)> {
    if !is_prefix("@param"@, l) {
        None
    } else {
        let r0 = trim(l.skip(6));
        let r1 = if r0.len() > 0 && r0[0] == '{' && has_char(r0, '}') {
            trim(r0.skip(first_index(r0, '}') + 1))
        } else {
            r0
        };
        let k = word_len(r1);
        if k < r1.len() {
            let name = r1.take(k as int);
            let d0 = trim(r1.skip(k as int));
            let d = if is_prefix("- "@, d0) {
                d0.skip(2)
            } else {
                d0
            };
            if name.len() > 0 && d.len() > 0 {
                Some((name, d))
            } else {
                None
            }
        } else {
            None
        }
    }
}

/// The `@param` entries of cleaned lines added to a map, a later line
/// overriding an earlier one.
pub open spec fn params_added(m: Map<Seq<char>, Seq<char>>, ls: Seq<Seq<char>>) -> Map<Seq<char>, Seq<char>>
    decreases ls.len(),
{
    if ls.len() == 0 {
        m
    } else {
        let m2 = params_added(m, ls.drop_last());
        match param_entry(ls.last()) {
            Some(e) => m2.insert(e.0, e.1),
            None => m2,
        }
    }
}

proof fn lemma_word_len(s: Seq<char>, i: int)
    requires
        0 <= i <= s.len(),
        forall|j: int| 0 <= j < i ==> !is_ws(s[j]),
        i == s.len() || is_ws(s[i]),
    ensures
        word_len(s) == i,
    decreases i,
{
    if i > 0 {
        lemma_word_len(s.drop_first(), i - 1);
    }
}

/// The `@param` entry of a cleaned line; see `param_entry`.
fn param_entry_of(l: &[char]) -> (r: Option<(String, String)>)
    ensures
        match r {
            Some((n, d)) => param_entry(l@) == Some((n@, d@)),
            None => param_entry(l@) is None,
        },
{
    let p = chars_of("@param");
    if !starts_with(l, p.as_slice()) {
        return None;
    }
    proof {
        reveal_strlit("@param");
    }
    let after = slice_to_vec(l, 6, l.len());
    assert(after@ =~= l@.skip(6));
    let r0 = trim_chars(&after);
    let r1 = if r0.len() > 0 && r0[0] == '{' {
        match find_char(&r0, '}') {
            Some(end) => {
                let t = slice_to_vec(&r0, end + 1, r0.len());
                assert(t@ =~= r0@.skip(end + 1));
                trim_chars(&t)
            },
            None => r0,
        }
    } else {
        r0
    };
    let n = r1.len();
    let mut k: usize = 0;
    while k < n && !is_whitespace_char(r1[k])
        invariant
            k <= n == r1@.len(),
            forall|j: int| 0 <= j < k ==> !is_ws(r1@[j]),
        decreases n - k,
    {
        k += 1;
    }
    proof {
        lemma_word_len(r1@, k as int);
    }
    if k >= n {
        return None;
    }
    let name = slice_to_vec(&r1, 0, k);
    assert(name@ =~= r1@.take(k as int));
    let rest = slice_to_vec(&r1, k, n);
    assert(rest@ =~= r1@.skip(k as int));
    let d0 = trim_chars(&rest);
    let dash = chars_of("- ");
    let d = if starts_with(&d0, dash.as_slice()) {
        proof {
            reveal_strlit("- ");
        }
        let t = slice_to_vec(&d0, 2, d0.len());
        assert(t@ =~= d0@.skip(2));
        t
    } else {
        d0
    };
    if name.len() > 0 && d.len() > 0 {
        Some((string_of(name.as_slice()), string_of(d.as_slice())))
    } else {
        None
    }
}

/// Adds the `@param` entries of a JSDoc comment to `params`; see `params_added`.
pub fn parse_jsdoc_params(text: &str, params: &mut StrTable<String>)
    ensures
        final(params).view_map() == params_added(old(params).view_map(), clean_lines(text@)),
{
    let ls = comment_lines(text);
    let ghost cl = char_views(ls@);
    let mut i: usize = 0;
    while i < ls.len()
        invariant
            i <= ls@.len(),
            cl == char_views(ls@),
            cl == clean_lines(text@),
            params.view_map() == params_added(old(params).view_map(), cl.take(i as int)),
        decreases ls@.len() - i,
    {
        assert(cl.take(i + 1).drop_last() =~= cl.take(i as int));
        assert(cl.take(i + 1).last() == ls@[i as int]@);
        match param_entry_of(ls[i].as_slice()) {
            Some((n, d)) => {
                params.insert(n, d);
            },
            None => {},
        }
        i += 1;
    }
    assert(cl.take(ls@.len() as int) =~= cl);
}

} // verus!
