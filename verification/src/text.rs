//! Character-level string helpers shared by the generators and parsers.
//!
//! Text is handled as `Vec<char>` inside the library; a `String` is produced
//! only at the boundary, so that every transformation is stated over the
//! `Seq<char>` view of a string.
use vstd::prelude::*;

verus! {

/// The characters of a string slice, in order.
pub(crate) fn chars_of(s: &str) -> (v: Vec<char>)
    ensures
        v@ == s@,
{
    let mut v: Vec<char> = Vec::new();
    for c in it: s.chars()
        invariant
            it.seq() == s@,
            v@ == it.seq().take(it.index() as int),
    {
        v.push(c);
    }
    v
}

/// Builds a `String` from characters (`FromIterator<&char>` for `String`).
/// The string's characters are exactly those of `v`, in order.
#[verifier::external_body]
pub(crate) fn string_of(v: &[char]) -> (s: String)
    ensures
        s@ == v@,
{
    String::from_iter(v)
}

/// Whether two string slices hold the same characters.
pub fn str_eq(a: &str, b: &str) -> (r: bool)
    ensures
        r == (a@ == b@),
{
    let x = chars_of(a);
    let y = chars_of(b);
    chars_eq(x.as_slice(), y.as_slice())
}

/// Appends the characters of `s` to `out`.
pub fn push_str(out: &mut Vec<char>, s: &str)
    ensures
        final(out)@ == old(out)@ + s@,
{
    let mut v = chars_of(s);
    out.append(&mut v);
}

/// Appends the characters of `s` to `out`.
pub fn push_chars(out: &mut Vec<char>, s: &[char])
    ensures
        final(out)@ == old(out)@ + s@,
{
    out.extend_from_slice(s);
}

/// `p` is a prefix of `s`.
pub open spec fn is_prefix(p: Seq<char>, s: Seq<char>) -> bool {
    p.len() <= s.len() && s.subrange(0, p.len() as int) == p
}

/// `p` is a suffix of `s`.
pub open spec fn is_suffix(p: Seq<char>, s: Seq<char>) -> bool {
    p.len() <= s.len() && s.subrange(s.len() - p.len(), s.len() as int) == p
}

/// Whether `p` is a prefix of `s`.
pub fn starts_with(s: &[char], p: &[char]) -> (r: bool)
    ensures
        r == is_prefix(p@, s@),
{
    if p.len() > s.len() {
        return false;
    }
    let mut i: usize = 0;
    while i < p.len()
        invariant
            p.len() <= s.len(),
            i <= p.len(),
            forall|j: int| 0 <= j < i ==> s@[j] == p@[j],
        decreases p.len() - i,
    {
        if s[i] != p[i] {
            assert(s@.subrange(0, p.len() as int)[i as int] != p@[i as int]);
            return false;
        }
        i += 1;
    }
    assert(s@.subrange(0, p@.len() as int) =~= p@);
    true
}

/// Whether `p` is a suffix of `s`.
pub fn ends_with(s: &[char], p: &[char]) -> (r: bool)
    ensures
        r == is_suffix(p@, s@),
{
    if p.len() > s.len() {
        return false;
    }
    let off = s.len() - p.len();
    let mut i: usize = 0;
    while i < p.len()
        invariant
            p.len() <= s.len(),
            off == s.len() - p.len(),
            i <= p.len(),
            forall|j: int| 0 <= j < i ==> s@[off + j] == p@[j],
        decreases p.len() - i,
    {
        if s[off + i] != p[i] {
            assert(s@.subrange(off as int, s.len() as int)[i as int] != p@[i as int]);
            return false;
        }
        i += 1;
    }
    assert(s@.subrange(off as int, s@.len() as int) =~= p@);
    true
}

/// Whether two character sequences are equal.
pub fn chars_eq(a: &[char], b: &[char]) -> (r: bool)
    ensures
        r == (a@ == b@),
{
    if a.len() != b.len() {
        return false;
    }
    let r = starts_with(a, b);
    assert(a@ =~= a@.subrange(0, b@.len() as int));
    r
}

/// Copies `s[from..to]`.
pub fn slice_to_vec(s: &[char], from: usize, to: usize) -> (v: Vec<char>)
    requires
        from <= to <= s.len(),
    ensures
        v@ == s@.subrange(from as int, to as int),
{
    let mut v: Vec<char> = Vec::new();
    let mut i = from;
    while i < to
        invariant
            from <= i <= to <= s.len(),
            v@ == s@.subrange(from as int, i as int),
        decreases to - i,
    {
        v.push(s[i]);
        i += 1;
        assert(v@ =~= s@.subrange(from as int, i as int));
    }
    v
}

/// What `str::to_lowercase` returns for a string (Unicode lower-case mapping).
pub uninterp spec fn lowercase_of(s: Seq<char>) -> Seq<char>;

/// Lower-cases a string with `str::to_lowercase`; the result is named
/// `lowercase_of` of the input's characters.
#[verifier::external_body]
pub(crate) fn to_lowercase(s: &str) -> (r: String)
    ensures
        r@ == lowercase_of(s@),
{
    s.to_lowercase()
}

/// `i` is the first position of `c` in `s`.
pub open spec fn is_first_index(s: Seq<char>, c: char, i: int) -> bool {
    0 <= i < s.len() && s[i] == c && forall|j: int| 0 <= j < i ==> s[j] != c
}

/// `c` occurs in `s`.
pub open spec fn has_char(s: Seq<char>, c: char) -> bool {
    exists|i: int| 0 <= i < s.len() && s[i] == c
}

/// The first position of `c` in `s`, or -1 when it does not occur.
pub open spec fn first_index(s: Seq<char>, c: char) -> int {
    if has_char(s, c) {
        choose|i: int| is_first_index(s, c, i)
    } else {
        -1
    }
}

/// A first position is unique, and it is what `first_index` picks.
pub proof fn lemma_first_index(s: Seq<char>, c: char, i: int)
    requires
        is_first_index(s, c, i),
    ensures
        first_index(s, c) == i,
{
    assert(has_char(s, c));
    let k = choose|k: int| is_first_index(s, c, k);
    assert(is_first_index(s, c, k));
    if k < i {
        assert(s[k] != c);
    }
    if i < k {
        assert(s[i] != c);
    }
}

/// When `c` occurs, `first_index` is its first position.
pub proof fn lemma_has_first(s: Seq<char>, c: char)
    requires
        has_char(s, c),
    ensures
        is_first_index(s, c, first_index(s, c)),
    decreases s.len(),
{
    if s[0] == c {
        lemma_first_index(s, c, 0);
    } else {
        let i = choose|i: int| 0 <= i < s.len() && s[i] == c;
        assert(s.drop_first()[i - 1] == c);
        lemma_has_first(s.drop_first(), c);
        let j = first_index(s.drop_first(), c);
        assert forall|k: int| 0 <= k < j + 1 implies s[k] != c by {
            if k > 0 {
                assert(s.drop_first()[k - 1] == s[k]);
            }
        }
        assert(is_first_index(s, c, j + 1));
        lemma_first_index(s, c, j + 1);
    }
}

/// The first position of `c` in `s`, if any.
pub fn find_char(s: &[char], c: char) -> (r: Option<usize>)
    ensures
        r.is_none() <==> !has_char(s@, c),
        r.is_none() ==> first_index(s@, c) == -1,
        r matches Some(i) ==> is_first_index(s@, c, i as int) && first_index(s@, c) == i,
{
    let mut i: usize = 0;
    while i < s.len()
        invariant
            i <= s.len(),
            forall|j: int| 0 <= j < i ==> s@[j] != c,
        decreases s.len() - i,
    {
        if s[i] == c {
            proof {
                lemma_first_index(s@, c, i as int);
            }
            return Some(i);
        }
        i += 1;
    }
    None
}

/// `i` is the last position of `c` in `s`.
pub open spec fn is_last_index(s: Seq<char>, c: char, i: int) -> bool {
    0 <= i < s.len() && s[i] == c && forall|j: int| i < j < s.len() ==> s[j] != c
}

/// The last position of `c` in `s`, or -1 when it does not occur.
pub open spec fn last_index(s: Seq<char>, c: char) -> int {
    if has_char(s, c) {
        choose|i: int| is_last_index(s, c, i)
    } else {
        -1
    }
}

/// A last position is unique, and it is what `last_index` picks.
pub proof fn lemma_last_index(s: Seq<char>, c: char, i: int)
    requires
        is_last_index(s, c, i),
    ensures
        last_index(s, c) == i,
{
    assert(has_char(s, c));
    let k = choose|k: int| is_last_index(s, c, k);
    assert(is_last_index(s, c, k));
    if k < i {
        assert(s[i] != c);
    }
    if i < k {
        assert(s[k] != c);
    }
}

/// The last position of `c` in `s`, if any.
pub fn rfind_char(s: &[char], c: char) -> (r: Option<usize>)
    ensures
        r.is_none() <==> !has_char(s@, c),
        r.is_none() ==> last_index(s@, c) == -1,
        r matches Some(i) ==> is_last_index(s@, c, i as int) && last_index(s@, c) == i,
{
    let mut i: usize = s.len();
    while i > 0
        invariant
            i <= s.len(),
            forall|j: int| i <= j < s.len() ==> s@[j] != c,
        decreases i,
    {
        if s[i - 1] == c {
            proof {
                lemma_last_index(s@, c, i - 1);
            }
            return Some(i - 1);
        }
        i -= 1;
    }
    None
}

/// `a` followed by `b`, as a new string.
pub fn concat2(a: &str, b: &str) -> (r: String)
    ensures
        r@ == a@ + b@,
{
    let mut r = String::from_str(a);
    r.append(b);
    r
}

/// `a`, `b` and `c` one after another, as a new string.
pub fn concat3(a: &str, b: &str, c: &str) -> (r: String)
    ensures
        r@ == a@ + b@ + c@,
{
    let mut r = String::from_str(a);
    r.append(b);
    r.append(c);
    r
}

/// Lines each followed by a newline.
pub open spec fn lines_text(ls: Seq<Seq<char>>) -> Seq<char>
    decreases ls.len(),
{
    if ls.len() == 0 {
        Seq::empty()
    } else {
        lines_text(ls.drop_last()) + ls.last() + "\n"@
    }
}

/// Items joined with a separator between consecutive ones.
pub open spec fn joined(ls: Seq<Seq<char>>, sep: Seq<char>) -> Seq<char>
    decreases ls.len(),
{
    if ls.len() == 0 {
        Seq::empty()
    } else if ls.len() == 1 {
        ls[0]
    } else {
        joined(ls.drop_last(), sep) + sep + ls.last()
    }
}

/// The character views of a list of strings.
pub open spec fn views(s: Seq<String>) -> Seq<Seq<char>> {
    s.map_values(|x: String| x@)
}

/// The lines of `lines`, each followed by a newline, as one string.
pub fn lines_to_text(lines: &Vec<String>) -> (r: String)
    ensures
        r@ == lines_text(views(lines@)),
{
    let mut out: Vec<char> = Vec::new();
    let mut i: usize = 0;
    while i < lines.len()
        invariant
            i <= lines.len(),
            out@ == lines_text(views(lines@).take(i as int)),
        decreases lines.len() - i,
    {
        push_str(&mut out, lines[i].as_str());
        push_str(&mut out, "\n");
        assert(views(lines@).take(i + 1).drop_last() =~= views(lines@).take(i as int));
        i += 1;
    }
    assert(views(lines@).take(lines@.len() as int) =~= views(lines@));
    string_of(&out)
}

/// The strings of `items` joined with `sep`.
pub fn join_strings(items: &Vec<String>, sep: &str) -> (r: String)
    ensures
        r@ == joined(views(items@), sep@),
{
    let mut out: Vec<char> = Vec::new();
    let mut i: usize = 0;
    while i < items.len()
        invariant
            i <= items.len(),
            out@ == joined(views(items@).take(i as int), sep@),
        decreases items.len() - i,
    {
        if i > 0 {
            push_str(&mut out, sep);
        }
        push_str(&mut out, items[i].as_str());
        assert(views(items@).take(i + 1).drop_last() =~= views(items@).take(i as int));
        i += 1;
    }
    assert(views(items@).take(items@.len() as int) =~= views(items@));
    string_of(&out)
}

/// The views of a list of strings, pushed one more.
pub proof fn lemma_views_push(s: Seq<String>, x: String)
    ensures
        views(s.push(x)) == views(s).push(x@),
{
    assert(views(s.push(x)) =~= views(s).push(x@));
}

/// A copy of a list of strings.
pub fn copy_strings(items: &Vec<String>) -> (r: Vec<String>)
    ensures
        r@ == items@,
{
    let mut r: Vec<String> = Vec::new();
    let mut i: usize = 0;
    while i < items.len()
        invariant
            i <= items@.len(),
            r@ == items@.take(i as int),
        decreases items@.len() - i,
    {
        r.push(items[i].clone());
        assert(items@.take(i + 1) =~= items@.take(i as int).push(items@[i as int]));
        i += 1;
    }
    assert(items@.take(items@.len() as int) =~= items@);
    r
}

/// Whether `s` is one of `items`.
pub fn contains_string(items: &Vec<String>, s: &str) -> (r: bool)
    ensures
        r == views(items@).contains(s@),
{
    let mut i: usize = 0;
    while i < items.len()
        invariant
            i <= items@.len(),
            forall|j: int| 0 <= j < i ==> items@[j]@ != s@,
        decreases items@.len() - i,
    {
        if str_eq(items[i].as_str(), s) {
            assert(views(items@)[i as int] == s@);
            return true;
        }
        i += 1;
    }
    proof {
        if views(items@).contains(s@) {
            let j = choose|j: int| 0 <= j < views(items@).len() && views(items@)[j] == s@;
            assert(items@[j]@ == s@);
        }
    }
    false
}

/// The XML escape of one character.
pub open spec fn escape_char(c: char) -> Seq<char> {
    if c == '&' {
        "&amp;"@
    } else if c == '<' {
        "&lt;"@
    } else if c == '>' {
        "&gt;"@
    } else if c == '"' {
        "&quot;"@
    } else if c == '\'' {
        "&apos;"@
    } else {
        seq![c]
    }
}

/// Text with `&`, `<`, `>`, `"` and `'` replaced by their XML entities.
pub open spec fn escape_xml_spec(s: Seq<char>) -> Seq<char>
    decreases s.len(),
{
    if s.len() == 0 {
        Seq::empty()
    } else {
        escape_xml_spec(s.drop_last()) + escape_char(s.last())
    }
}

/// Escaped text holds no `<`, `>`, `"` or `'`, every `&` in it starts one of
/// the five entities, reading it back entity by entity gives the text again,
/// and text without any of the five special characters is left as it is.
pub proof fn law_escape_xml(s: Seq<char>)
    ensures
        forall|i: int|
            0 <= i < escape_xml_spec(s).len() && #[trigger] escape_xml_spec(s)[i] == '&'
                ==> starts_with_entity(escape_xml_spec(s).skip(i)),
        unescape_xml_spec(escape_xml_spec(s)) == s,
        forall|i: int|
            0 <= i < escape_xml_spec(s).len() ==> {
                let c = #[trigger] escape_xml_spec(s)[i];
                c != '<' && c != '>' && c != '"' && c != '\''
            },
        (forall|i: int| 0 <= i < s.len() ==> {
            let c = #[trigger] s[i];
            c != '&' && c != '<' && c != '>' && c != '"' && c != '\''
        }) ==> escape_xml_spec(s) == s,
    decreases s.len(),
{
    lemma_escaped_ampersands(s);
    lemma_unescape_escape(s);
    if s.len() > 0 {
        let t = s.drop_last();
        law_escape_xml(t);
        let e = escape_char(s.last());
        reveal_strlit("&amp;");
        reveal_strlit("&lt;");
        reveal_strlit("&gt;");
        reveal_strlit("&quot;");
        reveal_strlit("&apos;");
        assert forall|i: int| 0 <= i < escape_xml_spec(s).len() implies {
            let c = #[trigger] escape_xml_spec(s)[i];
            c != '<' && c != '>' && c != '"' && c != '\''
        } by {
            if i < escape_xml_spec(t).len() {
                assert(escape_xml_spec(s)[i] == escape_xml_spec(t)[i]);
            } else {
                assert(escape_xml_spec(s)[i] == e[i - escape_xml_spec(t).len()]);
            }
        }
        if forall|i: int| 0 <= i < s.len() ==> {
            let c = #[trigger] s[i];
            c != '&' && c != '<' && c != '>' && c != '"' && c != '\''
        } {
            assert forall|i: int| 0 <= i < t.len() implies {
                let c = #[trigger] t[i];
                c != '&' && c != '<' && c != '>' && c != '"' && c != '\''
            } by {
                assert(t[i] == s[i]);
            }
            assert(s[s.len() - 1] == s.last());
            assert(escape_xml_spec(s) =~= t + seq![s.last()]);
            assert(t + seq![s.last()] =~= s);
        }
    }
}

/// The entity for `&`.
pub open spec fn amp_entity() -> Seq<char> {
    seq!['&', 'a', 'm', 'p', ';']
}

/// The entity for `<`.
pub open spec fn lt_entity() -> Seq<char> {
    seq!['&', 'l', 't', ';']
}

/// The entity for `>`.
pub open spec fn gt_entity() -> Seq<char> {
    seq!['&', 'g', 't', ';']
}

/// The entity for `"`.
pub open spec fn quot_entity() -> Seq<char> {
    seq!['&', 'q', 'u', 'o', 't', ';']
}

/// The entity for `'`.
pub open spec fn apos_entity() -> Seq<char> {
    seq!['&', 'a', 'p', 'o', 's', ';']
}

/// The text that XML text stands for: each of the five entities read, from
/// the left, as the character it names; every other character as it is.
pub open spec fn unescape_xml_spec(s: Seq<char>) -> Seq<char>
    decreases s.len(),
{
    if s.len() == 0 {
        Seq::empty()
    } else if is_prefix(amp_entity(), s) {
        seq!['&'] + unescape_xml_spec(s.skip(5))
    } else if is_prefix(lt_entity(), s) {
        seq!['<'] + unescape_xml_spec(s.skip(4))
    } else if is_prefix(gt_entity(), s) {
        seq!['>'] + unescape_xml_spec(s.skip(4))
    } else if is_prefix(quot_entity(), s) {
        seq!['"'] + unescape_xml_spec(s.skip(6))
    } else if is_prefix(apos_entity(), s) {
        seq!['\''] + unescape_xml_spec(s.skip(6))
    } else {
        seq![s[0]] + unescape_xml_spec(s.drop_first())
    }
}

/// Escaping text piece by piece gives the escape of the whole.
proof fn lemma_escape_concat(a: Seq<char>, b: Seq<char>)
    ensures
        escape_xml_spec(a + b) == escape_xml_spec(a) + escape_xml_spec(b),
    decreases b.len(),
{
    if b.len() == 0 {
        assert(a + b =~= a);
        assert(escape_xml_spec(a) + escape_xml_spec(b) =~= escape_xml_spec(a));
    } else {
        lemma_escape_concat(a, b.drop_last());
        assert((a + b).drop_last() =~= a + b.drop_last());
        assert((a + b).last() == b.last());
    }
}

/// Reading back the escape of one character, then more text, gives the
/// character, then that text read back.
proof fn lemma_unescape_char(c: char, t: Seq<char>)
    ensures
        unescape_xml_spec(escape_char(c) + t) == seq![c] + unescape_xml_spec(t),
{
    reveal_strlit("&amp;");
    reveal_strlit("&lt;");
    reveal_strlit("&gt;");
    reveal_strlit("&quot;");
    reveal_strlit("&apos;");
    let e = escape_char(c) + t;
    if c == '&' {
        assert(escape_char(c) =~= amp_entity());
        assert(e.subrange(0, 5) =~= amp_entity());
        assert(e.skip(5) =~= t);
    } else if c == '<' {
        assert(escape_char(c) =~= lt_entity());
        assert(e[1] == 'l');
        if e.len() >= 5 {
            assert(e.subrange(0, 5)[1] != amp_entity()[1]);
        }
        assert(e.subrange(0, 4) =~= lt_entity());
        assert(e.skip(4) =~= t);
    } else if c == '>' {
        assert(escape_char(c) =~= gt_entity());
        assert(e[1] == 'g');
        if e.len() >= 5 {
            assert(e.subrange(0, 5)[1] != amp_entity()[1]);
        }
        assert(e.subrange(0, 4)[1] != lt_entity()[1]);
        assert(e.subrange(0, 4) =~= gt_entity());
        assert(e.skip(4) =~= t);
    } else if c == '"' {
        assert(escape_char(c) =~= quot_entity());
        assert(e.subrange(0, 5)[1] != amp_entity()[1]);
        assert(e.subrange(0, 4)[1] != lt_entity()[1]);
        assert(e.subrange(0, 4)[1] != gt_entity()[1]);
        assert(e.subrange(0, 6) =~= quot_entity());
        assert(e.skip(6) =~= t);
    } else if c == '\'' {
        assert(escape_char(c) =~= apos_entity());
        assert(e.subrange(0, 5)[2] != amp_entity()[2]);
        assert(e.subrange(0, 4)[1] != lt_entity()[1]);
        assert(e.subrange(0, 4)[1] != gt_entity()[1]);
        assert(e.subrange(0, 6)[1] != quot_entity()[1]);
        assert(e.subrange(0, 6) =~= apos_entity());
        assert(e.skip(6) =~= t);
    } else {
        assert(e[0] == c);
        if e.len() >= 5 {
            assert(e.subrange(0, 5)[0] != amp_entity()[0]);
        }
        if e.len() >= 4 {
            assert(e.subrange(0, 4)[0] != lt_entity()[0]);
            assert(e.subrange(0, 4)[0] != gt_entity()[0]);
        }
        if e.len() >= 6 {
            assert(e.subrange(0, 6)[0] != quot_entity()[0]);
            assert(e.subrange(0, 6)[0] != apos_entity()[0]);
        }
        assert(e.drop_first() =~= t);
    }
}

/// Escaping loses nothing: reading the escaped text back, entity by entity,
/// gives the original text.
proof fn lemma_unescape_escape(s: Seq<char>)
    ensures
        unescape_xml_spec(escape_xml_spec(s)) == s,
    decreases s.len(),
{
    if s.len() > 0 {
        let t = s.drop_first();
        lemma_unescape_escape(t);
        lemma_escape_concat(seq![s[0]], t);
        assert(seq![s[0]] + t =~= s);
        let one = seq![s[0]];
        assert(one.drop_last() =~= Seq::<char>::empty());
        assert(escape_xml_spec(one.drop_last()) =~= Seq::<char>::empty());
        assert(one.last() == s[0]);
        assert(escape_xml_spec(one) =~= escape_char(s[0]));
        lemma_unescape_char(s[0], escape_xml_spec(t));
    }
}

/// Text that starts with one of the five XML entities.
pub open spec fn starts_with_entity(t: Seq<char>) -> bool {
    is_prefix(amp_entity(), t) || is_prefix(lt_entity(), t) || is_prefix(gt_entity(), t) || is_prefix(
        quot_entity(),
        t,
    ) || is_prefix(apos_entity(), t)
}

/// Text that starts with an entity still does with more text after it.
proof fn lemma_entity_prefix_extends(x: Seq<char>, y: Seq<char>)
    requires
        starts_with_entity(x),
    ensures
        starts_with_entity(x + y),
{
    let xy = x + y;
    if is_prefix(amp_entity(), x) {
        assert(xy.subrange(0, 5) =~= x.subrange(0, 5));
    } else if is_prefix(lt_entity(), x) {
        assert(xy.subrange(0, 4) =~= x.subrange(0, 4));
    } else if is_prefix(gt_entity(), x) {
        assert(xy.subrange(0, 4) =~= x.subrange(0, 4));
    } else if is_prefix(quot_entity(), x) {
        assert(xy.subrange(0, 6) =~= x.subrange(0, 6));
    } else {
        assert(xy.subrange(0, 6) =~= x.subrange(0, 6));
    }
}

/// In escaped text every `&` starts one of the five entities.
proof fn lemma_escaped_ampersands(s: Seq<char>)
    ensures
        forall|i: int|
            0 <= i < escape_xml_spec(s).len() && #[trigger] escape_xml_spec(s)[i] == '&'
                ==> starts_with_entity(escape_xml_spec(s).skip(i)),
    decreases s.len(),
{
    if s.len() > 0 {
        let t = s.drop_last();
        let c = s.last();
        lemma_escaped_ampersands(t);
        let et = escape_xml_spec(t);
        let ec = escape_char(c);
        let e = escape_xml_spec(s);
        assert(e == et + ec);
        reveal_strlit("&amp;");
        reveal_strlit("&lt;");
        reveal_strlit("&gt;");
        reveal_strlit("&quot;");
        reveal_strlit("&apos;");
        assert forall|i: int| 0 <= i < e.len() && #[trigger] e[i] == '&' implies starts_with_entity(e.skip(i)) by {
            if i < et.len() {
                assert(e[i] == et[i]);
                lemma_entity_prefix_extends(et.skip(i), ec);
                assert(e.skip(i) =~= et.skip(i) + ec);
            } else {
                assert(e[i] == ec[i - et.len()]);
                assert(e.skip(i) =~= ec.skip(i - et.len()));
                if c == '&' {
                    assert(ec =~= amp_entity());
                    assert(i == et.len());
                    assert(ec.skip(0) =~= ec);
                    assert(ec.subrange(0, 5) =~= ec);
                } else if c == '<' {
                    assert(ec =~= lt_entity());
                    assert(i == et.len());
                    assert(ec.skip(0) =~= ec);
                    assert(ec.subrange(0, 4) =~= ec);
                } else if c == '>' {
                    assert(ec =~= gt_entity());
                    assert(i == et.len());
                    assert(ec.skip(0) =~= ec);
                    assert(ec.subrange(0, 4) =~= ec);
                } else if c == '"' {
                    assert(ec =~= quot_entity());
                    assert(i == et.len());
                    assert(ec.skip(0) =~= ec);
                    assert(ec.subrange(0, 6) =~= ec);
                } else if c == '\'' {
                    assert(ec =~= apos_entity());
                    assert(i == et.len());
                    assert(ec.skip(0) =~= ec);
                    assert(ec.subrange(0, 6) =~= ec);
                } else {
                    assert(ec =~= seq![c]);
                }
            }
        }
    }
}

/// Escapes XML special characters.
pub fn escape_xml(s: &str) -> (r: String)
    ensures
        r@ == escape_xml_spec(s@),
{
    let cs = chars_of(s);
    let mut out: Vec<char> = Vec::new();
    let mut i: usize = 0;
    while i < cs.len()
        invariant
            i <= cs.len(),
            cs@ == s@,
            out@ == escape_xml_spec(cs@.take(i as int)),
        decreases cs.len() - i,
    {
        let c = cs[i];
        if c == '&' {
            push_str(&mut out, "&amp;");
        } else if c == '<' {
            push_str(&mut out, "&lt;");
        } else if c == '>' {
            push_str(&mut out, "&gt;");
        } else if c == '"' {
            push_str(&mut out, "&quot;");
        } else if c == '\'' {
            push_str(&mut out, "&apos;");
        } else {
            out.push(c);
        }
        assert(cs@.take(i + 1).drop_last() =~= cs@.take(i as int));
        assert(cs@.take(i + 1).last() == c);
        i += 1;
    }
    assert(cs@.take(cs@.len() as int) =~= cs@);
    string_of(&out)
}

/// The decimal digits of a natural number.
pub open spec fn decimal(n: nat) -> Seq<char>
    decreases n,
{
    if n < 10 {
        seq![digit_char(n)]
    } else {
        decimal(n / 10) + seq![digit_char(n % 10)]
    }
}

/// The digit character of a number below ten.
pub open spec fn digit_char(d: nat) -> char {
    if d == 0 {
        '0'
    } else if d == 1 {
        '1'
    } else if d == 2 {
        '2'
    } else if d == 3 {
        '3'
    } else if d == 4 {
        '4'
    } else if d == 5 {
        '5'
    } else if d == 6 {
        '6'
    } else if d == 7 {
        '7'
    } else if d == 8 {
        '8'
    } else {
        '9'
    }
}

fn digit(d: u64) -> (c: char)
    requires
        d < 10,
    ensures
        c == digit_char(d as nat),
{
    if d == 0 {
        '0'
    } else if d == 1 {
        '1'
    } else if d == 2 {
        '2'
    } else if d == 3 {
        '3'
    } else if d == 4 {
        '4'
    } else if d == 5 {
        '5'
    } else if d == 6 {
        '6'
    } else if d == 7 {
        '7'
    } else if d == 8 {
        '8'
    } else {
        '9'
    }
}

/// The decimal representation of a number (what `to_string` gives).
pub fn usize_to_decimal(n: usize) -> (r: String)
    ensures
        r@ == decimal(n as nat),
{
    u64_to_decimal(n as u64)
}

/// The decimal representation of a signed number: a `-` before the digits of
/// its magnitude when negative.
pub open spec fn int_decimal(v: int) -> Seq<char> {
    if v < 0 {
        "-"@ + decimal((-v) as nat)
    } else {
        decimal(v as nat)
    }
}

/// The decimal representation of an `i64` (what `to_string` gives).
pub fn i64_to_decimal(v: i64) -> (r: String)
    ensures
        r@ == int_decimal(v as int),
{
    if v < 0 {
        let m: u64 = if v == i64::MIN {
            9223372036854775808u64
        } else {
            (-v) as u64
        };
        let mut r = String::from_str("-");
        r.append(u64_to_decimal(m).as_str());
        r
    } else {
        u64_to_decimal(v as u64)
    }
}

/// The decimal representation of a `u64`.
pub fn u64_to_decimal(n: u64) -> (r: String)
    ensures
        r@ == decimal(n as nat),
{
    let mut digits: Vec<char> = Vec::new();
    let mut m = n;
    loop
        invariant_except_break
            decimal(n as nat) == decimal(m as nat) + digits@.reverse(),
        ensures
            decimal(n as nat) == digits@.reverse(),
        decreases m,
    {
        if m < 10 {
            let ghost old_digits = digits@;
            digits.push(digit(m));
            proof {
                assert(decimal(m as nat) == seq![digit_char(m as nat)]);
                assert(digits@.reverse() =~= seq![digit_char(m as nat)] + old_digits.reverse());
            }
            break;
        }
        let d = m % 10;
        let ghost old_digits = digits@;
        digits.push(digit(d));
        proof {
            assert(decimal(m as nat) == decimal((m / 10) as nat) + seq![digit_char((m % 10) as nat)]);
            assert(digits@.reverse() =~= seq![digit_char(d as nat)] + old_digits.reverse());
        }
        m = m / 10;
    }
    let mut out: Vec<char> = Vec::new();
    let mut i = digits.len();
    while i > 0
        invariant
            i <= digits.len(),
            out@ == digits@.subrange(i as int, digits@.len() as int).reverse(),
        decreases i,
    {
        out.push(digits[i - 1]);
        i -= 1;
        assert(digits@.subrange(i as int, digits@.len() as int).reverse() =~= digits@.subrange(
            i + 1,
            digits@.len() as int,
        ).reverse().push(digits@[i as int]));
    }
    assert(digits@.subrange(0, digits@.len() as int) =~= digits@);
    assert(out@ =~= digits@.reverse());
    string_of(&out)
}

/// `p` occurs in `s`.
pub open spec fn contains_seq(s: Seq<char>, p: Seq<char>) -> bool {
    exists|i: int| 0 <= i && i + p.len() <= s.len() && #[trigger] s.subrange(i, i + p.len()) == p
}

/// Text that holds `p` still does with more text around it.
pub proof fn lemma_contains_seq_within(a: Seq<char>, s: Seq<char>, b: Seq<char>, p: Seq<char>)
    requires
        contains_seq(s, p),
    ensures
        contains_seq(a + s + b, p),
{
    let i = choose|i: int| 0 <= i && i + p.len() <= s.len() && #[trigger] s.subrange(i, i + p.len()) == p;
    let t = a + s + b;
    assert(t.subrange(a.len() + i, a.len() + i + p.len()) =~= s.subrange(i, i + p.len()));
}

/// Each item of a joined list occurs in the joined text.
pub proof fn lemma_joined_contains(ls: Seq<Seq<char>>, sep: Seq<char>, j: int)
    requires
        0 <= j < ls.len(),
    ensures
        contains_seq(joined(ls, sep), ls[j]),
    decreases ls.len(),
{
    if ls.len() == 1 {
        assert(joined(ls, sep) == ls[0]);
        assert(joined(ls, sep).subrange(0, 0 + ls[0].len() as int) =~= ls[0]);
    } else {
        let front = joined(ls.drop_last(), sep);
        let text = joined(ls, sep);
        assert(text == front + sep + ls.last());
        if j == ls.len() - 1 {
            let o = (front + sep).len() as int;
            assert(ls.last() == ls[j]);
            assert(text.subrange(o, o + ls[j].len()) =~= ls[j]);
        } else {
            lemma_joined_contains(ls.drop_last(), sep, j);
            assert(ls.drop_last()[j] == ls[j]);
            lemma_contains_seq_within(Seq::empty(), front, sep + ls.last(), ls[j]);
            assert(Seq::<char>::empty() + front + (sep + ls.last()) =~= text);
        }
    }
}

/// Whether `p` occurs in `s`.
pub fn contains_chars(s: &[char], p: &[char]) -> (r: bool)
    ensures
        r == contains_seq(s@, p@),
{
    if p.len() > s.len() {
        return false;
    }
    if p.len() == 0 {
        assert(s@.subrange(0, 0 + p@.len() as int) =~= p@);
        return true;
    }
    let mut i: usize = 0;
    let last = s.len() - p.len();
    while i <= last
        invariant
            p@.len() <= s@.len(),
            last == s@.len() - p@.len(),
            p@.len() >= 1,
            s@.len() <= usize::MAX,
            i <= last + 1,
            forall|j: int| 0 <= j < i ==> #[trigger] s@.subrange(j, j + p@.len()) != p@,
        decreases last + 1 - i,
    {
        let w = slice_to_vec(s, i, i + p.len());
        if chars_eq(w.as_slice(), p) {
            assert(s@.subrange(i as int, i + p@.len()) == p@);
            return true;
        }
        i += 1;
    }
    false
}

/// `s` with each occurrence of the non-empty `pat` replaced by `rep`,
/// from left to right without overlaps (`str::replace`).
pub open spec fn replace_all(s: Seq<char>, pat: Seq<char>, rep: Seq<char>) -> Seq<char>
    decreases s.len(),
{
    if s.len() == 0 {
        Seq::empty()
    } else if pat.len() > 0 && is_prefix(pat, s) {
        rep + replace_all(s.skip(pat.len() as int), pat, rep)
    } else {
        seq![s[0]] + replace_all(s.drop_first(), pat, rep)
    }
}

/// `s` with each occurrence of `pat` replaced by `rep`; see `replace_all`.
pub fn replace_text(s: &str, pat: &str, rep: &str) -> (r: String)
    requires
        pat@.len() > 0,
    ensures
        r@ == replace_all(s@, pat@, rep@),
{
    let cs = chars_of(s);
    let ps = chars_of(pat);
    let rs = chars_of(rep);
    let n = cs.len();
    let mut out: Vec<char> = Vec::new();
    let mut i: usize = 0;
    assert(cs@.skip(0) =~= cs@);
    while i < n
        invariant
            i <= n == cs@.len(),
            cs@ == s@,
            ps@ == pat@,
            rs@ == rep@,
            pat@.len() > 0,
            replace_all(s@, pat@, rep@) == out@ + replace_all(cs@.skip(i as int), pat@, rep@),
        decreases n - i,
    {
        let rest = slice_to_vec(cs.as_slice(), i, n);
        assert(rest@ =~= cs@.skip(i as int));
        if starts_with(rest.as_slice(), ps.as_slice()) {
            push_chars(&mut out, rs.as_slice());
            assert(cs@.skip(i as int).skip(ps@.len() as int) =~= cs@.skip(i + ps@.len()));
            i = i + ps.len();
        } else {
            out.push(cs[i]);
            assert(cs@.skip(i as int).drop_first() =~= cs@.skip(i + 1));
            i += 1;
        }
    }
    assert(cs@.skip(i as int) =~= Seq::<char>::empty());
    assert(out@ =~= replace_all(s@, pat@, rep@));
    string_of(out.as_slice())
}

} // verus!
