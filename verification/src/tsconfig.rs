//! `tsconfig.json`: comments removed before reading, and the `paths`
//! aliases of `compilerOptions` resolved against `baseUrl`.
use crate::paths::{join, path_join};
use crate::text::{chars_of, is_prefix, starts_with, string_of, str_eq, concat2, slice_to_vec};
use vstd::prelude::*;

verus! {

/// A `tsconfig.json` file.
#[derive(Debug)]
pub struct TsConfig {
    pub compiler_options: CompilerOptions,
}

/// The `compilerOptions` of a `tsconfig.json`.
#[derive(Debug)]
pub struct CompilerOptions {
    pub base_url: Option<String>,
    /// Each alias pattern with its replacements.
    pub paths: Vec<(String, Vec<String>)>,
}

/// Where the scan of a JSON text stands.
#[derive(Debug, Clone, Copy)]
pub enum ScanState {
    Normal,
    InString,
    LineComment,
    BlockComment,
}

/// The text that remains of `s`, scanned from state `st`, once comments are
/// removed: `//` comments up to (not including) the end of the line and
/// `/* */` comments disappear; strings, with their escapes, are kept.
pub open spec fn strip_comments(st: ScanState, s: Seq<char>) -> Seq<char>
    decreases s.len(),
{
    if s.len() == 0 {
        Seq::empty()
    } else {
        let c = s[0];
        let rest = s.drop_first();
        match st {
            ScanState::Normal => if c == '"' {
                seq![c] + strip_comments(ScanState::InString, rest)
            } else if c == '/' && rest.len() > 0 && rest[0] == '/' {
                strip_comments(ScanState::LineComment, rest)
            } else if c == '/' && rest.len() > 0 && rest[0] == '*' {
                strip_comments(ScanState::BlockComment, rest.drop_first())
            } else {
                seq![c] + strip_comments(ScanState::Normal, rest)
            },
            ScanState::InString => if c == '"' {
                seq![c] + strip_comments(ScanState::Normal, rest)
            } else if c == '\\' && rest.len() > 0 {
                seq![c, rest[0]] + strip_comments(ScanState::InString, rest.drop_first())
            } else {
                seq![c] + strip_comments(ScanState::InString, rest)
            },
            ScanState::LineComment => if c == '\n' {
                seq!['\n'] + strip_comments(ScanState::Normal, rest)
            } else {
                strip_comments(ScanState::LineComment, rest)
            },
            ScanState::BlockComment => if c == '*' && rest.len() > 0 && rest[0] == '/' {
                strip_comments(ScanState::Normal, rest.drop_first())
            } else {
                strip_comments(ScanState::BlockComment, rest)
            },
        }
    }
}

/// A JSON text without its comments; see `strip_comments`.
pub fn remove_json_comments(input: &str) -> (r: String)
    ensures
        r@ == strip_comments(ScanState::Normal, input@),
{
    let s = chars_of(input);
    let n = s.len();
    let mut out: Vec<char> = Vec::new();
    let mut st = ScanState::Normal;
    let mut i: usize = 0;
    assert(s@.skip(0) =~= s@);
    while i < n
        invariant
            i <= n == s@.len(),
            s@ == input@,
            strip_comments(ScanState::Normal, s@) == out@ + strip_comments(st, s@.skip(i as int)),
        decreases n - i,
    {
        let c = s[i];
        let ghost before = out@;
        let ghost rest = s@.skip(i as int);
        assert(rest[0] == c);
        assert(rest.drop_first() =~= s@.skip(i + 1));
        assert(i + 1 < n ==> rest.drop_first()[0] == s@[i + 1]);
        assert(i + 1 < n ==> rest.drop_first().drop_first() =~= s@.skip(i + 2));
        match st {
            ScanState::Normal => {
                if c == '"' {
                    out.push(c);
                    st = ScanState::InString;
                    i += 1;
                } else if c == '/' && i + 1 < n && s[i + 1] == '/' {
                    st = ScanState::LineComment;
                    i += 1;
                } else if c == '/' && i + 1 < n && s[i + 1] == '*' {
                    st = ScanState::BlockComment;
                    i += 2;
                } else {
                    out.push(c);
                    i += 1;
                }
            },
            ScanState::InString => {
                if c == '"' {
                    out.push(c);
                    st = ScanState::Normal;
                    i += 1;
                } else if c == '\\' && i + 1 < n {
                    out.push(c);
                    out.push(s[i + 1]);
                    i += 2;
                } else {
                    out.push(c);
                    i += 1;
                }
            },
            ScanState::LineComment => {
                if c == '\n' {
                    out.push('\n');
                    st = ScanState::Normal;
                }
                i += 1;
            },
            ScanState::BlockComment => {
                if c == '*' && i + 1 < n && s[i + 1] == '/' {
                    st = ScanState::Normal;
                    i += 2;
                } else {
                    i += 1;
                }
            },
        }
        assert(strip_comments(ScanState::Normal, s@) =~= out@ + strip_comments(st, s@.skip(i as int)));
    }
    assert(s@.skip(n as int) =~= Seq::<char>::empty());
    assert(out@ =~= strip_comments(ScanState::Normal, s@));
    string_of(out.as_slice())
}

/// A text without `/` loses nothing to comment removal, whether scanned
/// from outside or inside a string.
pub proof fn law_no_slash_unchanged(s: Seq<char>)
    requires
        forall|i: int| 0 <= i < s.len() ==> s[i] != '/',
    ensures
        strip_comments(ScanState::Normal, s) == s,
        strip_comments(ScanState::InString, s) == s,
    decreases s.len(),
{
    if s.len() > 0 {
        let rest = s.drop_first();
        assert forall|i: int| 0 <= i < rest.len() implies rest[i] != '/' by {
            assert(rest[i] == s[i + 1]);
        }
        law_no_slash_unchanged(rest);
        if s[0] == '\\' && rest.len() > 0 {
            let r2 = rest.drop_first();
            assert forall|i: int| 0 <= i < r2.len() implies r2[i] != '/' by {
                assert(r2[i] == s[i + 2]);
            }
            law_no_slash_unchanged(r2);
            assert(seq![s[0], rest[0]] + r2 =~= s);
        }
        assert(seq![s[0]] + rest =~= s);
    }
}

/// The inside of a string is kept as it is, comment markers included: text
/// without a quote or a backslash read inside a string, then the closing
/// quote, leaves that text and the quote, and the scan goes on outside the string.
pub proof fn law_string_kept(x: Seq<char>, rest: Seq<char>)
    requires
        forall|i: int| 0 <= i < x.len() ==> x[i] != '"' && x[i] != '\\',
    ensures
        strip_comments(ScanState::InString, x + seq!['"'] + rest) == x + seq!['"'] + strip_comments(
            ScanState::Normal,
            rest,
        ),
    decreases x.len(),
{
    if x.len() == 0 {
        assert(x + seq!['"'] + rest =~= seq!['"'] + rest);
        assert((seq!['"'] + rest).drop_first() =~= rest);
        assert(x + seq!['"'] =~= seq!['"']);
    } else {
        let t = x.drop_first();
        assert forall|i: int| 0 <= i < t.len() implies t[i] != '"' && t[i] != '\\' by {
            assert(t[i] == x[i + 1]);
        }
        law_string_kept(t, rest);
        assert((x + seq!['"'] + rest).drop_first() =~= t + seq!['"'] + rest);
        assert((x + seq!['"'] + rest)[0] == x[0]);
        assert(x + seq!['"'] =~= seq![x[0]] + (t + seq!['"']));
    }
}

/// A `//` comment goes up to the end of its line: `//`, text without a new
/// line, then a new line leave only the new line.
pub proof fn law_line_comment_removed(x: Seq<char>, rest: Seq<char>)
    requires
        forall|i: int| 0 <= i < x.len() ==> x[i] != '\n',
    ensures
        strip_comments(ScanState::Normal, seq!['/', '/'] + x + seq!['\n'] + rest) == seq!['\n']
            + strip_comments(ScanState::Normal, rest),
{
    let s = seq!['/', '/'] + x + seq!['\n'] + rest;
    assert(s[0] == '/' && s.drop_first()[0] == '/');
    assert(s.drop_first().drop_first() =~= x + seq!['\n'] + rest);
    lemma_line_comment(x, rest);
    lemma_line_comment(seq!['/'] + x, rest);
    assert(s.drop_first() =~= (seq!['/'] + x) + seq!['\n'] + rest);
}

proof fn lemma_line_comment(x: Seq<char>, rest: Seq<char>)
    requires
        forall|i: int| 0 <= i < x.len() ==> x[i] != '\n',
    ensures
        strip_comments(ScanState::LineComment, x + seq!['\n'] + rest) == seq!['\n'] + strip_comments(
            ScanState::Normal,
            rest,
        ),
    decreases x.len(),
{
    if x.len() == 0 {
        assert(x + seq!['\n'] + rest =~= seq!['\n'] + rest);
        assert((seq!['\n'] + rest).drop_first() =~= rest);
    } else {
        let t = x.drop_first();
        assert forall|i: int| 0 <= i < t.len() implies t[i] != '\n' by {
            assert(t[i] == x[i + 1]);
        }
        lemma_line_comment(t, rest);
        assert((x + seq!['\n'] + rest).drop_first() =~= t + seq!['\n'] + rest);
        assert((x + seq!['\n'] + rest)[0] == x[0]);
    }
}

/// The state in which the text left by a scan from `st` is read again: a
/// scan that started inside a string reads its output inside a string, any
/// other from outside.
pub open spec fn rescan_state(st: ScanState) -> ScanState {
    match st {
        ScanState::InString => ScanState::InString,
        _ => ScanState::Normal,
    }
}

/// Text scanned outside a string, whose first character is not `/`, starts
/// with that character once comments are removed.
proof fn lemma_first_kept(s: Seq<char>)
    requires
        s.len() > 0,
        s[0] != '/',
    ensures
        strip_comments(ScanState::Normal, s).len() > 0,
        strip_comments(ScanState::Normal, s)[0] == s[0],
{
}

/// Removing comments twice removes nothing more: the text left by a scan is
/// left unchanged by a second scan (from outside a string, or from inside one
/// when the first scan started there).
pub proof fn law_strip_idempotent(st: ScanState, s: Seq<char>)
    ensures
        strip_comments(rescan_state(st), strip_comments(st, s)) == strip_comments(st, s),
    decreases s.len(),
{
    if s.len() > 0 {
        let c = s[0];
        let rest = s.drop_first();
        match st {
            ScanState::Normal => {
                if c == '"' {
                    law_strip_idempotent(ScanState::InString, rest);
                    let y = strip_comments(ScanState::InString, rest);
                    assert((seq![c] + y).drop_first() =~= y);
                } else if c == '/' && rest.len() > 0 && rest[0] == '/' {
                    law_strip_idempotent(ScanState::LineComment, rest);
                } else if c == '/' && rest.len() > 0 && rest[0] == '*' {
                    law_strip_idempotent(ScanState::BlockComment, rest.drop_first());
                } else {
                    law_strip_idempotent(ScanState::Normal, rest);
                    let y = strip_comments(ScanState::Normal, rest);
                    assert((seq![c] + y).drop_first() =~= y);
                    assert((seq![c] + y)[0] == c);
                    if c == '/' && rest.len() > 0 {
                        lemma_first_kept(rest);
                        assert((seq![c] + y).drop_first()[0] == rest[0]);
                    }
                }
            },
            ScanState::InString => {
                if c == '"' {
                    law_strip_idempotent(ScanState::Normal, rest);
                    let y = strip_comments(ScanState::Normal, rest);
                    assert((seq![c] + y).drop_first() =~= y);
                } else if c == '\\' && rest.len() > 0 {
                    law_strip_idempotent(ScanState::InString, rest.drop_first());
                    let y = strip_comments(ScanState::InString, rest.drop_first());
                    assert((seq![c, rest[0]] + y).drop_first() =~= seq![rest[0]] + y);
                    assert((seq![c, rest[0]] + y).drop_first().drop_first() =~= y);
                    assert(seq![c, (seq![c, rest[0]] + y).drop_first()[0]] =~= seq![c, rest[0]]);
                } else {
                    law_strip_idempotent(ScanState::InString, rest);
                    let y = strip_comments(ScanState::InString, rest);
                    assert((seq![c] + y).drop_first() =~= y);
                    if c == '\\' {
                        assert(y.len() == 0);
                    }
                }
            },
            ScanState::LineComment => {
                if c == '\n' {
                    law_strip_idempotent(ScanState::Normal, rest);
                    let y = strip_comments(ScanState::Normal, rest);
                    assert((seq!['\n'] + y).drop_first() =~= y);
                } else {
                    law_strip_idempotent(ScanState::LineComment, rest);
                }
            },
            ScanState::BlockComment => {
                if c == '*' && rest.len() > 0 && rest[0] == '/' {
                    law_strip_idempotent(ScanState::Normal, rest.drop_first());
                } else {
                    law_strip_idempotent(ScanState::BlockComment, rest);
                }
            },
        }
    }
}

/// Text with no comment marker (`//` or `/*`) outside its strings, read
/// from `st` (outside a string or inside one), strings and their escapes read
/// as the scan reads them.
pub open spec fn without_comments(st: ScanState, s: Seq<char>) -> bool
    decreases s.len(),
{
    if s.len() == 0 {
        true
    } else {
        let c = s[0];
        let rest = s.drop_first();
        match st {
            ScanState::Normal => if c == '"' {
                without_comments(ScanState::InString, rest)
            } else if c == '/' && rest.len() > 0 && (rest[0] == '/' || rest[0] == '*') {
                false
            } else {
                without_comments(ScanState::Normal, rest)
            },
            ScanState::InString => if c == '"' {
                without_comments(ScanState::Normal, rest)
            } else if c == '\\' && rest.len() > 0 {
                without_comments(ScanState::InString, rest.drop_first())
            } else {
                without_comments(ScanState::InString, rest)
            },
            _ => false,
        }
    }
}

/// Text without comment markers loses nothing to comment removal.
proof fn lemma_without_comments_kept(st: ScanState, s: Seq<char>)
    requires
        without_comments(st, s),
    ensures
        strip_comments(st, s) == s,
    decreases s.len(),
{
    if s.len() > 0 {
        let c = s[0];
        let rest = s.drop_first();
        match st {
            ScanState::Normal => {
                if c == '"' {
                    lemma_without_comments_kept(ScanState::InString, rest);
                } else {
                    lemma_without_comments_kept(ScanState::Normal, rest);
                }
                assert(seq![c] + rest =~= s);
            },
            ScanState::InString => {
                if c == '"' {
                    lemma_without_comments_kept(ScanState::Normal, rest);
                    assert(seq![c] + rest =~= s);
                } else if c == '\\' && rest.len() > 0 {
                    lemma_without_comments_kept(ScanState::InString, rest.drop_first());
                    assert(seq![c, rest[0]] + rest.drop_first() =~= s);
                } else {
                    lemma_without_comments_kept(ScanState::InString, rest);
                    assert(seq![c] + rest =~= s);
                }
            },
            _ => {},
        }
    }
}

/// Comment removal as `remove_json_comments` does it (from outside a
/// string): removing comments a second time removes nothing more, and text
/// with no `//` or `/*` outside its strings is left as it is.
pub proof fn law_remove_json_comments(s: Seq<char>)
    ensures
        strip_comments(ScanState::Normal, strip_comments(ScanState::Normal, s)) == strip_comments(
            ScanState::Normal,
            s,
        ),
        without_comments(ScanState::Normal, s) ==> strip_comments(ScanState::Normal, s) == s,
{
    law_strip_idempotent(ScanState::Normal, s);
    if without_comments(ScanState::Normal, s) {
        lemma_without_comments_kept(ScanState::Normal, s);
    }
}

/// Resolves import paths through the `paths` aliases of a `tsconfig.json`.
#[derive(Debug)]
pub struct PathResolver {
    base_url: String,
    /// Each alias pattern with its first replacement.
    paths: Vec<(String, String)>,
}

/// The base directory of a project: `baseUrl` joined to the project root,
/// else the root itself.
pub open spec fn base_dir(base_url: Option<Seq<char>>, root: Seq<char>) -> Seq<char> {
    match base_url {
        Some(b) => path_join(root, b),
        None => root,
    }
}

/// The aliases that a resolver uses: each pattern other than `*` with its
/// first replacement, in order.
pub open spec fn alias_pairs(paths: Seq<(String, Vec<String>)>) -> Seq<(Seq<char>, Seq<char>)>
    decreases paths.len(),
{
    if paths.len() == 0 {
        Seq::empty()
    } else {
        let p = paths.last();
        alias_pairs(paths.drop_last()) + if p.1@.len() > 0 && p.0@ != "*"@ {
            seq![(p.0@, p.1@[0]@)]
        } else {
            Seq::empty()
        }
    }
}

/// What an alias pattern captures of an import: for `prefix/*`, the rest
/// of an import that starts with `prefix/`; for another pattern, nothing
/// (an empty capture) when the import is the pattern itself.
pub open spec fn match_pattern_spec(pattern: Seq<char>, input: Seq<char>) -> Option<Seq<char>> {
    if pattern.len() >= 2 && pattern.skip(pattern.len() - 2) == "/*"@ {
        let prefix = pattern.take(pattern.len() - 2) + "/"@;
        if is_prefix(prefix, input) {
            Some(input.skip(prefix.len() as int))
        } else {
            None
        }
    } else if pattern == input {
        Some(Seq::empty())
    } else {
        None
    }
}

/// `r` with each `*` replaced by `m`.
pub open spec fn replace_star(r: Seq<char>, m: Seq<char>) -> Seq<char>
    decreases r.len(),
{
    if r.len() == 0 {
        Seq::empty()
    } else {
        replace_star(r.drop_last(), m) + if r.last() == '*' {
            m
        } else {
            seq![r.last()]
        }
    }
}

/// Where an import resolves: the replacement of the first alias that
/// matches it, its `*` replaced by the capture, joined to the base
/// directory; else the import itself joined to the base directory.
pub open spec fn resolve_spec(base: Seq<char>, aliases: Seq<(Seq<char>, Seq<char>)>, input: Seq<char>) -> Seq<char>
    decreases aliases.len(),
{
    if aliases.len() == 0 {
        path_join(base, input)
    } else if match_pattern_spec(aliases[0].0, input) is Some {
        path_join(base, replace_star(aliases[0].1, match_pattern_spec(aliases[0].0, input)->0))
    } else {
        resolve_spec(base, aliases.drop_first(), input)
    }
}

/// `r` with each `*` replaced by `m`; see `replace_star`.
fn replace_star_text(r: &str, m: &str) -> (o: String)
    ensures
        o@ == replace_star(r@, m@),
{
    let cs = chars_of(r);
    let ms = chars_of(m);
    let mut out: Vec<char> = Vec::new();
    let mut i: usize = 0;
    while i < cs.len()
        invariant
            i <= cs@.len(),
            cs@ == r@,
            ms@ == m@,
            out@ == replace_star(cs@.take(i as int), m@),
        decreases cs@.len() - i,
    {
        assert(cs@.take(i + 1).drop_last() =~= cs@.take(i as int));
        if cs[i] == '*' {
            crate::text::push_chars(&mut out, ms.as_slice());
        } else {
            out.push(cs[i]);
        }
        assert(out@ =~= replace_star(cs@.take(i + 1), m@));
        i += 1;
    }
    assert(cs@.take(cs@.len() as int) =~= cs@);
    string_of(out.as_slice())
}

impl PathResolver {
    /// The base directory.
    pub closed spec fn base(&self) -> Seq<char> {
        self.base_url@
    }

    /// The aliases with their first replacements, in order.
    pub closed spec fn aliases(&self) -> Seq<(Seq<char>, Seq<char>)> {
        self.paths@.map_values(|p: (String, String)| (p.0@, p.1@))
    }

    /// A resolver for a project: the base directory (see `base_dir`) and the
    /// aliases (see `alias_pairs`).
    pub fn new(tsconfig: &TsConfig, project_root: &str) -> (r: Self)
        ensures
            r.base() == base_dir(
                match tsconfig.compiler_options.base_url {
                    Some(b) => Some(b@),
                    None => None,
                },
                project_root@,
            ),
            r.aliases() == alias_pairs(tsconfig.compiler_options.paths@),
    {
        let base_url = match &tsconfig.compiler_options.base_url {
            Some(b) => join(project_root, b.as_str()),
            None => String::from_str(project_root),
        };
        let ps = &tsconfig.compiler_options.paths;
        let mut paths: Vec<(String, String)> = Vec::new();
        let mut i: usize = 0;
        while i < ps.len()
            invariant
                i <= ps@.len(),
                paths@.map_values(|p: (String, String)| (p.0@, p.1@)) == alias_pairs(ps@.take(i as int)),
            decreases ps@.len() - i,
        {
            assert(ps@.take(i + 1).drop_last() =~= ps@.take(i as int));
            assert(ps@.take(i + 1).last() == ps@[i as int]);
            let (pattern, replacements) = &ps[i];
            let ghost before = paths@;
            if replacements.len() > 0 && !str_eq(pattern.as_str(), "*") {
                paths.push((pattern.clone(), replacements[0].clone()));
                assert(paths@.map_values(|p: (String, String)| (p.0@, p.1@)) =~= before.map_values(
                    |p: (String, String)| (p.0@, p.1@),
                ).push((pattern@, replacements@[0]@)));
            }
            assert(paths@.map_values(|p: (String, String)| (p.0@, p.1@)) =~= alias_pairs(ps@.take(i + 1)));
            i += 1;
        }
        assert(ps@.take(ps@.len() as int) =~= ps@);
        PathResolver { base_url, paths }
    }

    /// What an alias pattern captures of an import; see `match_pattern_spec`.
    pub fn match_pattern(&self, pattern: &str, input: &str) -> (r: Option<String>)
        ensures
            match r {
                Some(m) => match_pattern_spec(pattern@, input@) == Some(m@),
                None => match_pattern_spec(pattern@, input@) is None,
            },
    {
        let p = chars_of(pattern);
        let n = p.len();
        proof {
            reveal_strlit("/*");
            reveal_strlit("/");
        }
        if n >= 2 && p[n - 2] == '/' && p[n - 1] == '*' {
            assert(p@.skip(n - 2) =~= "/*"@);
            let mut prefix = slice_to_vec(&p, 0, n - 2);
            prefix.push('/');
            assert(prefix@ =~= p@.take(n - 2) + "/"@);
            let inp = chars_of(input);
            if starts_with(&inp, &prefix) {
                let rest = slice_to_vec(&inp, prefix.len(), inp.len());
                assert(rest@ =~= input@.skip(prefix@.len() as int));
                return Some(string_of(rest.as_slice()));
            }
            return None;
        }
        proof {
            if n >= 2 && p@.skip(n - 2) == "/*"@ {
                assert(p@.skip(n - 2)[0] == p@[n - 2]);
                assert(p@.skip(n - 2)[1] == p@[n - 1]);
            }
        }
        if str_eq(pattern, input) {
            Some(String::new())
        } else {
            None
        }
    }

    /// Where an import resolves; see `resolve_spec`.
    pub fn resolve(&self, import_path: &str) -> (r: String)
        ensures
            r@ == resolve_spec(self.base(), self.aliases(), import_path@),
    {
        let ghost al = self.aliases();
        let mut i: usize = 0;
        assert(al.skip(0) =~= al);
        while i < self.paths.len()
            invariant
                i <= self.paths@.len(),
                al == self.aliases(),
                resolve_spec(self.base(), al, import_path@) == resolve_spec(self.base(), al.skip(i as int), import_path@),
            decreases self.paths@.len() - i,
        {
            let (pattern, replacement) = &self.paths[i];
            assert(al.skip(i as int)[0] == (pattern@, replacement@));
            assert(al.skip(i as int).drop_first() =~= al.skip(i + 1));
            if let Some(m) = self.match_pattern(pattern.as_str(), import_path) {
                let resolved = replace_star_text(replacement.as_str(), m.as_str());
                return join(self.base_url.as_str(), resolved.as_str());
            }
            i += 1;
        }
        assert(al.skip(i as int) =~= Seq::<(Seq<char>, Seq<char>)>::empty());
        join(self.base_url.as_str(), import_path)
    }
}

} // verus!
