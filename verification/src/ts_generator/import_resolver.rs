//! Import paths from generated files to the sources of their classes.
use crate::paths::{diff_paths, parent, path_diff_of, path_parent};
use crate::text::{chars_of, concat2, contains_chars, contains_seq, find_char, first_index, has_char, is_prefix, is_suffix, slice_to_vec, starts_with, string_of};
use crate::tsconfig::TsConfig;
use vstd::prelude::*;

verus! {

/// Resolves the import path of a source file from a generated file.
#[derive(Debug)]
pub struct ImportResolver {
    /// The `paths` aliases of the `tsconfig.json`.
    paths: Vec<(String, Vec<String>)>,
    /// The `baseUrl` of the `tsconfig.json`.
    base_url: Option<String>,
}

/// `s` with each `\` replaced by `/`.
pub open spec fn forward_slashes(s: Seq<char>) -> Seq<char> {
    s.map_values(|c: char| if c == '\\' { '/' } else { c })
}

/// The position of the first occurrence of `p` in `s`, or -1.
pub open spec fn find_seq(s: Seq<char>, p: Seq<char>) -> int
    decreases s.len(),
{
    if is_prefix(p, s) {
        0
    } else if s.len() == 0 {
        -1
    } else if find_seq(s.drop_first(), p) < 0 {
        -1
    } else {
        find_seq(s.drop_first(), p) + 1
    }
}

/// Where `find_seq` finds `p`, `p` starts.
pub proof fn lemma_find_seq(s: Seq<char>, p: Seq<char>)
    ensures
        find_seq(s, p) >= 0 ==> find_seq(s, p) <= s.len() && is_prefix(p, s.skip(find_seq(s, p))),
    decreases s.len(),
{
    if is_prefix(p, s) {
        assert(s.skip(0) =~= s);
    } else if s.len() > 0 {
        lemma_find_seq(s.drop_first(), p);
        if find_seq(s.drop_first(), p) >= 0 {
            assert(s.drop_first().skip(find_seq(s.drop_first(), p)) =~= s.skip(find_seq(s, p)));
        }
    }
}

/// What precedes the first `/` of `s` (all of it without one).
pub open spec fn first_segment(s: Seq<char>) -> Seq<char> {
    if has_char(s, '/') {
        s.take(first_index(s, '/'))
    } else {
        s
    }
}

/// The package of a path inside `node_modules`: `@scope/name` for a scoped
/// package, else its first segment; a path outside `node_modules` is kept.
pub open spec fn package_name(path: Seq<char>) -> Seq<char> {
    let n = forward_slashes(path);
    let i = find_seq(n, "node_modules/"@);
    if i < 0 {
        path
    } else {
        let after = n.skip(i + 13);
        if after.len() > 0 && after[0] == '@' && has_char(after, '/') {
            let rest = after.skip(first_index(after, '/') + 1);
            first_segment(after) + "/"@ + first_segment(rest)
        } else {
            first_segment(after)
        }
    }
}

/// `s` without its trailing `.ts` suffixes.
pub open spec fn strip_ts(s: Seq<char>) -> Seq<char>
    decreases s.len(),
{
    if s.len() >= 3 && is_suffix(".ts"@, s) {
        strip_ts(s.take(s.len() - 3))
    } else {
        s
    }
}

/// The relative import of `to` from the file `from`: the path of `to`
/// relative to the directory of `from` (`.` without one), with forward
/// slashes, without `.ts`, starting with `.` (else `./` is put before it);
/// `to` itself when there is no relative path.
pub open spec fn relative_import(from: Seq<char>, to: Seq<char>) -> Seq<char> {
    let dir = match path_parent(from) {
        Some(d) => d,
        None => "."@,
    };
    match path_diff_of(to, dir) {
        Some(p) => {
            let s = strip_ts(forward_slashes(p));
            if s.len() > 0 && s[0] == '.' {
                s
            } else {
                "./"@ + s
            }
        },
        None => to,
    }
}

/// The import of `to` from `from`: its package when it lies inside
/// `node_modules`, else its relative import.
pub open spec fn import_of(from: Seq<char>, to: Seq<char>) -> Seq<char> {
    if contains_seq(to, "node_modules"@) {
        package_name(to)
    } else {
        relative_import(from, to)
    }
}

/// `s` with each `\` replaced by `/`.
fn to_forward_slashes(s: &[char]) -> (r: Vec<char>)
    ensures
        r@ == forward_slashes(s@),
{
    let mut r: Vec<char> = Vec::new();
    let mut i: usize = 0;
    while i < s.len()
        invariant
            i <= s@.len(),
            r@ == forward_slashes(s@.take(i as int)),
        decreases s@.len() - i,
    {
        r.push(if s[i] == '\\' { '/' } else { s[i] });
        assert(r@ =~= forward_slashes(s@.take(i + 1)));
        i += 1;
    }
    assert(s@.take(s@.len() as int) =~= s@);
    r
}

/// The position of the first occurrence of `p` in `s`; see `find_seq`.
fn find_chars(s: &[char], p: &[char]) -> (r: Option<usize>)
    ensures
        match r {
            Some(i) => find_seq(s@, p@) == i && i <= s@.len(),
            None => find_seq(s@, p@) < 0,
        },
{
    let n = s.len();
    let mut i: usize = 0;
    assert(s@.skip(0) =~= s@);
    while i < n
        invariant
            i <= n == s@.len(),
            find_seq(s@, p@) == (if find_seq(s@.skip(i as int), p@) < 0 {
                -1
            } else {
                find_seq(s@.skip(i as int), p@) + i
            }),
        decreases n - i,
    {
        let rest = slice_to_vec(s, i, n);
        assert(rest@ =~= s@.skip(i as int));
        if starts_with(rest.as_slice(), p) {
            return Some(i);
        }
        assert(s@.skip(i as int).drop_first() =~= s@.skip(i + 1));
        i += 1;
    }
    let rest = slice_to_vec(s, n, n);
    assert(rest@ =~= s@.skip(n as int));
    if starts_with(rest.as_slice(), p) {
        return Some(n);
    }
    None
}

/// What precedes the first `/` (all of it without one); see `first_segment`.
fn first_segment_chars(s: &[char]) -> (r: Vec<char>)
    ensures
        r@ == first_segment(s@),
{
    match find_char(s, '/') {
        Some(k) => {
            let r = slice_to_vec(s, 0, k);
            assert(r@ =~= s@.take(k as int));
            r
        },
        None => slice_to_vec(s, 0, s.len()),
    }
}

/// `s` without its trailing `.ts` suffixes; see `strip_ts`.
fn strip_ts_chars(s: &[char]) -> (r: Vec<char>)
    ensures
        r@ == strip_ts(s@),
{
    proof {
        reveal_strlit(".ts");
    }
    let mut n = s.len();
    assert(s@.take(n as int) =~= s@);
    while n >= 3 && s[n - 3] == '.' && s[n - 2] == 't' && s[n - 1] == 's'
        invariant
            n <= s@.len(),
            strip_ts(s@) == strip_ts(s@.take(n as int)),
        decreases n,
    {
        proof {
            reveal_strlit(".ts");
        }
        assert(s@.take(n as int).subrange(n - 3, n as int) =~= ".ts"@);
        assert(is_suffix(".ts"@, s@.take(n as int)));
        assert(s@.take(n as int).take(n - 3) =~= s@.take(n - 3));
        n -= 3;
    }
    proof {
        reveal_strlit(".ts");
        let t = s@.take(n as int);
        if t.len() >= 3 && is_suffix(".ts"@, t) {
            assert(t.subrange(t.len() - 3, t.len() as int)[0] == t[t.len() - 3]);
            assert(t.subrange(t.len() - 3, t.len() as int)[1] == t[t.len() - 2]);
            assert(t.subrange(t.len() - 3, t.len() as int)[2] == t[t.len() - 1]);
        }
    }
    let r = slice_to_vec(s, 0, n);
    assert(r@ =~= s@.take(n as int));
    r
}

/// Alias patterns with their replacements, as plain values.
pub open spec fn alias_views(ps: Seq<(String, Vec<String>)>) -> Seq<(Seq<char>, Seq<Seq<char>>)> {
    ps.map_values(|p: (String, Vec<String>)| (p.0@, crate::text::views(p.1@)))
}

impl ImportResolver {
    /// The `paths` aliases kept from the `tsconfig.json`, in order.
    pub closed spec fn aliases(&self) -> Seq<(Seq<char>, Seq<Seq<char>>)> {
        alias_views(self.paths@)
    }

    /// The `baseUrl` kept from the `tsconfig.json`.
    pub closed spec fn base_url_view(&self) -> Option<Seq<char>> {
        match self.base_url {
            Some(b) => Some(b@),
            None => None,
        }
    }

    /// A resolver for a `tsconfig.json`: it keeps the `paths` aliases and the
    /// `baseUrl` (resolution does not use them).
    pub fn new(tsconfig: &TsConfig) -> (r: Self)
        ensures
            r.aliases() == alias_views(tsconfig.compiler_options.paths@),
            r.base_url_view() == match tsconfig.compiler_options.base_url {
                Some(b) => Some(b@),
                None => None::<Seq<char>>,
            },
    {
        let ps = &tsconfig.compiler_options.paths;
        let mut paths: Vec<(String, Vec<String>)> = Vec::new();
        let mut i: usize = 0;
        while i < ps.len()
            invariant
                i <= ps@.len(),
                alias_views(paths@) == alias_views(ps@.take(i as int)),
            decreases ps@.len() - i,
        {
            let ghost before = paths@;
            let entry = (ps[i].0.clone(), crate::text::copy_strings(&ps[i].1));
            paths.push(entry);
            assert(alias_views(paths@) =~= alias_views(before).push((ps@[i as int].0@, crate::text::views(ps@[i as int].1@))));
            assert(alias_views(ps@.take(i + 1)) =~= alias_views(ps@.take(i as int)).push(
                (ps@[i as int].0@, crate::text::views(ps@[i as int].1@)),
            ));
            i += 1;
        }
        assert(ps@.take(ps@.len() as int) =~= ps@);
        let base_url = match &tsconfig.compiler_options.base_url {
            Some(b) => Some(b.clone()),
            None => None,
        };
        ImportResolver { paths, base_url }
    }

    /// A resolver without aliases or `baseUrl`.
    pub fn empty() -> (r: Self)
        ensures
            r.aliases() == Seq::<(Seq<char>, Seq<Seq<char>>)>::empty(),
            r.base_url_view() is None,
    {
        let r = ImportResolver { paths: Vec::new(), base_url: None };
        assert(alias_views(r.paths@) =~= Seq::<(Seq<char>, Seq<Seq<char>>)>::empty());
        r
    }

    /// The import of `to` from `from`; see `import_of`.
    pub fn resolve(&self, from: &str, to: &str) -> (r: String)
        ensures
            r@ == import_of(from@, to@),
    {
        if contains_chars(chars_of(to).as_slice(), chars_of("node_modules").as_slice()) {
            return self.extract_package_name(to);
        }
        self.calculate_relative_path(from, to)
    }

    /// The package of a path inside `node_modules`; see `package_name`.
    pub fn extract_package_name(&self, path: &str) -> (r: String)
        ensures
            r@ == package_name(path@),
    {
        proof {
            reveal_strlit("node_modules/");
        }
        let n = to_forward_slashes(chars_of(path).as_slice());
        let marker = chars_of("node_modules/");
        match find_chars(n.as_slice(), marker.as_slice()) {
            None => String::from_str(path),
            Some(i) => {
                assert(i + 13 <= n@.len()) by {
                    reveal_strlit("node_modules/");
                    lemma_find_seq(n@, marker@);
                    assert(is_prefix("node_modules/"@, n@.skip(i as int)));
                }
                assert(i + 13 <= n.len());
                let after = slice_to_vec(n.as_slice(), i + 13, n.len());
                assert(after@ =~= n@.skip(i + 13));
                if after.len() > 0 && after[0] == '@' {
                    if let Some(k) = find_char(after.as_slice(), '/') {
                        let seg1 = first_segment_chars(after.as_slice());
                        let rest = slice_to_vec(after.as_slice(), k + 1, after.len());
                        assert(rest@ =~= after@.skip(k + 1));
                        let seg2 = first_segment_chars(rest.as_slice());
                        let mut r = string_of(seg1.as_slice());
                        r.append("/");
                        r.append(string_of(seg2.as_slice()).as_str());
                        return r;
                    }
                }
                string_of(first_segment_chars(after.as_slice()).as_slice())
            },
        }
    }

    /// The relative import of `to` from `from`; see `relative_import`.
    pub fn calculate_relative_path(&self, from: &str, to: &str) -> (r: String)
        ensures
            r@ == relative_import(from@, to@),
    {
        let dir = match parent(from) {
            Some(d) => d,
            None => String::from_str("."),
        };
        match diff_paths(to, dir.as_str()) {
            Some(p) => {
                let s = strip_ts_chars(to_forward_slashes(chars_of(p.as_str()).as_slice()).as_slice());
                if s.len() > 0 && s[0] == '.' {
                    string_of(s.as_slice())
                } else {
                    concat2("./", string_of(s.as_slice()).as_str())
                }
            },
            None => String::from_str(to),
        }
    }
}

} // verus!
