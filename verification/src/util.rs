//! Path mapping, discovery decisions, and compiler-diagnostic parsing.

use vstd::prelude::*;
use vstd::string::*;
use crate::ninja;

verus! {

/// Error for a source declaration that does not carry the required
/// C-source suffix.
pub struct BuildError {
    /// The offending source declaration.
    pub src: String,
}

/// The message text reported for a bad source declaration.
pub open spec fn build_error_text(src: Seq<char>) -> Seq<char> {
    src + ": expected c source file"@
}

impl BuildError {
    /// The human-readable message: the offending declaration, then the
    /// reason.
    pub fn message(&self) -> (r: String)
        ensures
            r@ == build_error_text(self.src@),
    {
        let mut s = self.src.clone();
        s.append(": expected c source file");
        s
    }
}

/// Index of the last path separator in `s`, or `-1` if there is none.
pub open spec fn last_slash(s: Seq<char>) -> int
    decreases s.len(),
{
    if s.len() == 0 {
        -1
    } else if s.last() == '/' {
        s.len() - 1
    } else {
        last_slash(s.drop_last())
    }
}

/// The path containing `s`: everything before the last separator, or empty
/// if `s` is a bare file name.
pub open spec fn parent_dir(s: Seq<char>) -> Seq<char> {
    if last_slash(s) < 0 {
        Seq::<char>::empty()
    } else {
        s.take(last_slash(s))
    }
}

/// Join of a directory and a relative path, as pushing a relative
/// component onto a path does: no separator is added to an empty base.
pub open spec fn path_join(a: Seq<char>, b: Seq<char>) -> Seq<char> {
    if a.len() == 0 {
        b
    } else {
        a + "/"@ + b
    }
}

/// Whether a source declaration ends in the required C-source suffix.
pub open spec fn ends_in_c(s: Seq<char>) -> bool {
    s.len() >= 2 && s.subrange(s.len() - 2, s.len() as int) == ".c"@
}

/// The object file name: the source suffix rewritten to the object suffix.
pub open spec fn object_name(s: Seq<char>) -> Seq<char> {
    s.take(s.len() - 2) + ".o"@
}

/// Where a declared source lives: relative to the directory of the
/// description file that declares it.
pub open spec fn source_path(base: Seq<char>, src: Seq<char>) -> Seq<char> {
    path_join(parent_dir(base), src)
}

/// Where the intermediate object goes: the description file's directory,
/// mirrored under the build-output root, with the suffix rewritten.
pub open spec fn object_path(base: Seq<char>, src: Seq<char>) -> Seq<char> {
    path_join(parent_dir(path_join("bld"@, base)), object_name(src))
}

/// The compile statement for one translation unit with its discovered
/// header dependencies.
pub open spec fn compile_statement(
    src: Seq<char>,
    obj: Seq<char>,
    deps: Seq<Seq<char>>,
) -> ninja::BuildStatementV {
    ninja::BuildStatementV {
        input: src,
        output: obj,
        rule: ninja::rule_name(ninja::Rules::ModCompile),
        variables: Seq::<ninja::VariableV>::empty(),
        implicit_deps: deps,
    }
}

/// Compare two strings by their character sequences.
fn str_eq(a: &str, b: &str) -> (r: bool)
    ensures
        r == (a@ == b@),
{
    let na = a.unicode_len();
    let nb = b.unicode_len();
    if na != nb {
        return false;
    }
    let mut i: usize = 0;
    while i < na
        invariant
            i <= na,
            na == a@.len(),
            na == b@.len(),
            forall|j: int| 0 <= j < i ==> a@[j] == b@[j],
        decreases na - i,
    {
        if a.get_char(i) != b.get_char(i) {
            return false;
        }
        i = i + 1;
    }
    proof {
        assert(a@ =~= b@);
    }
    true
}

/// The parent directory of a path, as a new string.
fn parent_of(s: &str) -> (r: String)
    ensures
        r@ == parent_dir(s@),
{
    let n = s.unicode_len();
    proof {
        assert(s@.take(n as int) =~= s@);
    }
    let mut j: usize = n;
    while j > 0
        invariant
            j <= n,
            n == s@.len(),
            last_slash(s@) == last_slash(s@.take(j as int)),
        decreases j,
    {
        if s.get_char(j - 1) == '/' {
            proof {
                assert(s@.take(j as int).last() == s@[j - 1]);
            }
            return s.substring_char(0, j - 1).to_owned();
        }
        j = j - 1;
        proof {
            assert(s@.take(j as int + 1).drop_last() =~= s@.take(j as int));
            assert(s@.take(j as int + 1).last() == s@[j as int]);
        }
    }
    proof {
        assert(s@.take(0) =~= Seq::<char>::empty());
        assert(last_slash(s@) == -1);
    }
    String::new()
}

/// Join a base directory and a relative path.
fn joined(a: &str, b: &str) -> (r: String)
    ensures
        r@ == path_join(a@, b@),
{
    if a.is_empty() {
        b.to_owned()
    } else {
        let mut s = a.to_owned();
        s.append("/");
        s.append(b);
        proof {
            assert(s@ =~= path_join(a@, b@));
        }
        s
    }
}

/// Whether a declaration ends in the C-source suffix.
fn has_c_suffix(s: &str) -> (r: bool)
    ensures
        r == ends_in_c(s@),
{
    proof {
        reveal_strlit(".c");
    }
    let n = s.unicode_len();
    if n < 2 {
        return false;
    }
    let r = s.get_char(n - 2) == '.' && s.get_char(n - 1) == 'c';
    proof {
        if r {
            assert(s@.subrange(n - 2, n as int) =~= ".c"@);
        } else {
            if s@.subrange(n - 2, n as int) == ".c"@ {
                assert(s@[n - 2] == ".c"@[0]);
                assert(s@[n - 1] == ".c"@[1]);
            }
        }
    }
    r
}

/// Given a list of source files, return a mapping of source file -> object
/// file, each declaration resolved against the description file's
/// directory and mirrored under the build-output root.
pub fn object_source_map(base_path: &str, src: &Vec<String>) -> (r: Result<
    Vec<(String, String)>,
    BuildError,
>)
    ensures
        match r {
            Ok(pairs) => {
                &&& forall|i: int| 0 <= i < src@.len() ==> ends_in_c(#[trigger] src@[i]@)
                &&& pairs@.len() == src@.len()
                &&& forall|i: int|
                    0 <= i < src@.len() ==> (#[trigger] pairs@[i]).0@ == source_path(
                        base_path@,
                        src@[i]@,
                    )
                &&& forall|i: int|
                    0 <= i < src@.len() ==> (#[trigger] pairs@[i]).1@ == object_path(
                        base_path@,
                        src@[i]@,
                    )
            },
            Err(e) => exists|i: int|
                {
                    &&& 0 <= i < src@.len()
                    &&& !ends_in_c(#[trigger] src@[i]@)
                    &&& e.src@ == src@[i]@
                    &&& forall|j: int| 0 <= j < i ==> ends_in_c(#[trigger] src@[j]@)
                },
        },
{
    let in_dir = parent_of(base_path);
    let bld_base = joined("bld", base_path);
    proof {
        reveal_strlit("bld");
    }
    let out_dir = parent_of(bld_base.as_str());
    let mut objs: Vec<(String, String)> = Vec::new();
    let mut k: usize = 0;
    while k < src.len()
        invariant
            k <= src.len(),
            in_dir@ == parent_dir(base_path@),
            out_dir@ == parent_dir(path_join("bld"@, base_path@)),
            objs@.len() == k,
            forall|j: int| 0 <= j < k ==> ends_in_c(#[trigger] src@[j]@),
            forall|j: int|
                0 <= j < k ==> (#[trigger] objs@[j]).0@ == source_path(base_path@, src@[j]@),
            forall|j: int|
                0 <= j < k ==> (#[trigger] objs@[j]).1@ == object_path(base_path@, src@[j]@),
        decreases src.len() - k,
    {
        let s = &src[k];
        if !has_c_suffix(s.as_str()) {
            return Err(BuildError { src: s.clone() });
        }
        let n = s.as_str().unicode_len();
        let mut out = s.as_str().substring_char(0, n - 2).to_owned();
        out.append(".o");
        let in_path = joined(in_dir.as_str(), s.as_str());
        let out_path = joined(out_dir.as_str(), out.as_str());
        objs.push((in_path, out_path));
        k = k + 1;
    }
    Ok(objs)
}

/// Create a vector of compile statements from a source-object map and the
/// per-unit header dependencies, one statement per unit, in input order.
pub fn object_build_statements(
    obj_src_map: &Vec<(String, String)>,
    header_deps: &Vec<Vec<String>>,
) -> (r: Vec<ninja::BuildStatement>)
    requires
        obj_src_map@.len() == header_deps@.len(),
    ensures
        r@.len() == obj_src_map@.len(),
        forall|i: int|
            0 <= i < r@.len() ==> (#[trigger] r@[i])@ == compile_statement(
                obj_src_map@[i].0@,
                obj_src_map@[i].1@,
                header_deps.deep_view()[i],
            ),
{
    let mut stmts: Vec<ninja::BuildStatement> = Vec::new();
    let mut i: usize = 0;
    while i < obj_src_map.len()
        invariant
            i <= obj_src_map.len(),
            obj_src_map@.len() == header_deps@.len(),
            stmts@.len() == i,
            forall|j: int|
                0 <= j < i ==> (#[trigger] stmts@[j])@ == compile_statement(
                    obj_src_map@[j].0@,
                    obj_src_map@[j].1@,
                    header_deps.deep_view()[j],
                ),
        decreases obj_src_map.len() - i,
    {
        let deps = header_deps[i].clone();
        proof {
            assert(deps@ =~= header_deps@[i as int]@);
            assert(deps.deep_view() =~= header_deps.deep_view()[i as int]);
        }
        let st = ninja::BuildStatement {
            input: obj_src_map[i].0.clone(),
            output: obj_src_map[i].1.clone(),
            rule: ninja::Rules::ModCompile.to_string(),
            variables: Vec::new(),
            implicit_deps: deps,
        };
        proof {
            assert(st.variables.deep_view() =~= Seq::<ninja::VariableV>::empty());
        }
        stmts.push(st);
        i = i + 1;
    }
    stmts
}

/// Number of characters before the first line break of `s`, or the whole
/// length if there is none.
pub open spec fn line_len(s: Seq<char>) -> nat
    decreases s.len(),
{
    if s.len() == 0 {
        0
    } else if s[0] == '\n' {
        0
    } else {
        1 + line_len(s.drop_first())
    }
}

/// A line as line splitting of the diagnostic stream yields it: a trailing
/// carriage return is dropped.
pub open spec fn strip_cr(l: Seq<char>) -> Seq<char> {
    if l.len() > 0 && l.last() == '\r' {
        l.drop_last()
    } else {
        l
    }
}

/// Whether a diagnostic line denotes an included header: it begins with
/// the nesting marker.
pub open spec fn is_header_line(l: Seq<char>) -> bool {
    l.len() > 0 && l[0] == '.'
}

/// The line with its leading include-depth marker stripped.
pub open spec fn strip_dots(l: Seq<char>) -> Seq<char>
    decreases l.len(),
{
    if l.len() > 0 && l[0] == '.' {
        strip_dots(l.drop_first())
    } else {
        l
    }
}

/// The header paths in the compiler's line-oriented diagnostic stream:
/// for each line beginning with the nesting marker, the line with the
/// marker stripped; every other line is noise.
pub open spec fn header_paths(s: Seq<char>) -> Seq<Seq<char>>
    decreases s.len(),
{
    if s.len() == 0 {
        Seq::<Seq<char>>::empty()
    } else {
        let n = line_len(s);
        let line = strip_cr(s.take(n as int));
        let rest = if n >= s.len() {
            Seq::<char>::empty()
        } else {
            s.skip(n + 1int)
        };
        let this = if is_header_line(line) {
            seq![strip_dots(line)]
        } else {
            Seq::<Seq<char>>::empty()
        };
        this + header_paths(rest)
    }
}

/// `line_len` finds exactly the first line break: if everything before
/// position `m` is not a break and `m` is the end or a break, the line is
/// `m` characters long.
proof fn lemma_line_len_at(t: Seq<char>, m: int)
    requires
        0 <= m <= t.len(),
        forall|k: int| 0 <= k < m ==> t[k] != '\n',
        m == t.len() || t[m] == '\n',
    ensures
        line_len(t) == m,
    decreases m,
{
    if m == 0 {
    } else {
        assert(t[0] != '\n');
        assert(forall|k: int| 0 <= k < m - 1 ==> t.drop_first()[k] == t[k + 1]);
        lemma_line_len_at(t.drop_first(), m - 1);
    }
}

/// `strip_dots` drops exactly the leading run of marker characters: if
/// everything before position `m` is a marker and `m` is the end or not a
/// marker, the rest of the line remains.
proof fn lemma_strip_dots_at(t: Seq<char>, m: int)
    requires
        0 <= m <= t.len(),
        forall|k: int| 0 <= k < m ==> t[k] == '.',
        m == t.len() || t[m] != '.',
    ensures
        strip_dots(t) == t.skip(m),
    decreases m,
{
    if m == 0 {
        assert(t.skip(0) =~= t);
    } else {
        assert(t[0] == '.');
        assert(forall|k: int| 0 <= k < m - 1 ==> t.drop_first()[k] == t[k + 1]);
        lemma_strip_dots_at(t.drop_first(), m - 1);
        assert(t.drop_first().skip(m - 1) =~= t.skip(m));
    }
}

/// One step of line splitting: the headers of a non-empty stream are the
/// headers of its first line followed by the headers of what comes after
/// that line's break.
proof fn lemma_header_paths_step(s: Seq<char>, j: int, e: int)
    requires
        s.len() > 0,
        0 <= j <= s.len(),
        forall|t: int| 0 <= t < j ==> s[t] != '\n',
        j == s.len() || s[j] == '\n',
        e == (if j > 0 && s[j - 1] == '\r' {
            j - 1
        } else {
            j
        }),
    ensures
        header_paths(s) == (if 0 < e && s[0] == '.' {
            seq![strip_dots(s.subrange(0, e))]
        } else {
            Seq::<Seq<char>>::empty()
        }) + header_paths(
            if j == s.len() {
                Seq::<char>::empty()
            } else {
                s.skip(j + 1)
            },
        ),
{
    lemma_line_len_at(s, j);
    let line = strip_cr(s.take(j));
    assert(line =~= s.subrange(0, e));
    if 0 < e {
        assert(line[0] == s[0]);
    }
    assert(is_header_line(line) <==> (0 < e && s[0] == '.'));
}

/// Given a compiler's diagnostic stream, collect the headers it reports:
/// one per line prefixed with the include-depth marker, the marker
/// stripped to recover the path.
pub fn parse_header_deps(out: &str) -> (r: Vec<String>)
    ensures
        r.deep_view() == header_paths(out@),
{
    let n = out.unicode_len();
    let mut deps: Vec<String> = Vec::new();
    proof {
        assert(out@.skip(0) =~= out@);
        assert(deps.deep_view() =~~= Seq::<Seq<char>>::empty());
        assert(deps.deep_view() + header_paths(out@.skip(0)) =~~= header_paths(out@));
    }
    let mut i: usize = 0;
    while i < n
        invariant
            i <= n,
            n == out@.len(),
            deps.deep_view() + header_paths(out@.skip(i as int)) == header_paths(out@),
        decreases n - i,
    {
        let ghost cur = out@.skip(i as int);
        let ghost pre = deps.deep_view();
        let mut j: usize = i;
        while j < n && out.get_char(j) != '\n'
            invariant
                i <= j <= n,
                n == out@.len(),
                forall|t: int| i <= t < j ==> out@[t] != '\n',
            decreases n - j,
        {
            j = j + 1;
        }
        let e = if j > i && out.get_char(j - 1) == '\r' {
            j - 1
        } else {
            j
        };
        proof {
            assert(forall|t: int| 0 <= t < cur.len() ==> cur[t] == out@[i + t]);
            lemma_header_paths_step(cur, j - i, e - i);
            assert(cur.subrange(0, e - i) =~= out@.subrange(i as int, e as int));
        }
        let ghost front = (if 0 < e - i && cur[0] == '.' {
            seq![strip_dots(cur.subrange(0, e - i))]
        } else {
            Seq::<Seq<char>>::empty()
        });
        if e > i && out.get_char(i) == '.' {
            let mut k: usize = i;
            while k < e && out.get_char(k) == '.'
                invariant
                    i <= k <= e,
                    e <= n,
                    n == out@.len(),
                    forall|t: int| i <= t < k ==> out@[t] == '.',
                decreases e - k,
            {
                k = k + 1;
            }
            let h = out.substring_char(k, e).to_owned();
            proof {
                let ghost line = cur.subrange(0, e - i);
                assert(forall|t: int| 0 <= t < line.len() ==> line[t] == out@[i + t]);
                lemma_strip_dots_at(line, k - i);
                assert(line.skip(k - i) =~= out@.subrange(k as int, e as int));
                assert(h@ == strip_dots(line));
            }
            deps.push(h);
            proof {
                assert(deps.deep_view() =~~= pre + front);
            }
        } else {
            proof {
                assert(deps.deep_view() =~~= pre + front);
            }
        }
        let next = if j < n {
            j + 1
        } else {
            n
        };
        proof {
            if j < n {
                assert(cur.skip(j - i + 1) =~= out@.skip(j + 1));
            } else {
                assert(out@.skip(n as int) =~= Seq::<char>::empty());
            }
            assert(header_paths(cur) == front + header_paths(out@.skip(next as int)));
            assert(deps.deep_view() + header_paths(out@.skip(next as int)) =~~= header_paths(
                out@,
            ));
        }
        i = next;
    }
    proof {
        assert(out@.skip(n as int) =~= Seq::<char>::empty());
        assert(deps.deep_view() =~~= header_paths(out@));
    }
    deps
}

/// What the discovery walk does with one directory entry.
pub enum DirAction {
    /// Do not descend and do not collect.
    Skip,
    /// Descend into the entry.
    Recurse,
    /// Collect the entry as a description file.
    Collect,
}

/// The decision the discovery walk takes for one directory entry: symbolic
/// links are never followed, directories are entered, and only files named
/// `build.toml` are collected.
pub open spec fn entry_action(is_symlink: bool, is_dir: bool, name: Seq<char>) -> DirAction {
    if is_symlink {
        DirAction::Skip
    } else if is_dir {
        DirAction::Recurse
    } else if name == "build.toml"@ {
        DirAction::Collect
    } else {
        DirAction::Skip
    }
}

/// Decide what the discovery walk does with one directory entry, from the
/// entry's file type and name.
pub fn classify_entry(is_symlink: bool, is_dir: bool, name: &str) -> (r: DirAction)
    ensures
        r == entry_action(is_symlink, is_dir, name@),
{
    if is_symlink {
        DirAction::Skip
    } else if is_dir {
        DirAction::Recurse
    } else if str_eq(name, "build.toml") {
        DirAction::Collect
    } else {
        DirAction::Skip
    }
}

/// Discovery never follows a symbolic link: an entry that is a symbolic
/// link is skipped, whatever its name and whether or not it is a
/// directory, so nothing beneath it can be collected.
pub proof fn lemma_symlink_never_followed(is_dir: bool, name: Seq<char>)
    ensures
        entry_action(true, is_dir, name) == DirAction::Skip,
{
}

/// The last separator found from an in-bounds separator position: there is
/// a separator at or after it, and the one found is a separator.
proof fn lemma_last_slash_at_least(s: Seq<char>, i: int)
    requires
        0 <= i < s.len(),
        s[i] == '/',
    ensures
        i <= last_slash(s) < s.len(),
        s[last_slash(s)] == '/',
    decreases s.len(),
{
    if s.last() == '/' {
    } else {
        assert(i < s.len() - 1);
        assert(s.drop_last()[i] == s[i]);
        lemma_last_slash_at_least(s.drop_last(), i);
        assert(s[last_slash(s.drop_last())] == s.drop_last()[last_slash(s.drop_last())]);
    }
}

/// The Path/Object Mapper is a pure function of the description file's
/// path and the declaration alone: equal inputs give equal source and
/// object paths.
pub proof fn lemma_mapper_deterministic(
    base1: Seq<char>,
    src1: Seq<char>,
    base2: Seq<char>,
    src2: Seq<char>,
)
    requires
        base1 == base2,
        src1 == src2,
    ensures
        source_path(base1, src1) == source_path(base2, src2),
        object_path(base1, src1) == object_path(base2, src2),
{
}

/// Every object path is rooted under the build-output directory: its first
/// component is the output root, whatever the description path and the
/// declaration.
pub proof fn lemma_object_path_under_build_root(base: Seq<char>, src: Seq<char>)
    ensures
        object_path(base, src).len() > 3,
        object_path(base, src).take(3) == "bld"@,
        object_path(base, src)[3] == '/',
{
    reveal_strlit("bld");
    reveal_strlit("/");
    let bb = path_join("bld"@, base);
    assert(bb[3] == '/');
    lemma_last_slash_at_least(bb, 3);
    let k = last_slash(bb);
    let parent = parent_dir(bb);
    assert(parent == bb.take(k));
    let op = object_path(base, src);
    assert(op == parent + "/"@ + object_name(src));
    assert(op.take(3) =~= "bld"@);
    if k == 3 {
        assert(op[3] == '/');
    } else {
        assert(op[3] == parent[3]);
    }
}

} // verus!
