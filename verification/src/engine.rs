//! The tool execution engine: executes a typed command against the file
//! store and renders a readable text result, or a structured error.

use vstd::prelude::*;
use crate::fsstore::{spec_entries_insert, store_map, FileStore};
use crate::text::{
    count_occurrences, fmt_u64, replace_all, spec_count, spec_lines, spec_replace, spec_u64_str,
    split_lines,
};
use crate::tools::{
    BashParams, EditParams, GlobToolParams, GrepToolParams, LSParams, ParseCodeParams,
    ReplaceParams, ToolCall, ViewParams,
};
use crate::outside::{
    glob_is_match, glob_match, glob_pattern_valid, glob_valid, regex_is_match, regex_match,
    regex_pattern_valid, regex_valid,
};

verus! {

/// Why a tool command failed to execute.
#[derive(Debug)]
pub enum ExecError {
    /// The path names no file of the store.
    NotFound { path: String },
    /// The text to replace does not occur in the file.
    StringNotFound,
    /// The text to replace occurs more than once and no expected count was
    /// given.
    Ambiguous { count: u64 },
    /// The expected number of replacements does not match the actual count.
    CountMismatch { expected: u64, actual: u64 },
    /// The text to replace is empty.
    EmptyOld,
    /// The search pattern does not compile.
    BadPattern { pattern: String },
    /// The command needs a capability the engine does not have.
    Unsupported { what: String },
}

impl ExecError {
    /// What the error message says.
    pub open spec fn spec_message(&self) -> Seq<char> {
        match self {
            ExecError::NotFound { path } => "File not found: "@ + path@,
            ExecError::StringNotFound => "The string to replace was not found in the file"@,
            ExecError::Ambiguous { count } => "The string to replace occurs "@ + spec_u64_str(
                *count as int,
            ) + " times; pass expected_replacements to replace all of them"@,
            ExecError::CountMismatch { expected, actual } => "Expected "@ + spec_u64_str(
                *expected as int,
            ) + " replacements, found "@ + spec_u64_str(*actual as int),
            ExecError::EmptyOld => "The string to replace must not be empty"@,
            ExecError::BadPattern { pattern } => "Invalid pattern: "@ + pattern@,
            ExecError::Unsupported { what } => what@,
        }
    }

    /// A readable description of the error.
    pub fn message(&self) -> (r: String)
        ensures
            r@ == self.spec_message(),
    {
        match self {
            ExecError::NotFound { path } => {
                let mut r = "File not found: ".to_owned();
                r.append(path.as_str());
                r
            },
            ExecError::StringNotFound => {
                "The string to replace was not found in the file".to_owned()
            },
            ExecError::Ambiguous { count } => {
                let mut r = "The string to replace occurs ".to_owned();
                r.append(fmt_u64(*count).as_str());
                r.append(" times; pass expected_replacements to replace all of them");
                r
            },
            ExecError::CountMismatch { expected, actual } => {
                let mut r = "Expected ".to_owned();
                r.append(fmt_u64(*expected).as_str());
                r.append(" replacements, found ");
                r.append(fmt_u64(*actual).as_str());
                r
            },
            ExecError::EmptyOld => "The string to replace must not be empty".to_owned(),
            ExecError::BadPattern { pattern } => {
                let mut r = "Invalid pattern: ".to_owned();
                r.append(pattern.as_str());
                r
            },
            ExecError::Unsupported { what } => what.clone(),
        }
    }
}

/// The formatted result of a finished shell command: plain standard output
/// on success, and a failure text carrying exit code and both streams
/// otherwise.
pub open spec fn spec_bash_output(
    success: bool,
    code: int,
    stdout: Seq<char>,
    stderr: Seq<char>,
) -> Seq<char> {
    if success {
        stdout
    } else {
        let code_str = if code >= 0 {
            spec_u64_str(code)
        } else {
            seq!['-'] + spec_u64_str(-code)
        };
        "Command failed with exit code: "@ + code_str + "\nStdout: "@ + stdout + "\nStderr: "@
            + stderr
    }
}

/// Render the outcome of a finished shell command. The engine does not
/// spawn processes itself; the embedding program runs the command and hands
/// the captured outcome here, so that a failure is readable text and never
/// an exception.
pub fn format_bash_outcome(success: bool, code: i64, stdout: &str, stderr: &str) -> (r: String)
    ensures
        r@ == spec_bash_output(success, code as int, stdout@, stderr@),
{
    if success {
        stdout.to_owned()
    } else {
        let mut r = "Command failed with exit code: ".to_owned();
        r.append(crate::text::fmt_i64(code).as_str());
        r.append("\nStdout: ");
        r.append(stdout);
        r.append("\nStderr: ");
        r.append(stderr);
        r
    }
}

/// Lines, each prefixed by its line number counted from `start` and a
/// separator, one per output line.
pub open spec fn spec_numbered(lines: Seq<Seq<char>>, start: int) -> Seq<char>
    decreases lines.len(),
{
    if lines.len() == 0 {
        Seq::empty()
    } else {
        spec_u64_str(start) + ": "@ + lines[0] + "\n"@ + spec_numbered(lines.skip(1), start + 1)
    }
}

/// Render `lines[from..to]` with line numbers counted from `start`.
fn render_numbered(lines: &Vec<String>, from: usize, to: usize, start: u64) -> (r: String)
    requires
        from <= to <= lines@.len(),
        start + (to - from) <= u64::MAX + 1,
    ensures
        r@ == spec_numbered(lines.deep_view().subrange(from as int, to as int), start as int),
{
    let mut r = String::new();
    let mut k = from;
    while k < to
        invariant
            from <= k <= to <= lines@.len(),
            start + (to - from) <= u64::MAX + 1,
            r@ + spec_numbered(
                lines.deep_view().subrange(k as int, to as int),
                start + (k - from) as int,
            ) == spec_numbered(
                lines.deep_view().subrange(from as int, to as int),
                start as int,
            ),
        decreases to - k,
    {
        let num: u64 = start + ((k - from) as u64);
        r.append(fmt_u64(num).as_str());
        r.append(": ");
        r.append(lines[k].as_str());
        r.append("\n");
        proof {
            let dv = lines.deep_view();
            assert(dv.subrange(k as int, to as int)[0] == dv[k as int]);
            assert(dv[k as int] == lines@[k as int]@);
            assert(dv.subrange(k as int, to as int).skip(1) =~= dv.subrange(k + 1, to as int));
        }
        k += 1;
    }
    proof {
        assert(lines.deep_view().subrange(to as int, to as int) =~= Seq::<Seq<char>>::empty());
    }
    r
}

/// The number of leading lines `a` and `b` share.
pub open spec fn spec_prefix_len(a: Seq<Seq<char>>, b: Seq<Seq<char>>) -> int
    decreases a.len(),
{
    if a.len() == 0 || b.len() == 0 || a[0] != b[0] {
        0
    } else {
        1 + spec_prefix_len(a.skip(1), b.skip(1))
    }
}

/// The number of trailing lines `a` and `b` share.
pub open spec fn spec_suffix_len(a: Seq<Seq<char>>, b: Seq<Seq<char>>) -> int
    decreases a.len(),
{
    if a.len() == 0 || b.len() == 0 || a.last() != b.last() {
        0
    } else {
        1 + spec_suffix_len(a.drop_last(), b.drop_last())
    }
}

/// Lines, each prefixed with `mark`, one per output line.
pub open spec fn spec_marked(mark: Seq<char>, lines: Seq<Seq<char>>) -> Seq<char>
    decreases lines.len(),
{
    if lines.len() == 0 {
        Seq::empty()
    } else {
        mark + lines[0] + "\n"@ + spec_marked(mark, lines.skip(1))
    }
}

/// The shared prefix is never longer than either side.
pub proof fn lemma_prefix_len_bounds(a: Seq<Seq<char>>, b: Seq<Seq<char>>)
    ensures
        0 <= spec_prefix_len(a, b) <= a.len(),
        spec_prefix_len(a, b) <= b.len(),
    decreases a.len(),
{
    if a.len() == 0 || b.len() == 0 || a[0] != b[0] {
    } else {
        lemma_prefix_len_bounds(a.skip(1), b.skip(1));
    }
}

/// The shared suffix is never longer than either side.
pub proof fn lemma_suffix_len_bounds(a: Seq<Seq<char>>, b: Seq<Seq<char>>)
    ensures
        0 <= spec_suffix_len(a, b) <= a.len(),
        spec_suffix_len(a, b) <= b.len(),
    decreases a.len(),
{
    if a.len() == 0 || b.len() == 0 || a.last() != b.last() {
    } else {
        lemma_suffix_len_bounds(a.drop_last(), b.drop_last());
    }
}

/// A unified-diff-style text for replacing a file's lines: a header with
/// the counts, then the removed lines and the added lines, the shared
/// prefix and suffix left out.
pub open spec fn spec_diff(path: Seq<char>, oldl: Seq<Seq<char>>, newl: Seq<Seq<char>>) -> Seq<
    char,
> {
    let p = spec_prefix_len(oldl, newl);
    let s = spec_suffix_len(oldl.skip(p), newl.skip(p));
    let removed = oldl.subrange(p, oldl.len() - s);
    let added = newl.subrange(p, newl.len() - s);
    "Updated "@ + path + " with "@ + spec_u64_str(added.len() as int) + " additions and "@
        + spec_u64_str(removed.len() as int) + " removals"@ + "\n"@ + spec_marked("- "@, removed)
        + spec_marked("+ "@, added)
}

/// The diff text for replacing `old_content` by `new_content` under `path`.
pub open spec fn spec_diff_text(
    path: Seq<char>,
    old_content: Seq<char>,
    new_content: Seq<char>,
) -> Seq<char> {
    spec_diff(path, spec_lines(old_content), spec_lines(new_content))
}

/// A position where the lines first differ pins the shared prefix length.
proof fn lemma_prefix_len_at(a: Seq<Seq<char>>, b: Seq<Seq<char>>, i: int)
    requires
        0 <= i <= a.len(),
        i <= b.len(),
        forall|k: int| 0 <= k < i ==> a[k] == b[k],
        i == a.len() || i == b.len() || a[i] != b[i],
    ensures
        spec_prefix_len(a, b) == i,
    decreases i,
{
    if i == 0 {
    } else {
        lemma_prefix_len_at(a.skip(1), b.skip(1), i - 1);
    }
}

/// A distance from the end where the lines first differ pins the shared
/// suffix length.
proof fn lemma_suffix_len_at(a: Seq<Seq<char>>, b: Seq<Seq<char>>, s: int)
    requires
        0 <= s <= a.len(),
        s <= b.len(),
        forall|j: int| a.len() - s <= j < a.len() ==> #[trigger] a[j] == b[j - a.len() + b.len()],
        s == a.len() || s == b.len() || a[a.len() - 1 - s] != b[b.len() - 1 - s],
    ensures
        spec_suffix_len(a, b) == s,
    decreases s,
{
    if s == 0 {
    } else {
        assert(a.last() == b[b.len() - 1]);
        let a2 = a.drop_last();
        let b2 = b.drop_last();
        assert(forall|j: int|
            a2.len() - (s - 1) <= j < a2.len() ==> #[trigger] a2[j] == b2[j - a2.len()
                + b2.len()]) by {
            assert(forall|j: int|
                a2.len() - (s - 1) <= j < a2.len() ==> a2[j] == a[j] && b2[j - a2.len()
                    + b2.len()] == b[j - a.len() + b.len()]);
        }
        lemma_suffix_len_at(a2, b2, s - 1);
    }
}

/// The length of the line prefix shared by `a` and `b`.
fn common_prefix(a: &Vec<String>, b: &Vec<String>) -> (p: usize)
    ensures
        p == spec_prefix_len(a.deep_view(), b.deep_view()),
{
    let alen = a.len();
    let blen = b.len();
    let mut i: usize = 0;
    while i < alen && i < blen
        invariant
            alen == a@.len(),
            blen == b@.len(),
            i <= alen,
            i <= blen,
            forall|k: int| 0 <= k < i ==> a.deep_view()[k] == b.deep_view()[k],
        decreases alen - i,
    {
        if !crate::text::str_eq(a[i].as_str(), b[i].as_str()) {
            proof {
                lemma_prefix_len_at(a.deep_view(), b.deep_view(), i as int);
            }
            return i;
        }
        i += 1;
    }
    proof {
        lemma_prefix_len_at(a.deep_view(), b.deep_view(), i as int);
    }
    i
}

/// The length of the line suffix shared by `a` and `b` after their first
/// `p` lines.
fn common_suffix_after(a: &Vec<String>, b: &Vec<String>, p: usize) -> (s: usize)
    requires
        p <= a@.len(),
        p <= b@.len(),
    ensures
        s == spec_suffix_len(a.deep_view().skip(p as int), b.deep_view().skip(p as int)),
{
    let alen = a.len();
    let blen = b.len();
    let mut s: usize = 0;
    while s < alen - p && s < blen - p
        invariant
            alen == a@.len(),
            blen == b@.len(),
            p <= alen,
            p <= blen,
            s <= alen - p,
            s <= blen - p,
            forall|j: int|
                alen - s <= j < alen ==> #[trigger] a.deep_view()[j] == b.deep_view()[j - alen
                    + blen],
        decreases alen - p - s,
    {
        if !crate::text::str_eq(a[alen - 1 - s].as_str(), b[blen - 1 - s].as_str()) {
            proof {
                lemma_suffix_skip_at(a.deep_view(), b.deep_view(), p as int, s as int);
            }
            return s;
        }
        s += 1;
    }
    proof {
        lemma_suffix_skip_at(a.deep_view(), b.deep_view(), p as int, s as int);
    }
    s
}

/// `lemma_suffix_len_at`, carried over to the sequences after `p`.
proof fn lemma_suffix_skip_at(a: Seq<Seq<char>>, b: Seq<Seq<char>>, p: int, s: int)
    requires
        0 <= p <= a.len(),
        p <= b.len(),
        0 <= s <= a.len() - p,
        s <= b.len() - p,
        forall|j: int| a.len() - s <= j < a.len() ==> #[trigger] a[j] == b[j - a.len() + b.len()],
        s == a.len() - p || s == b.len() - p || a[a.len() - 1 - s] != b[b.len() - 1 - s],
    ensures
        spec_suffix_len(a.skip(p), b.skip(p)) == s,
{
    let a2 = a.skip(p);
    let b2 = b.skip(p);
    assert(forall|j: int|
        a2.len() - s <= j < a2.len() ==> #[trigger] a2[j] == b2[j - a2.len() + b2.len()]) by {
        assert(forall|j: int|
            a2.len() - s <= j < a2.len() ==> a2[j] == a[j + p] && b2[j - a2.len() + b2.len()]
                == b[j + p - a.len() + b.len()]);
    }
    if s < a.len() - p && s < b.len() - p {
        assert(a2[a2.len() - 1 - s] == a[a.len() - 1 - s]);
        assert(b2[b2.len() - 1 - s] == b[b.len() - 1 - s]);
    }
    lemma_suffix_len_at(a2, b2, s);
}

/// Render `lines[from..to]`, each behind `mark`.
fn render_marked(mark: &str, lines: &Vec<String>, from: usize, to: usize) -> (r: String)
    requires
        from <= to <= lines@.len(),
    ensures
        r@ == spec_marked(mark@, lines.deep_view().subrange(from as int, to as int)),
{
    let mut r = String::new();
    let mut k = from;
    while k < to
        invariant
            from <= k <= to <= lines@.len(),
            r@ + spec_marked(mark@, lines.deep_view().subrange(k as int, to as int))
                == spec_marked(mark@, lines.deep_view().subrange(from as int, to as int)),
        decreases to - k,
    {
        r.append(mark);
        r.append(lines[k].as_str());
        r.append("\n");
        proof {
            let dv = lines.deep_view();
            assert(dv.subrange(k as int, to as int)[0] == dv[k as int]);
            assert(dv[k as int] == lines@[k as int]@);
            assert(dv.subrange(k as int, to as int).skip(1) =~= dv.subrange(k + 1, to as int));
        }
        k += 1;
    }
    proof {
        assert(lines.deep_view().subrange(to as int, to as int) =~= Seq::<Seq<char>>::empty());
    }
    r
}

/// Render the diff text for replacing `old_content` by `new_content` under
/// `path`: the header with addition and removal counts, then the removed
/// and the added lines.
pub fn generate_diff(path: &str, old_content: &str, new_content: &str) -> (r: String)
    ensures
        r@ == spec_diff_text(path@, old_content@, new_content@),
{
    let oldl = split_lines(old_content);
    let newl = split_lines(new_content);
    let p = common_prefix(&oldl, &newl);
    proof {
        lemma_prefix_len_bounds(oldl.deep_view(), newl.deep_view());
    }
    let s = common_suffix_after(&oldl, &newl, p);
    proof {
        lemma_suffix_len_bounds(oldl.deep_view().skip(p as int), newl.deep_view().skip(p as int));
    }
    let removals = oldl.len() - p - s;
    let additions = newl.len() - p - s;
    let mut r = "Updated ".to_owned();
    r.append(path);
    r.append(" with ");
    r.append(fmt_u64(additions as u64).as_str());
    r.append(" additions and ");
    r.append(fmt_u64(removals as u64).as_str());
    r.append(" removals");
    r.append("\n");
    let removed_text = render_marked("- ", &oldl, p, oldl.len() - s);
    r.append(removed_text.as_str());
    let added_text = render_marked("+ ", &newl, p, newl.len() - s);
    r.append(added_text.as_str());
    proof {
        let odv = oldl.deep_view();
        let ndv = newl.deep_view();
        assert(odv.subrange(p as int, odv.len() - s) =~= odv.subrange(
            p as int,
            oldl@.len() - s,
        ));
        assert(ndv.subrange(p as int, ndv.len() - s) =~= ndv.subrange(
            p as int,
            newl@.len() - s,
        ));
    }
    r
}

/// An edit that went through: the store gained the replaced content and
/// the result is the diff text.
pub open spec fn spec_edit_ok(
    m: Map<Seq<char>, Seq<char>>,
    params: &EditParams,
    m2: Map<Seq<char>, Seq<char>>,
    r: &Result<String, ExecError>,
) -> bool {
    let path = params.file_path@;
    let replaced = spec_replace(m[path], params.old_string@, params.new_string@);
    &&& r matches Ok(d) && d@ == spec_diff_text(path, m[path], replaced)
    &&& m2 == m.insert(path, replaced)
}

/// What an edit does for every input: which error comes on which store and
/// parameters, and what the store holds afterwards.
pub open spec fn spec_edit_result(
    m: Map<Seq<char>, Seq<char>>,
    params: &EditParams,
    m2: Map<Seq<char>, Seq<char>>,
    r: &Result<String, ExecError>,
) -> bool {
    let path = params.file_path@;
    let olds = params.old_string@;
    if olds.len() == 0 {
        r matches Err(ExecError::EmptyOld) && m2 == m
    } else if !m.contains_key(path) {
        (r matches Err(ExecError::NotFound { path: q }) && q@ == path) && m2 == m
    } else {
        let c = spec_count(m[path], olds);
        match params.expected_replacements {
            None => {
                if c == 0 {
                    r matches Err(ExecError::StringNotFound) && m2 == m
                } else if c == 1 {
                    spec_edit_ok(m, params, m2, r)
                } else {
                    (r matches Err(ExecError::Ambiguous { count }) && count == c) && m2 == m
                }
            },
            Some(k) => {
                if c == 0 {
                    r matches Err(ExecError::StringNotFound) && m2 == m
                } else if c == k {
                    spec_edit_ok(m, params, m2, r)
                } else {
                    (r matches Err(ExecError::CountMismatch { expected, actual }) && expected == k
                        && actual == c) && m2 == m
                }
            },
        }
    }
}

/// An edit whose text occurs exactly once, with no expected count given,
/// goes through: the file becomes the text before the occurrence, the new
/// text, and the text after it, and the new text stands in the result at
/// the occurrence's position.
pub proof fn lemma_edit_unique_succeeds(
    m: Map<Seq<char>, Seq<char>>,
    params: &EditParams,
    m2: Map<Seq<char>, Seq<char>>,
    r: &Result<String, ExecError>,
)
    requires
        spec_edit_result(m, params, m2, r),
        params.old_string@.len() >= 1,
        m.contains_key(params.file_path@),
        spec_count(m[params.file_path@], params.old_string@) == 1,
        params.expected_replacements is None,
    ensures
        r is Ok,
        ({
            let c = m[params.file_path@];
            let f = crate::text::spec_find(c, params.old_string@);
            let replaced = c.subrange(0, f) + params.new_string@ + c.subrange(
                f + params.old_string@.len(),
                c.len() as int,
            );
            &&& m2 == m.insert(params.file_path@, replaced)
            &&& crate::text::occurs_at(m2[params.file_path@], params.new_string@, f)
        }),
{
    let c = m[params.file_path@];
    crate::text::lemma_replace_single(c, params.old_string@, params.new_string@);
    crate::text::lemma_replace_contains_new(c, params.old_string@, params.new_string@);
}

/// Check an edit and compute its outcome without touching the store: the
/// new content and the diff, or the error. This is the preview the
/// permission layer sees before anything is committed.
fn edit_outcome(fs: &FileStore, params: &EditParams) -> (r: Result<(String, String), ExecError>)
    requires
        fs.wf(),
    ensures
        match r {
            Ok(p) => {
                &&& spec_edit_result(
                    fs@,
                    params,
                    fs@.insert(params.file_path@, p.0@),
                    &Ok::<String, ExecError>(p.1),
                )
                &&& p.0@ == spec_replace(
                    fs@[params.file_path@],
                    params.old_string@,
                    params.new_string@,
                )
            },
            Err(e) => spec_edit_result(fs@, params, fs@, &Err::<String, ExecError>(e)),
        },
{
    if params.old_string.as_str().is_empty() {
        return Err(ExecError::EmptyOld);
    }
    let content = match fs.read(params.file_path.as_str()) {
        Some(c) => c,
        None => {
            return Err(ExecError::NotFound { path: params.file_path.clone() });
        },
    };
    let count = count_occurrences(content.as_str(), params.old_string.as_str());
    match params.expected_replacements {
        None => {
            if count == 0 {
                return Err(ExecError::StringNotFound);
            }
            if count > 1 {
                return Err(ExecError::Ambiguous { count: count as u64 });
            }
        },
        Some(k) => {
            if count == 0 {
                return Err(ExecError::StringNotFound);
            }
            if count as u64 != k {
                return Err(
                    ExecError::CountMismatch { expected: k, actual: count as u64 },
                );
            }
        },
    }
    let new_content = replace_all(
        content.as_str(),
        params.old_string.as_str(),
        params.new_string.as_str(),
    );
    let diff = generate_diff(params.file_path.as_str(), content.as_str(), new_content.as_str());
    Ok((new_content, diff))
}

/// Apply a string-replacement edit to the store. The text to replace must
/// occur exactly once, unless `expected_replacements` names the exact
/// occurrence count; on any failure the store is unchanged.
pub fn edit_file(fs: &mut FileStore, params: &EditParams) -> (r: Result<String, ExecError>)
    requires
        old(fs).wf(),
    ensures
        final(fs).wf(),
        spec_edit_result(old(fs)@, params, final(fs)@, &r),
        r is Ok ==> final(fs).entries() == spec_entries_insert(
            old(fs).entries(),
            params.file_path@,
            spec_replace(old(fs)@[params.file_path@], params.old_string@, params.new_string@),
        ),
        r is Err ==> final(fs).entries() == old(fs).entries(),
{
    match edit_outcome(fs, params) {
        Ok((new_content, diff)) => {
            let ghost m = fs@;
            fs.write(params.file_path.as_str(), new_content);
            proof {
                assert(spec_edit_result(m, params, final(fs)@, &Ok::<String, ExecError>(diff)));
            }
            Ok(diff)
        },
        Err(e) => Err(e),
    }
}

/// The diff an edit would produce, computed without committing the change.
pub fn preview_edit(fs: &FileStore, params: &EditParams) -> (r: Result<String, ExecError>)
    requires
        fs.wf(),
    ensures
        match r {
            Ok(d) => d@ == spec_diff_text(
                params.file_path@,
                fs@[params.file_path@],
                spec_replace(fs@[params.file_path@], params.old_string@, params.new_string@),
            ),
            Err(e) => spec_edit_result(fs@, params, fs@, &Err::<String, ExecError>(e)),
        },
{
    match edit_outcome(fs, params) {
        Ok((_new_content, diff)) => Ok(diff),
        Err(e) => Err(e),
    }
}

/// The content a path holds, or empty for a path not in the store.
pub open spec fn spec_content_or_empty(m: Map<Seq<char>, Seq<char>>, path: Seq<char>) -> Seq<
    char,
> {
    if m.contains_key(path) {
        m[path]
    } else {
        Seq::empty()
    }
}

/// Write a file's full content, creating it if needed, and return the diff
/// against the previous content.
pub fn write_file(fs: &mut FileStore, params: &ReplaceParams) -> (r: String)
    requires
        old(fs).wf(),
    ensures
        final(fs).wf(),
        final(fs)@ == old(fs)@.insert(params.file_path@, params.content@),
        final(fs).entries() == spec_entries_insert(
            old(fs).entries(),
            params.file_path@,
            params.content@,
        ),
        r@ == spec_diff_text(
            params.file_path@,
            spec_content_or_empty(old(fs)@, params.file_path@),
            params.content@,
        ),
{
    let diff = preview_write(fs, params);
    fs.write(params.file_path.as_str(), params.content.clone());
    diff
}

/// The diff a whole-file write would produce, computed without committing
/// the change.
pub fn preview_write(fs: &FileStore, params: &ReplaceParams) -> (r: String)
    requires
        fs.wf(),
    ensures
        r@ == spec_diff_text(
            params.file_path@,
            spec_content_or_empty(fs@, params.file_path@),
            params.content@,
        ),
{
    let previous = match fs.read(params.file_path.as_str()) {
        Some(c) => c,
        None => String::new(),
    };
    generate_diff(params.file_path.as_str(), previous.as_str(), params.content.as_str())
}

/// The store's paths that match the glob `pat`, in entry order.
pub open spec fn spec_matched_paths(
    entries: Seq<(Seq<char>, Seq<char>)>,
    pat: Seq<char>,
) -> Seq<Seq<char>>
    decreases entries.len(),
{
    if entries.len() == 0 {
        Seq::empty()
    } else {
        spec_matched_paths(entries.drop_last(), pat) + if glob_match(pat, entries.last().0) {
            seq![entries.last().0]
        } else {
            Seq::empty()
        }
    }
}

/// Items as an enumerated list, numbered from `idx`.
pub open spec fn spec_enum_list(items: Seq<Seq<char>>, idx: int) -> Seq<char>
    decreases items.len(),
{
    if items.len() == 0 {
        Seq::empty()
    } else {
        spec_u64_str(idx) + ". "@ + items[0] + "\n"@ + spec_enum_list(items.skip(1), idx + 1)
    }
}

/// Render `items` as an enumerated list, numbered from 1.
fn render_enum_list(items: &Vec<String>) -> (r: String)
    ensures
        r@ == spec_enum_list(items.deep_view(), 1),
{
    let mut r = String::new();
    let n = items.len();
    let mut k: usize = 0;
    proof {
        assert(items.deep_view().skip(0) =~= items.deep_view());
    }
    while k < n
        invariant
            n == items@.len(),
            k <= n,
            r@ + spec_enum_list(items.deep_view().skip(k as int), 1 + k as int) == spec_enum_list(
                items.deep_view(),
                1,
            ),
        decreases n - k,
    {
        let num: u64 = 1 + (k as u64);
        r.append(fmt_u64(num).as_str());
        r.append(". ");
        r.append(items[k].as_str());
        r.append("\n");
        proof {
            let dv = items.deep_view();
            assert(dv.skip(k as int)[0] == dv[k as int]);
            assert(dv[k as int] == items@[k as int]@);
            assert(dv.skip(k as int).skip(1) =~= dv.skip(k + 1));
        }
        k += 1;
    }
    proof {
        assert(items.deep_view().skip(n as int) =~= Seq::<Seq<char>>::empty());
    }
    r
}

/// The full pattern a file-name search uses: the pattern itself, or the
/// root directory joined onto it.
pub open spec fn spec_full_pattern(pattern: Seq<char>, root: Option<Seq<char>>) -> Seq<char> {
    match root {
        Some(d) => d + "/"@ + pattern,
        None => pattern,
    }
}

/// What a file-name search prints: a count line, then the matching paths
/// enumerated.
pub open spec fn spec_glob_output(pattern: Seq<char>, paths: Seq<Seq<char>>) -> Seq<char> {
    "Found "@ + spec_u64_str(paths.len() as int) + " files matching pattern '"@ + pattern
        + "':\n\n"@ + spec_enum_list(paths, 1)
}

/// Search the store's paths with a glob pattern, under an optional root
/// directory.
pub fn glob_search(fs: &FileStore, params: &GlobToolParams) -> (r: Result<String, ExecError>)
    requires
        fs.wf(),
    ensures
        ({
            let full = spec_full_pattern(params.pattern@, params.path.deep_view());
            if glob_valid(full) {
                r matches Ok(s) && s@ == spec_glob_output(
                    params.pattern@,
                    spec_matched_paths(fs.entries(), full),
                )
            } else {
                r matches Err(ExecError::BadPattern { pattern: p }) && p@ == full
            }
        }),
{
    let full: String = match &params.path {
        Some(d) => {
            let mut f = d.clone();
            f.append("/");
            f.append(params.pattern.as_str());
            f
        },
        None => params.pattern.clone(),
    };
    if !glob_pattern_valid(full.as_str()) {
        return Err(ExecError::BadPattern { pattern: full });
    }
    let mut matched: Vec<String> = Vec::new();
    let n = fs.files.len();
    let mut i: usize = 0;
    proof {
        assert(fs.entries().take(0) =~= Seq::<(Seq<char>, Seq<char>)>::empty());
        assert(matched.deep_view() =~= spec_matched_paths(fs.entries().take(0), full@));
    }
    while i < n
        invariant
            fs.wf(),
            n == fs.files@.len(),
            i <= n,
            glob_valid(full@),
            matched.deep_view() == spec_matched_paths(fs.entries().take(i as int), full@),
        decreases n - i,
    {
        let is_match = match glob_is_match(full.as_str(), fs.files[i].0.as_str()) {
            Some(b) => b,
            None => {
                proof {
                    assert(false);
                }
                false
            },
        };
        proof {
            assert(fs.entries().take(i + 1).drop_last() =~= fs.entries().take(i as int));
            assert(fs.entries().take(i + 1).last() == fs.entries()[i as int]);
        }
        if is_match {
            matched.push(fs.files[i].0.clone());
            proof {
                assert(matched.deep_view() =~= spec_matched_paths(
                    fs.entries().take(i + 1),
                    full@,
                ));
            }
        } else {
            proof {
                assert(matched.deep_view() =~= spec_matched_paths(
                    fs.entries().take(i + 1),
                    full@,
                ));
            }
        }
        i += 1;
    }
    proof {
        assert(fs.entries().take(n as int) =~= fs.entries());
    }
    let mut r = "Found ".to_owned();
    r.append(fmt_u64(matched.len() as u64).as_str());
    r.append(" files matching pattern '");
    r.append(params.pattern.as_str());
    r.append("':\n\n");
    r.append(render_enum_list(&matched).as_str());
    Ok(r)
}

/// The matches of `pattern` in the lines of one file, from line index `i`
/// on: one `(path, 1-based line number, line)` triple per matching line.
pub open spec fn spec_line_matches(
    path: Seq<char>,
    lines: Seq<Seq<char>>,
    pattern: Seq<char>,
    i: int,
) -> Seq<(Seq<char>, u64, Seq<char>)>
    decreases lines.len() - i,
{
    if i < 0 || i >= lines.len() {
        Seq::empty()
    } else {
        (if regex_match(pattern, lines[i]) {
            seq![(path, (i + 1) as u64, lines[i])]
        } else {
            Seq::empty()
        }) + spec_line_matches(path, lines, pattern, i + 1)
    }
}

/// Whether a content search visits the file under `path`, given the
/// optional file-name filter and root directory.
pub open spec fn spec_grep_visits(
    path: Seq<char>,
    filt: Option<Seq<char>>,
    root: Option<Seq<char>>,
) -> bool {
    (match filt {
        Some(f) => glob_match(f, path),
        None => true,
    }) && (match root {
        Some(d) => crate::text::occurs_at(path, d + "/"@, 0),
        None => true,
    })
}

/// All matches of a content search over the store, in entry and line
/// order.
pub open spec fn spec_grep_matches(
    entries: Seq<(Seq<char>, Seq<char>)>,
    pattern: Seq<char>,
    filt: Option<Seq<char>>,
    root: Option<Seq<char>>,
) -> Seq<(Seq<char>, u64, Seq<char>)>
    decreases entries.len(),
{
    if entries.len() == 0 {
        Seq::empty()
    } else {
        spec_grep_matches(entries.drop_last(), pattern, filt, root) + if spec_grep_visits(
            entries.last().0,
            filt,
            root,
        ) {
            spec_line_matches(entries.last().0, spec_lines(entries.last().1), pattern, 0)
        } else {
            Seq::empty()
        }
    }
}

/// Match triples rendered one per line as `path:line_number:line`.
pub open spec fn spec_grep_render(ms: Seq<(Seq<char>, u64, Seq<char>)>) -> Seq<char>
    decreases ms.len(),
{
    if ms.len() == 0 {
        Seq::empty()
    } else {
        ms[0].0 + ":"@ + spec_u64_str(ms[0].1 as int) + ":"@ + ms[0].2 + "\n"@ + spec_grep_render(
            ms.skip(1),
        )
    }
}

/// What a content search prints: a count line, then the matches.
pub open spec fn spec_grep_output(
    pattern: Seq<char>,
    ms: Seq<(Seq<char>, u64, Seq<char>)>,
) -> Seq<char> {
    "Found "@ + spec_u64_str(ms.len() as int) + " matches for pattern '"@ + pattern + "':\n\n"@
        + spec_grep_render(ms)
}

/// Whether the file under `path` is visited, decided executably.
fn grep_visits(path: &str, filt: &Option<String>, root: &Option<String>) -> (b: bool)
    requires
        match filt {
            Some(f) => glob_valid(f@),
            None => true,
        },
    ensures
        b == spec_grep_visits(path@, filt.deep_view(), root.deep_view()),
{
    let filter_ok = match filt {
        Some(f) => {
            match glob_is_match(f.as_str(), path) {
                Some(b) => b,
                None => {
                    proof {
                        assert(false);
                    }
                    false
                },
            }
        },
        None => true,
    };
    if !filter_ok {
        return false;
    }
    match root {
        Some(d) => {
            let mut prefix = d.clone();
            prefix.append("/");
            let plen = prefix.unicode_len();
            let slen = path.unicode_len();
            if plen > slen {
                false
            } else {
                crate::text::match_at(path, prefix.as_str(), 0)
            }
        },
        None => true,
    }
}

/// Collect the matches of `pattern` in one file's lines.
fn collect_line_matches(
    path: &str,
    lines: &Vec<String>,
    pattern: &str,
    out: &mut Vec<(String, u64, String)>,
)
    requires
        regex_valid(pattern@),
    ensures
        final(out).deep_view() == old(out).deep_view() + spec_line_matches(
            path@,
            lines.deep_view(),
            pattern@,
            0,
        ),
{
    let n = lines.len();
    let mut i: usize = 0;
    while i < n
        invariant
            n == lines@.len(),
            i <= n,
            regex_valid(pattern@),
            out.deep_view() + spec_line_matches(path@, lines.deep_view(), pattern@, i as int)
                == old(out).deep_view() + spec_line_matches(
                path@,
                lines.deep_view(),
                pattern@,
                0,
            ),
        decreases n - i,
    {
        let is_match = match regex_is_match(pattern, lines[i].as_str()) {
            Some(b) => b,
            None => {
                proof {
                    assert(false);
                }
                false
            },
        };
        if is_match {
            out.push((path.to_owned(), (i as u64) + 1, lines[i].clone()));
            proof {
                assert(out.deep_view() =~= out.deep_view().drop_last() + seq![
                    (path@, (i + 1) as u64, lines.deep_view()[i as int]),
                ]);
            }
        }
        i += 1;
    }
}

/// Search the store's file contents with a regular expression, optionally
/// restricted by a file-name filter and a root directory.
pub fn grep_search(fs: &FileStore, params: &GrepToolParams) -> (r: Result<String, ExecError>)
    requires
        fs.wf(),
    ensures
        ({
            let filt = params.file_filter.deep_view();
            let root = params.path.deep_view();
            if !regex_valid(params.pattern@) {
                r matches Err(ExecError::BadPattern { pattern: p }) && p@ == params.pattern@
            } else if filt matches Some(f) && !glob_valid(f) {
                r matches Err(ExecError::BadPattern { pattern: p }) && Some(p@) == filt
            } else {
                r matches Ok(s) && s@ == spec_grep_output(
                    params.pattern@,
                    spec_grep_matches(fs.entries(), params.pattern@, filt, root),
                )
            }
        }),
{
    if !regex_pattern_valid(params.pattern.as_str()) {
        return Err(ExecError::BadPattern { pattern: params.pattern.clone() });
    }
    match &params.file_filter {
        Some(f) => {
            if !glob_pattern_valid(f.as_str()) {
                return Err(ExecError::BadPattern { pattern: f.clone() });
            }
        },
        None => {},
    }
    let mut out: Vec<(String, u64, String)> = Vec::new();
    let n = fs.files.len();
    let mut i: usize = 0;
    proof {
        assert(fs.entries().take(0) =~= Seq::<(Seq<char>, Seq<char>)>::empty());
        assert(out.deep_view() =~= spec_grep_matches(
            fs.entries().take(0),
            params.pattern@,
            params.file_filter.deep_view(),
            params.path.deep_view(),
        ));
    }
    while i < n
        invariant
            fs.wf(),
            n == fs.files@.len(),
            i <= n,
            regex_valid(params.pattern@),
            match params.file_filter.deep_view() {
                Some(f) => glob_valid(f),
                None => true,
            },
            out.deep_view() == spec_grep_matches(
                fs.entries().take(i as int),
                params.pattern@,
                params.file_filter.deep_view(),
                params.path.deep_view(),
            ),
        decreases n - i,
    {
        proof {
            assert(fs.entries().take(i + 1).drop_last() =~= fs.entries().take(i as int));
            assert(fs.entries().take(i + 1).last() == fs.entries()[i as int]);
        }
        if grep_visits(fs.files[i].0.as_str(), &params.file_filter, &params.path) {
            let lines = split_lines(fs.files[i].1.as_str());
            collect_line_matches(
                fs.files[i].0.as_str(),
                &lines,
                params.pattern.as_str(),
                &mut out,
            );
        }
        proof {
            assert(out.deep_view() =~= spec_grep_matches(
                fs.entries().take(i + 1),
                params.pattern@,
                params.file_filter.deep_view(),
                params.path.deep_view(),
            ));
        }
        i += 1;
    }
    proof {
        assert(fs.entries().take(n as int) =~= fs.entries());
    }
    let mut r = "Found ".to_owned();
    r.append(fmt_u64(out.len() as u64).as_str());
    r.append(" matches for pattern '");
    r.append(params.pattern.as_str());
    r.append("':\n\n");
    let mut k: usize = 0;
    let m = out.len();
    proof {
        assert(out.deep_view().skip(0) =~= out.deep_view());
    }
    let mut body = String::new();
    while k < m
        invariant
            m == out@.len(),
            k <= m,
            body@ + spec_grep_render(out.deep_view().skip(k as int)) == spec_grep_render(
                out.deep_view(),
            ),
        decreases m - k,
    {
        body.append(out[k].0.as_str());
        body.append(":");
        body.append(fmt_u64(out[k].1).as_str());
        body.append(":");
        body.append(out[k].2.as_str());
        body.append("\n");
        proof {
            let dv = out.deep_view();
            assert(dv.skip(k as int)[0] == dv[k as int]);
            assert(dv[k as int] == (out@[k as int].0@, out@[k as int].1, out@[k as int].2@));
            assert(dv.skip(k as int).skip(1) =~= dv.skip(k + 1));
        }
        k += 1;
    }
    proof {
        assert(out.deep_view().skip(m as int) =~= Seq::<(Seq<char>, u64, Seq<char>)>::empty());
    }
    r.append(body.as_str());
    Ok(r)
}

/// The direct child of `dir` that `path` lies under: its name and whether
/// it is a directory, or nothing when `path` does not lie under `dir`.
pub open spec fn spec_child(path: Seq<char>, dir: Seq<char>) -> Option<(Seq<char>, bool)> {
    let prefix = dir + "/"@;
    if path.len() > prefix.len() && path.subrange(0, prefix.len() as int) == prefix {
        let rest = path.skip(prefix.len() as int);
        let f = crate::text::spec_find(rest, "/"@);
        if f == -1 {
            Some((rest, false))
        } else {
            Some((rest.subrange(0, f), true))
        }
    } else {
        None
    }
}

/// Whether a listing already carries an entry named `name`.
pub open spec fn spec_has_name(items: Seq<(Seq<char>, bool)>, name: Seq<char>) -> bool {
    exists|k: int| 0 <= k < items.len() && (#[trigger] items[k]).0 == name
}

/// The entries directly under `dir`: the distinct child names, in first
/// appearance order, each tagged as directory or file.
pub open spec fn spec_ls_entries(
    entries: Seq<(Seq<char>, Seq<char>)>,
    dir: Seq<char>,
) -> Seq<(Seq<char>, bool)>
    decreases entries.len(),
{
    if entries.len() == 0 {
        Seq::empty()
    } else {
        let prev = spec_ls_entries(entries.drop_last(), dir);
        match spec_child(entries.last().0, dir) {
            Some(c) => if spec_has_name(prev, c.0) {
                prev
            } else {
                prev + seq![c]
            },
            None => prev,
        }
    }
}

/// A directory listing rendered one entry per line, numbered from `idx`,
/// each tagged `DIR` or `FILE`.
pub open spec fn spec_ls_render(items: Seq<(Seq<char>, bool)>, idx: int) -> Seq<char>
    decreases items.len(),
{
    if items.len() == 0 {
        Seq::empty()
    } else {
        spec_u64_str(idx) + ". ["@ + (if items[0].1 {
            "DIR"@
        } else {
            "FILE"@
        }) + "] "@ + items[0].0 + "\n"@ + spec_ls_render(items.skip(1), idx + 1)
    }
}

/// What a directory listing prints.
pub open spec fn spec_ls_output(dir: Seq<char>, items: Seq<(Seq<char>, bool)>) -> Seq<char> {
    "Directory listing for '"@ + dir + "':\n"@ + spec_ls_render(items, 1)
}

/// The direct child of `dir` that `path` lies under, decided executably.
fn child_of(path: &str, dir: &str) -> (r: Option<(String, bool)>)
    ensures
        r.deep_view() == spec_child(path@, dir@),
{
    proof {
        reveal_strlit("/");
    }
    let mut prefix = dir.to_owned();
    prefix.append("/");
    let plen = prefix.unicode_len();
    let slen = path.unicode_len();
    if slen <= plen {
        return None;
    }
    if !crate::text::match_at(path, prefix.as_str(), 0) {
        return None;
    }
    let rest = path.substring_char(plen, slen);
    match crate::text::find_from(rest, "/", 0) {
        Some(f) => {
            proof {
                crate::text::lemma_find_from_props(rest@, "/"@, 0);
                let sf = crate::text::spec_find(rest@, "/"@);
                if sf == -1 {
                    assert(!crate::text::occurs_at(rest@, "/"@, f as int));
                } else {
                    assert(crate::text::occurs_at(rest@, "/"@, sf));
                    if sf < f {
                        assert(!crate::text::occurs_at(rest@, "/"@, sf));
                    }
                    if f < sf {
                        assert(!crate::text::occurs_at(rest@, "/"@, f as int));
                    }
                }
            }
            let name = rest.substring_char(0, f);
            Some((name.to_owned(), true))
        },
        None => {
            proof {
                crate::text::lemma_find_from_props(rest@, "/"@, 0);
                let sf = crate::text::spec_find(rest@, "/"@);
                if sf >= 0 {
                    assert(crate::text::occurs_at(rest@, "/"@, sf));
                }
            }
            Some((rest.to_owned(), false))
        },
    }
}

/// Whether the collected listing already carries `name`.
fn has_name(items: &Vec<(String, bool)>, name: &str) -> (b: bool)
    ensures
        b == spec_has_name(items.deep_view(), name@),
{
    let n = items.len();
    let mut i: usize = 0;
    while i < n
        invariant
            n == items@.len(),
            i <= n,
            forall|k: int| 0 <= k < i ==> (#[trigger] items.deep_view()[k]).0 != name@,
        decreases n - i,
    {
        if crate::text::str_eq(items[i].0.as_str(), name) {
            proof {
                assert(items.deep_view()[i as int].0 == name@);
            }
            return true;
        }
        proof {
            assert(items.deep_view()[i as int].0 == items@[i as int].0@);
        }
        i += 1;
    }
    false
}

/// List the entries directly under a directory of the store.
pub fn list_dir(fs: &FileStore, params: &LSParams) -> (r: String)
    requires
        fs.wf(),
    ensures
        r@ == spec_ls_output(params.path@, spec_ls_entries(fs.entries(), params.path@)),
{
    let mut items: Vec<(String, bool)> = Vec::new();
    let n = fs.files.len();
    let mut i: usize = 0;
    proof {
        assert(fs.entries().take(0) =~= Seq::<(Seq<char>, Seq<char>)>::empty());
        assert(items.deep_view() =~= spec_ls_entries(fs.entries().take(0), params.path@));
    }
    while i < n
        invariant
            fs.wf(),
            n == fs.files@.len(),
            i <= n,
            items.deep_view() == spec_ls_entries(fs.entries().take(i as int), params.path@),
        decreases n - i,
    {
        proof {
            assert(fs.entries().take(i + 1).drop_last() =~= fs.entries().take(i as int));
            assert(fs.entries().take(i + 1).last() == fs.entries()[i as int]);
        }
        match child_of(fs.files[i].0.as_str(), params.path.as_str()) {
            Some((name, is_dir)) => {
                if !has_name(&items, name.as_str()) {
                    items.push((name, is_dir));
                    proof {
                        assert(items.deep_view() =~= spec_ls_entries(
                            fs.entries().take(i + 1),
                            params.path@,
                        ));
                    }
                } else {
                    proof {
                        assert(items.deep_view() =~= spec_ls_entries(
                            fs.entries().take(i + 1),
                            params.path@,
                        ));
                    }
                }
            },
            None => {
                proof {
                    assert(items.deep_view() =~= spec_ls_entries(
                        fs.entries().take(i + 1),
                        params.path@,
                    ));
                }
            },
        }
        i += 1;
    }
    proof {
        assert(fs.entries().take(n as int) =~= fs.entries());
    }
    let mut r = "Directory listing for '".to_owned();
    r.append(params.path.as_str());
    r.append("':\n");
    r.append(render_ls_entries(&items).as_str());
    r
}

/// Render a collected listing, numbered from 1.
fn render_ls_entries(items: &Vec<(String, bool)>) -> (r: String)
    ensures
        r@ == spec_ls_render(items.deep_view(), 1),
{
    let m = items.len();
    let mut k: usize = 0;
    let mut r = String::new();
    proof {
        assert(items.deep_view().skip(0) =~= items.deep_view());
    }
    while k < m
        invariant
            m == items@.len(),
            k <= m,
            r@ + spec_ls_render(items.deep_view().skip(k as int), 1 + k as int)
                == spec_ls_render(items.deep_view(), 1),
        decreases m - k,
    {
        let num: u64 = 1 + (k as u64);
        r.append(fmt_u64(num).as_str());
        r.append(". [");
        if items[k].1 {
            r.append("DIR");
        } else {
            r.append("FILE");
        }
        r.append("] ");
        r.append(items[k].0.as_str());
        r.append("\n");
        proof {
            let dv = items.deep_view();
            assert(dv.skip(k as int)[0] == dv[k as int]);
            assert(dv[k as int] == (items@[k as int].0@, items@[k as int].1));
            assert(dv.skip(k as int).skip(1) =~= dv.skip(k + 1));
        }
        k += 1;
    }
    proof {
        assert(items.deep_view().skip(m as int) =~= Seq::<(Seq<char>, bool)>::empty());
    }
    r
}

/// What reading a file shows: its lines with 1-based line numbers,
/// optionally restricted to `limit` lines from line `offset` on when both
/// are given (an offset of zero reads from the first line).
pub open spec fn spec_view_output(
    content: Seq<char>,
    offset: Option<u64>,
    limit: Option<u64>,
) -> Seq<char> {
    let lines = spec_lines(content);
    if offset is Some && limit is Some {
        let start = if offset->0 == 0 {
            1
        } else {
            offset->0 as int
        };
        let lo = if start - 1 <= lines.len() {
            start - 1
        } else {
            lines.len() as int
        };
        let count = if limit->0 as int <= lines.len() - lo {
            limit->0 as int
        } else {
            lines.len() - lo
        };
        spec_numbered(lines.subrange(lo, lo + count), start)
    } else {
        spec_numbered(lines, 1)
    }
}

/// Render `content` with line numbers, sliced as `spec_view_output` says.
pub fn render_view(content: &str, offset: Option<u64>, limit: Option<u64>) -> (r: String)
    ensures
        r@ == spec_view_output(content@, offset, limit),
{
    let lines = split_lines(content);
    let n = lines.len();
    match (offset, limit) {
        (Some(off), Some(lim)) => {
            let start: u64 = if off == 0 {
                1
            } else {
                off
            };
            let lo: usize = if start - 1 <= n as u64 {
                (start - 1) as usize
            } else {
                n
            };
            let count: usize = if lim <= (n - lo) as u64 {
                lim as usize
            } else {
                n - lo
            };
            render_numbered(&lines, lo, lo + count, start)
        },
        _ => {
            proof {
                assert(lines.deep_view().subrange(0, n as int) =~= lines.deep_view());
            }
            render_numbered(&lines, 0, n, 1)
        },
    }
}

/// What reading a file yields: the numbered view of a present file, or the
/// not-found error.
pub open spec fn spec_view_result(
    m: Map<Seq<char>, Seq<char>>,
    params: &ViewParams,
    r: &Result<String, ExecError>,
) -> bool {
    if m.contains_key(params.file_path@) {
        r matches Ok(s) && s@ == spec_view_output(m[params.file_path@], params.offset, params.limit)
    } else {
        r matches Err(ExecError::NotFound { path: q }) && q@ == params.file_path@
    }
}

/// Read a file of the store, with optional offset and limit.
pub fn view_file(fs: &FileStore, params: &ViewParams) -> (r: Result<String, ExecError>)
    requires
        fs.wf(),
    ensures
        spec_view_result(fs@, params, &r),
{
    match fs.read(params.file_path.as_str()) {
        Some(content) => Ok(render_view(content.as_str(), params.offset, params.limit)),
        None => Err(ExecError::NotFound { path: params.file_path.clone() }),
    }
}

/// What a file-name search yields: the match listing, or the bad-pattern
/// error for a pattern that does not compile.
pub open spec fn spec_glob_result(
    entries: Seq<(Seq<char>, Seq<char>)>,
    params: &GlobToolParams,
    r: &Result<String, ExecError>,
) -> bool {
    let full = spec_full_pattern(params.pattern@, params.path.deep_view());
    if glob_valid(full) {
        r matches Ok(s) && s@ == spec_glob_output(
            params.pattern@,
            spec_matched_paths(entries, full),
        )
    } else {
        r matches Err(ExecError::BadPattern { pattern: p }) && p@ == full
    }
}

/// What a content search yields: the match listing, or the bad-pattern
/// error naming the offending pattern.
pub open spec fn spec_grep_result(
    entries: Seq<(Seq<char>, Seq<char>)>,
    params: &GrepToolParams,
    r: &Result<String, ExecError>,
) -> bool {
    let filt = params.file_filter.deep_view();
    let root = params.path.deep_view();
    if !regex_valid(params.pattern@) {
        r matches Err(ExecError::BadPattern { pattern: p }) && p@ == params.pattern@
    } else if filt matches Some(f) && !glob_valid(f) {
        r matches Err(ExecError::BadPattern { pattern: p }) && Some(p@) == filt
    } else {
        r matches Ok(s) && s@ == spec_grep_output(
            params.pattern@,
            spec_grep_matches(entries, params.pattern@, filt, root),
        )
    }
}

/// What executing a command does, for every command: how the store changes
/// and what the result text or error is.
pub open spec fn spec_execute_result(
    e_old: Seq<(Seq<char>, Seq<char>)>,
    m2: Map<Seq<char>, Seq<char>>,
    cmd: &ToolCall,
    r: &Result<String, ExecError>,
) -> bool {
    let m = store_map(e_old);
    match cmd {
        ToolCall::View(p) => m2 == m && spec_view_result(m, p, r),
        ToolCall::GlobTool(p) => m2 == m && spec_glob_result(e_old, p, r),
        ToolCall::GrepTool(p) => m2 == m && spec_grep_result(e_old, p, r),
        ToolCall::LS(p) => m2 == m && (r matches Ok(s) && s@ == spec_ls_output(
            p.path@,
            spec_ls_entries(e_old, p.path@),
        )),
        ToolCall::Edit(p) => spec_edit_result(m, p, m2, r),
        ToolCall::Replace(p) => m2 == m.insert(p.file_path@, p.content@) && (r matches Ok(d) && d@
            == spec_diff_text(p.file_path@, spec_content_or_empty(m, p.file_path@), p.content@)),
        ToolCall::Bash(_) => m2 == m && (r matches Err(ExecError::Unsupported { .. })),
        ToolCall::ParseCode(_) => m2 == m && (r matches Err(ExecError::Unsupported { .. })),
    }
}

/// How the store's entries change under a command: a successful file
/// mutation updates or appends the written path's entry; everything else
/// leaves the entries exactly as they were.
pub open spec fn spec_execute_entries(
    e1: Seq<(Seq<char>, Seq<char>)>,
    e2: Seq<(Seq<char>, Seq<char>)>,
    cmd: &ToolCall,
    r: &Result<String, ExecError>,
) -> bool {
    match cmd {
        ToolCall::Edit(p) => if r is Ok {
            e2 == spec_entries_insert(
                e1,
                p.file_path@,
                spec_replace(store_map(e1)[p.file_path@], p.old_string@, p.new_string@),
            )
        } else {
            e2 == e1
        },
        ToolCall::Replace(p) => e2 == spec_entries_insert(e1, p.file_path@, p.content@),
        _ => e2 == e1,
    }
}

impl ToolCall {
    /// Execute this command against the store. Only Edit and Replace
    /// mutate it; every failure leaves it unchanged. Shell commands and
    /// code parsing need the embedding process and come back unsupported
    /// here: the embedder runs them and formats their outcome with
    /// `format_bash_outcome`.
    pub fn execute(&self, fs: &mut FileStore) -> (r: Result<String, ExecError>)
        requires
            old(fs).wf(),
        ensures
            final(fs).wf(),
            spec_execute_result(old(fs).entries(), final(fs)@, self, &r),
            spec_execute_entries(old(fs).entries(), final(fs).entries(), self, &r),
    {
        match self {
            ToolCall::View(p) => view_file(fs, p),
            ToolCall::GlobTool(p) => glob_search(fs, p),
            ToolCall::GrepTool(p) => grep_search(fs, p),
            ToolCall::LS(p) => Ok(list_dir(fs, p)),
            ToolCall::Edit(p) => edit_file(fs, p),
            ToolCall::Replace(p) => Ok(write_file(fs, p)),
            ToolCall::Bash(_) => Err(
                ExecError::Unsupported {
                    what: "Shell execution needs the embedding process".to_owned(),
                },
            ),
            ToolCall::ParseCode(_) => Err(
                ExecError::Unsupported {
                    what: "Code parsing needs the embedding process".to_owned(),
                },
            ),
        }
    }
}

/// Execute a command and, for the file-mutating commands, also hand back
/// the diff preview that was computed before committing the change.
pub fn execute_tool_with_preview(tool_call: &ToolCall, fs: &mut FileStore) -> (r: (
    Result<String, ExecError>,
    Option<String>,
))
    requires
        old(fs).wf(),
    ensures
        final(fs).wf(),
        spec_execute_result(old(fs).entries(), final(fs)@, tool_call, &r.0),
        spec_execute_entries(old(fs).entries(), final(fs).entries(), tool_call, &r.0),
        match tool_call {
            ToolCall::Edit(p) => r.0 is Ok ==> (r.1 matches Some(d) && d@ == spec_diff_text(
                p.file_path@,
                old(fs)@[p.file_path@],
                spec_replace(old(fs)@[p.file_path@], p.old_string@, p.new_string@),
            )),
            ToolCall::Replace(p) => r.1 matches Some(d) && d@ == spec_diff_text(
                p.file_path@,
                spec_content_or_empty(old(fs)@, p.file_path@),
                p.content@,
            ),
            _ => r.1 is None,
        },
{
    match tool_call {
        ToolCall::Edit(p) => {
            match preview_edit(fs, p) {
                Ok(d) => {
                    let res = edit_file(fs, p);
                    (res, Some(d))
                },
                Err(e) => (Err(e), None),
            }
        },
        ToolCall::Replace(p) => {
            let d = preview_write(fs, p);
            let res = write_file(fs, p);
            (Ok(res), Some(d))
        },
        _ => {
            let res = tool_call.execute(fs);
            (res, None)
        },
    }
}

} // verus!
