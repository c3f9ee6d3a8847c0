//! The plan model: tasks parsed from a markdown plan document, pending-work
//! detection, requirement extraction, and the verification report.

use vstd::prelude::*;

use crate::impl_plan::ImplDocs;
use crate::text::{
    ci_matches, find_at, is_digit, is_ws, is_ws_char, lemma_find_at, lemma_skip_digits,
    lemma_skip_ws, match_at, skip_digits, skip_ws, spec_find_at, spec_lines, spec_match_at,
    spec_skip_digits, spec_skip_ws, spec_trim, split_lines, string_from_chars, subvec, to_chars,
    trim_of,
};

verus! {

/// The state of one task checkbox.
#[derive(Debug, Clone, Copy, PartialEq, Eq, Structural)]
pub enum TaskStatus {
    Pending,
    Completed,
    InProgress,
}

impl TaskStatus {
    /// The lower-case name of the status.
    pub fn to_string(&self) -> (s: String)
        ensures
            self is Pending ==> s@ == "pending"@,
            self is Completed ==> s@ == "completed"@,
            self is InProgress ==> s@ == "in_progress"@,
    {
        match self {
            TaskStatus::Pending => String::from_str("pending"),
            TaskStatus::Completed => String::from_str("completed"),
            TaskStatus::InProgress => String::from_str("in_progress"),
        }
    }
}

/// A task extracted from the implementation plan.
#[derive(Debug, Clone)]
pub struct Task {
    pub description: String,
    pub status: TaskStatus,
    pub spec_refs: Vec<String>,
    pub line_number: usize,
    pub priority: Option<u32>,
    pub dependencies: Vec<String>,
    pub complexity: Option<String>,
}

/// The mathematical model of a task.
pub struct TaskModel {
    pub description: Seq<char>,
    pub status: TaskStatus,
    pub spec_refs: Seq<Seq<char>>,
    pub line_number: int,
    pub priority: Option<u32>,
    pub dependencies: Seq<Seq<char>>,
    pub complexity: Option<Seq<char>>,
}

impl DeepView for Task {
    type V = TaskModel;

    open spec fn deep_view(&self) -> TaskModel {
        TaskModel {
            description: self.description@,
            status: self.status,
            spec_refs: self.spec_refs.deep_view(),
            line_number: self.line_number as int,
            priority: self.priority,
            dependencies: self.dependencies.deep_view(),
            complexity: match self.complexity {
                Some(ref c) => Some(c@),
                None => None,
            },
        }
    }
}

/// Whether a line opens a pending checkbox: optional indentation, a dash,
/// optional spacing, then `[` , one whitespace character, `]`.
pub open spec fn is_pending_checkbox_line(line: Seq<char>) -> bool {
    let a = spec_skip_ws(line, 0);
    a < line.len() && line[a] == '-' && {
        let b = spec_skip_ws(line, a + 1);
        b + 2 < line.len() && line[b] == '[' && is_ws(line[b + 1]) && line[b + 2] == ']'
    }
}

/// Executable check matching `is_pending_checkbox_line`.
pub fn pending_checkbox_line(v: &Vec<char>) -> (r: bool)
    ensures
        r == is_pending_checkbox_line(v@),
{
    proof {
        lemma_skip_ws(v@, 0);
    }
    let a = skip_ws(v, 0);
    if a >= v.len() || v[a] != '-' {
        return false;
    }
    proof {
        lemma_skip_ws(v@, a + 1);
    }
    let b = skip_ws(v, a + 1);
    let n = v.len();
    n > 2 && b < n - 2 && v[b] == '[' && is_ws_char(v[b + 1]) && v[b + 2] == ']'
}

/// Whether a line is a numbered section header without a completion mark:
/// `###`, spacing, digits, a dot, digits, spacing, then any further text,
/// and no check-mark character anywhere on the line.
pub open spec fn is_unfinished_header_line(line: Seq<char>) -> bool {
    &&& spec_match_at(line, 0, "###"@)
    &&& {
        let a = spec_skip_ws(line, 3);
        &&& a > 3
        &&& a < line.len()
        &&& is_digit(line[a])
        &&& {
            let d = spec_skip_digits(line, a);
            &&& d < line.len()
            &&& line[d] == '.'
            &&& d + 1 < line.len()
            &&& is_digit(line[d + 1])
            &&& {
                let e = spec_skip_digits(line, d + 1);
                let f = spec_skip_ws(line, e);
                f > e && f < line.len()
            }
        }
    }
    &&& !line.contains('\u{2705}')
    &&& !line.contains('\u{2713}')
}

/// Executable check matching `is_unfinished_header_line`.
pub fn unfinished_header_line(v: &Vec<char>) -> (r: bool)
    ensures
        r == is_unfinished_header_line(v@),
{
    proof {
        reveal_strlit("###");
    }
    if !match_at(v, 0, "###") {
        return false;
    }
    proof {
        lemma_skip_ws(v@, 3);
    }
    let a = skip_ws(v, 3);
    if !(a > 3 && a < v.len() && is_digit_at(v, a)) {
        return false;
    }
    let d = skip_digits(v, a);
    if !(d < v.len() && v[d] == '.' && d + 1 < v.len() && is_digit_at(v, d + 1)) {
        return false;
    }
    let e = skip_digits(v, d + 1);
    let f = skip_ws(v, e);
    if !(f > e && f < v.len()) {
        return false;
    }
    !contains_char(v, '\u{2705}') && !contains_char(v, '\u{2713}')
}

fn is_digit_at(v: &Vec<char>, i: usize) -> (r: bool)
    requires
        i < v@.len(),
    ensures
        r == is_digit(v@[i as int]),
{
    crate::text::is_digit_char(v[i])
}

/// Whether the vector holds the character `c`.
pub fn contains_char(v: &Vec<char>, c: char) -> (r: bool)
    ensures
        r == v@.contains(c),
{
    let n = v.len();
    let mut i: usize = 0;
    while i < n
        invariant
            i <= n,
            n == v@.len(),
            forall|k: int| 0 <= k < i ==> v@[k] != c,
        decreases n - i,
    {
        if v[i] == c {
            return true;
        }
        i = i + 1;
    }
    false
}

/// Pending work in a single legacy plan document: some line opens a pending
/// checkbox, or some line is an unfinished numbered section header.
pub open spec fn spec_legacy_has_pending(content: Seq<char>) -> bool {
    let lines = spec_lines(content);
    exists|i: int|
        0 <= i < lines.len() && (is_pending_checkbox_line(lines[i]) || is_unfinished_header_line(
            lines[i],
        ))
}

/// Pending-checkbox presence in one document.
pub open spec fn spec_doc_has_pending_checkbox(content: Seq<char>) -> bool {
    let lines = spec_lines(content);
    exists|i: int| 0 <= i < lines.len() && is_pending_checkbox_line(lines[i])
}

fn doc_has_pending_checkbox(content: &str) -> (r: bool)
    ensures
        r == spec_doc_has_pending_checkbox(content@),
{
    let lines = split_lines(content);
    let n = lines.len();
    let mut i: usize = 0;
    while i < n
        invariant
            i <= n,
            n == lines@.len(),
            lines.deep_view() == spec_lines(content@),
            forall|k: int| 0 <= k < i ==> !is_pending_checkbox_line(lines.deep_view()[k]),
        decreases n - i,
    {
        let v = to_chars(&lines[i]);
        proof {
            assert(lines.deep_view()[i as int] == lines@[i as int]@);
        }
        if pending_checkbox_line(&v) {
            proof {
                assert(is_pending_checkbox_line(spec_lines(content@)[i as int]));
            }
            return true;
        }
        i = i + 1;
    }
    false
}

/// Checks a legacy plan document for pending work, in both accepted
/// shapes: pending checkboxes and unfinished numbered section headers.
/// A missing document (`None`) holds no pending work.
pub fn has_pending_tasks_legacy(plan: Option<&str>) -> (r: bool)
    ensures
        r == match plan {
            Some(content) => spec_legacy_has_pending(content@),
            None => false,
        },
{
    let content = match plan {
        Some(c) => c,
        None => {
            return false;
        },
    };
    let lines = split_lines(content);
    let n = lines.len();
    let mut i: usize = 0;
    while i < n
        invariant
            plan == Some(content),
            i <= n,
            n == lines@.len(),
            lines.deep_view() == spec_lines(content@),
            forall|k: int|
                0 <= k < i ==> !is_pending_checkbox_line(lines.deep_view()[k])
                    && !is_unfinished_header_line(lines.deep_view()[k]),
        decreases n - i,
    {
        let v = to_chars(&lines[i]);
        proof {
            assert(lines.deep_view()[i as int] == lines@[i as int]@);
        }
        if pending_checkbox_line(&v) {
            proof {
                let ls = spec_lines(content@);
                assert(is_pending_checkbox_line(ls[i as int]) || is_unfinished_header_line(
                    ls[i as int],
                ));
            }
            return true;
        }
        if unfinished_header_line(&v) {
            proof {
                let ls = spec_lines(content@);
                assert(is_pending_checkbox_line(ls[i as int]) || is_unfinished_header_line(
                    ls[i as int],
                ));
            }
            return true;
        }
        i = i + 1;
    }
    false
}

/// Pending work in a hierarchical plan: some feature document, or the
/// index document itself, holds a pending checkbox line.
pub open spec fn spec_hierarchical_has_pending(docs: ImplDocs) -> bool {
    ||| exists|i: int|
        0 <= i < docs.features@.len() && spec_doc_has_pending_checkbox(
            docs.features@[i].content@,
        )
    ||| spec_doc_has_pending_checkbox(docs.readme@)
}

/// Checks the hierarchical plan documents for pending checkboxes.
pub fn has_pending_tasks_hierarchical(docs: &ImplDocs) -> (r: bool)
    ensures
        r == spec_hierarchical_has_pending(*docs),
{
    let n = docs.features.len();
    let mut i: usize = 0;
    while i < n
        invariant
            i <= n,
            n == docs.features@.len(),
            forall|k: int|
                0 <= k < i ==> !spec_doc_has_pending_checkbox(docs.features@[k].content@),
        decreases n - i,
    {
        if doc_has_pending_checkbox(docs.features[i].content.as_str()) {
            proof {
                assert(spec_doc_has_pending_checkbox(docs.features@[i as int].content@));
            }
            return true;
        }
        i = i + 1;
    }
    doc_has_pending_checkbox(docs.readme.as_str())
}

/// Checks for pending work. A hierarchical plan, when one exists, decides
/// alone; otherwise the legacy document decides.
pub fn has_pending_tasks_with_impl_dir(plan: Option<&str>, impl_docs: Option<&ImplDocs>) -> (r:
    bool)
    ensures
        r == match impl_docs {
            Some(docs) => spec_hierarchical_has_pending(*docs),
            None => match plan {
                Some(content) => spec_legacy_has_pending(content@),
                None => false,
            },
        },
{
    match impl_docs {
        Some(docs) => has_pending_tasks_hierarchical(docs),
        None => has_pending_tasks_legacy(plan),
    }
}

/// Checks for pending work; the plain entry point over loaded documents.
pub fn has_pending_tasks(plan: Option<&str>, impl_docs: Option<&ImplDocs>) -> (r: bool)
    ensures
        r == match impl_docs {
            Some(docs) => spec_hierarchical_has_pending(*docs),
            None => match plan {
                Some(content) => spec_legacy_has_pending(content@),
                None => false,
            },
        },
{
    has_pending_tasks_with_impl_dir(plan, impl_docs)
}

/// How many tasks in `s` hold the given status.
pub open spec fn count_status(s: Seq<TaskModel>, st: TaskStatus) -> int
    decreases s.len(),
{
    if s.len() == 0 {
        0
    } else {
        count_status(s.drop_last(), st) + if s.last().status == st {
            1int
        } else {
            0int
        }
    }
}

/// Counts tasks by status: (total, pending, completed, in progress).
pub fn count_tasks(tasks: &Vec<Task>) -> (r: (usize, usize, usize, usize))
    ensures
        r.0 == tasks@.len(),
        r.1 == count_status(tasks.deep_view(), TaskStatus::Pending),
        r.2 == count_status(tasks.deep_view(), TaskStatus::Completed),
        r.3 == count_status(tasks.deep_view(), TaskStatus::InProgress),
{
    let n = tasks.len();
    let mut pending: usize = 0;
    let mut completed: usize = 0;
    let mut in_progress: usize = 0;
    let mut i: usize = 0;
    while i < n
        invariant
            i <= n,
            n == tasks@.len(),
            pending == count_status(tasks.deep_view().subrange(0, i as int), TaskStatus::Pending),
            completed == count_status(
                tasks.deep_view().subrange(0, i as int),
                TaskStatus::Completed,
            ),
            in_progress == count_status(
                tasks.deep_view().subrange(0, i as int),
                TaskStatus::InProgress,
            ),
            pending <= i && completed <= i && in_progress <= i,
        decreases n - i,
    {
        let ghost pre = tasks.deep_view().subrange(0, i as int);
        let ghost post = tasks.deep_view().subrange(0, i + 1);
        proof {
            assert(post.drop_last() =~= pre);
            assert(post.last() == tasks.deep_view()[i as int]);
        }
        match tasks[i].status {
            TaskStatus::Pending => pending = pending + 1,
            TaskStatus::Completed => completed = completed + 1,
            TaskStatus::InProgress => in_progress = in_progress + 1,
        }
        i = i + 1;
    }
    proof {
        assert(tasks.deep_view().subrange(0, n as int) =~= tasks.deep_view());
    }
    (n, pending, completed, in_progress)
}

} // verus!

verus! {

// ---------------------------------------------------------------------------
// The plan grammar, line by line.
// ---------------------------------------------------------------------------

/// A priority section header: `##`, spacing, `Priority`, spacing, digits.
/// `Some(p)` carries the parsed number; a number too large for `u32`
/// clears the current priority instead (`Some(None)`).
pub open spec fn spec_priority_header(line: Seq<char>) -> Option<Option<u32>> {
    if spec_match_at(line, 0, "##"@) && {
        let a = spec_skip_ws(line, 2);
        a > 2 && spec_match_at(line, a, "Priority"@) && {
            let b = spec_skip_ws(line, a + 8);
            b > a + 8 && b < line.len() && is_digit(line[b])
        }
    } {
        let a = spec_skip_ws(line, 2);
        let b = spec_skip_ws(line, a + 8);
        let e = spec_skip_digits(line, b);
        let digits = line.subrange(b, e);
        match crate::text::spec_parse_u64(digits) {
            Some(value) => if value <= u32::MAX as u64 {
                Some(Some(value as u32))
            } else {
                Some(None)
            },
            None => Some(None),
        }
    } else {
        None
    }
}

/// Executable recognizer matching `spec_priority_header`.
pub fn priority_header(v: &Vec<char>) -> (r: Option<Option<u32>>)
    ensures
        r == spec_priority_header(v@),
{
    proof {
        reveal_strlit("##");
        reveal_strlit("Priority");
    }
    if !match_at(v, 0, "##") {
        return None;
    }
    let n = v.len();
    proof {
        lemma_skip_ws(v@, 2);
    }
    let a = skip_ws(v, 2);
    if !(a > 2 && match_at(v, a, "Priority")) {
        return None;
    }
    proof {
        assert("Priority"@.len() == 8);
        assert(a + 8 <= v@.len());
        lemma_skip_ws(v@, a + 8);
    }
    let b = skip_ws(v, a + 8);
    if !(b > a + 8 && b < v.len() && is_digit_at(v, b)) {
        return None;
    }
    let e = skip_digits(v, b);
    proof {
        lemma_skip_digits(v@, b as int);
    }
    match crate::text::parse_u64_range(v, b, e) {
        Some(value) => {
            if value <= u32::MAX as u64 {
                Some(Some(value as u32))
            } else {
                Some(None)
            }
        },
        None => Some(None),
    }
}

/// The status meant by a checkbox marker character.
pub open spec fn spec_marker_status(c: char) -> Option<TaskStatus> {
    if c == ' ' {
        Some(TaskStatus::Pending)
    } else if c == 'x' || c == 'X' {
        Some(TaskStatus::Completed)
    } else if c == '~' {
        Some(TaskStatus::InProgress)
    } else {
        None
    }
}

/// A task checkbox line: indentation, `-`, spacing, `[` marker `]`,
/// at least one space, then a non-empty description starting at the
/// returned index.
pub open spec fn spec_checkbox_line(line: Seq<char>) -> Option<(TaskStatus, int)> {
    let a = spec_skip_ws(line, 0);
    if a < line.len() && line[a] == '-' {
        let b = spec_skip_ws(line, a + 1);
        if b + 2 < line.len() && line[b] == '[' && line[b + 2] == ']' {
            match spec_marker_status(line[b + 1]) {
                Some(st) => {
                    let q = spec_skip_ws(line, b + 3);
                    if q > b + 3 && q < line.len() {
                        Some((st, q))
                    } else {
                        None
                    }
                },
                None => None,
            }
        } else {
            None
        }
    } else {
        None
    }
}

/// Executable recognizer matching `spec_checkbox_line`.
pub fn checkbox_line(v: &Vec<char>) -> (r: Option<(TaskStatus, usize)>)
    ensures
        match r {
            Some(t) => spec_checkbox_line(v@) == Some((t.0, t.1 as int)),
            None => spec_checkbox_line(v@) is None,
        },
{
    proof {
        lemma_skip_ws(v@, 0);
    }
    let n = v.len();
    let a = skip_ws(v, 0);
    if !(a < n && v[a] == '-') {
        return None;
    }
    proof {
        lemma_skip_ws(v@, a + 1);
    }
    let b = skip_ws(v, a + 1);
    if !(n > 2 && b < n - 2 && v[b] == '[' && v[b + 2] == ']') {
        return None;
    }
    let marker = v[b + 1];
    let st = if marker == ' ' {
        TaskStatus::Pending
    } else if marker == 'x' || marker == 'X' {
        TaskStatus::Completed
    } else if marker == '~' {
        TaskStatus::InProgress
    } else {
        return None;
    };
    proof {
        lemma_skip_ws(v@, b + 3);
    }
    let q = skip_ws(v, b + 3);
    if q > b + 3 && q < n {
        Some((st, q))
    } else {
        None
    }
}

// ---------------------------------------------------------------------------
// Reference annotations inside a description: `(refs: a, b)` or `(ref: a)`.
// ---------------------------------------------------------------------------

/// The first reference annotation at or after `from`: its start, the
/// start of its content, and the index of its closing parenthesis.
/// An annotation needs at least one character between the colon and the
/// closing parenthesis; its content starts after any spacing, or right
/// after the colon when everything up to the parenthesis is spacing.
pub open spec fn spec_find_ref_at(desc: Seq<char>, from: int) -> Option<(int, int, int)> {
    let i6 = spec_find_at(desc, "(refs:"@, from);
    let i5 = spec_find_at(desc, "(ref:"@, from);
    let best: Option<(int, int)> = match (i5, i6) {
        (None, None) => None,
        (Some(a), None) => Some((a, a + 5)),
        (None, Some(b)) => Some((b, b + 6)),
        (Some(a), Some(b)) => if a <= b {
            Some((a, a + 5))
        } else {
            Some((b, b + 6))
        },
    };
    match best {
        None => None,
        Some((s, j)) => match spec_find_at(desc, ")"@, j) {
            None => None,
            Some(m) => if m > j {
                let k = spec_skip_ws(desc, j);
                Some((s, if k < m { k } else { j }, m))
            } else {
                None
            },
        },
    }
}

/// Executable search matching `spec_find_ref_at`.
pub fn find_ref_at(v: &Vec<char>, from: usize) -> (r: Option<(usize, usize, usize)>)
    ensures
        match r {
            Some(t) => {
                &&& spec_find_ref_at(v@, from as int) == Some((t.0 as int, t.1 as int, t.2 as int))
                &&& from <= t.0 < t.2 < v@.len()
            },
            None => spec_find_ref_at(v@, from as int) is None,
        },
{
    proof {
        reveal_strlit("(refs:");
        reveal_strlit("(ref:");
        reveal_strlit(")");
        lemma_find_at(v@, "(refs:"@, from as int);
        lemma_find_at(v@, "(ref:"@, from as int);
    }
    let i6 = find_at(v, "(refs:", from);
    let i5 = find_at(v, "(ref:", from);
    let n = v.len();
    proof {
        reveal_strlit("(refs:");
        reveal_strlit("(ref:");
        assert("(ref:"@.len() == 5);
        assert("(refs:"@.len() == 6);
        if let Some(a) = i5 {
            assert(spec_match_at(v@, a as int, "(ref:"@));
            assert(a + 5 <= v@.len());
        }
        if let Some(b) = i6 {
            assert(spec_match_at(v@, b as int, "(refs:"@));
            assert(b + 6 <= v@.len());
        }
    }
    let (s, j): (usize, usize) = match (i5, i6) {
        (None, None) => {
            return None;
        },
        (Some(a), None) => (a, a + 5),
        (None, Some(b)) => (b, b + 6),
        (Some(a), Some(b)) => if a <= b {
            (a, a + 5)
        } else {
            (b, b + 6)
        },
    };
    proof {
        lemma_find_at(v@, ")"@, j as int);
    }
    match find_at(v, ")", j) {
        None => None,
        Some(m) => {
            if m > j {
                proof {
                    lemma_skip_ws(v@, j as int);
                }
                let k = skip_ws(v, j);
                Some((s, if k < m { k } else { j }, m))
            } else {
                None
            }
        },
    }
}

/// The description with every reference annotation at or after `from`
/// removed (not yet trimmed).
pub open spec fn spec_strip_refs(desc: Seq<char>, from: int) -> Seq<char>
    recommends
        0 <= from <= desc.len(),
    decreases desc.len() - from when 0 <= from <= desc.len()
{
    match spec_find_ref_at(desc, from) {
        None => desc.subrange(from, desc.len() as int),
        Some((s, cs, m)) => if from <= s && m < desc.len() {
            desc.subrange(from, s) + spec_strip_refs(desc, m + 1)
        } else {
            desc.subrange(from, desc.len() as int)
        },
    }
}

/// The cleaned description: annotations removed, then trimmed.
pub open spec fn spec_clean_desc(desc: Seq<char>) -> Seq<char> {
    spec_trim(spec_strip_refs(desc, 0))
}

/// The pieces of `s` split at commas starting at `from`, each trimmed.
pub open spec fn spec_split_trim(s: Seq<char>, from: int) -> Seq<Seq<char>>
    recommends
        0 <= from <= s.len(),
    decreases s.len() - from when 0 <= from <= s.len()
{
    match spec_find_at(s, ","@, from) {
        None => seq![spec_trim(s.subrange(from, s.len() as int))],
        Some(i) => if from <= i < s.len() {
            seq![spec_trim(s.subrange(from, i))] + spec_split_trim(s, i + 1)
        } else {
            seq![spec_trim(s.subrange(from, s.len() as int))]
        },
    }
}

/// The references named by the first annotation of a description:
/// its content split at commas, each piece trimmed; none without one.
pub open spec fn spec_refs_of(desc: Seq<char>) -> Seq<Seq<char>> {
    match spec_find_ref_at(desc, 0) {
        None => Seq::empty(),
        Some((s, cs, m)) => if 0 <= cs <= m <= desc.len() {
            spec_split_trim(desc.subrange(cs, m), 0)
        } else {
            Seq::empty()
        },
    }
}

/// Splits `v` at commas and trims each piece, matching `spec_split_trim`.
pub fn split_trim_commas(v: &Vec<char>) -> (r: Vec<String>)
    ensures
        r.deep_view() == spec_split_trim(v@, 0),
{
    let n = v.len();
    let mut out: Vec<String> = Vec::new();
    let mut pos: usize = 0;
    loop
        invariant
            pos <= n,
            n == v@.len(),
            out.deep_view() + spec_split_trim(v@, pos as int) == spec_split_trim(v@, 0),
        decreases n - pos,
    {
        proof {
            reveal_strlit(",");
            lemma_find_at(v@, ","@, pos as int);
        }
        let ghost dv0 = out.deep_view();
        match find_at(v, ",", pos) {
            None => {
                let piece = subvec(v, pos, n);
                let t = crate::text::trimmed_string(&piece);
                out.push(t);
                proof {
                    assert(out.deep_view() =~= dv0.push(spec_trim(v@.subrange(pos as int, n as int))));
                    assert(out.deep_view() =~= spec_split_trim(v@, 0));
                }
                return out;
            },
            Some(i) => {
                let piece = subvec(v, pos, i);
                let t = crate::text::trimmed_string(&piece);
                out.push(t);
                proof {
                    assert(out.deep_view() =~= dv0.push(spec_trim(v@.subrange(pos as int, i as int))));
                    assert(out.deep_view() + spec_split_trim(v@, i + 1) =~= spec_split_trim(v@, 0));
                }
                pos = i + 1;
            },
        }
    }
}

/// Cleans a description: returns the trimmed text without annotations,
/// and the references of the first annotation.
pub fn clean_desc_and_refs(desc: &Vec<char>) -> (r: (String, Vec<String>))
    ensures
        r.0@ == spec_clean_desc(desc@),
        r.1.deep_view() == spec_refs_of(desc@),
{
    let refs: Vec<String> = match find_ref_at(desc, 0) {
        Some((s, cs, m)) => {
            if cs <= m {
                let content = subvec(desc, cs, m);
                split_trim_commas(&content)
            } else {
                Vec::new()
            }
        },
        None => Vec::new(),
    };
    let n = desc.len();
    let mut kept: Vec<char> = Vec::new();
    let mut pos: usize = 0;
    loop
        invariant_except_break
            pos <= n,
            n == desc@.len(),
            kept@ + spec_strip_refs(desc@, pos as int) == spec_strip_refs(desc@, 0),
        ensures
            kept@ == spec_strip_refs(desc@, 0),
        decreases n - pos,
    {
        let ghost k0 = kept@;
        match find_ref_at(desc, pos) {
            None => {
                let mut tail = subvec(desc, pos, n);
                kept.append(&mut tail);
                proof {
                    assert(kept@ =~= spec_strip_refs(desc@, 0));
                }
                break;
            },
            Some((s, cs, m)) => {
                if s < pos {
                    proof {
                        assert(false);
                    }
                } else {
                    let mut gap = subvec(desc, pos, s);
                    kept.append(&mut gap);
                    proof {
                        assert(kept@ + spec_strip_refs(desc@, m + 1) =~= spec_strip_refs(
                            desc@,
                            0,
                        ));
                    }
                    pos = m + 1;
                }
            },
        }
    }
    let d = crate::text::trimmed_string(&kept);
    (d, refs)
}

} // verus!

verus! {

/// Keeps only the non-empty pieces.
pub open spec fn spec_keep_nonempty(s: Seq<Seq<char>>) -> Seq<Seq<char>>
    decreases s.len(),
{
    if s.len() == 0 {
        Seq::empty()
    } else if s.last().len() > 0 {
        spec_keep_nonempty(s.drop_last()).push(s.last())
    } else {
        spec_keep_nonempty(s.drop_last())
    }
}

/// A dependency annotation: `Dependencies:` anywhere on the line, then
/// the rest of the line as comma-separated names, trimmed, empty names
/// dropped; the single name `none` (any case) means no dependencies.
pub open spec fn spec_deps_line(line: Seq<char>) -> Option<Seq<Seq<char>>> {
    match spec_find_at(line, "Dependencies:"@, 0) {
        None => None,
        Some(i) => {
            let j = i + 13;
            if j >= line.len() {
                None
            } else {
                let k = spec_skip_ws(line, j);
                if k >= line.len() {
                    Some(Seq::empty())
                } else {
                    let content = line.subrange(k, line.len() as int);
                    if crate::text::spec_ci_matches(spec_trim(content), "none"@) {
                        Some(Seq::empty())
                    } else {
                        Some(spec_keep_nonempty(spec_split_trim(content, 0)))
                    }
                }
            }
        },
    }
}

/// Executable recognizer matching `spec_deps_line`.
pub fn deps_line(v: &Vec<char>) -> (r: Option<Vec<String>>)
    ensures
        match r {
            Some(d) => spec_deps_line(v@) == Some(d.deep_view()),
            None => spec_deps_line(v@) is None,
        },
{
    proof {
        reveal_strlit("Dependencies:");
        reveal_strlit("none");
        lemma_find_at(v@, "Dependencies:"@, 0);
    }
    let n = v.len();
    let i = match find_at(v, "Dependencies:", 0) {
        Some(i) => i,
        None => {
            return None;
        },
    };
    let j = i + 13;
    if j >= n {
        return None;
    }
    proof {
        lemma_skip_ws(v@, j as int);
    }
    let k = skip_ws(v, j);
    if k >= n {
        return Some(Vec::new());
    }
    let content = subvec(v, k, n);
    let (ta, tb) = trim_of(&content);
    if ci_matches(&content, ta, tb, "none") {
        proof {
            assert(content@.subrange(ta as int, tb as int) == spec_trim(content@));
        }
        return Some(Vec::new());
    }
    let pieces = split_trim_commas(&content);
    let m = pieces.len();
    let mut out: Vec<String> = Vec::new();
    let mut t: usize = 0;
    while t < m
        invariant
            t <= m,
            m == pieces@.len(),
            out.deep_view() == spec_keep_nonempty(pieces.deep_view().subrange(0, t as int)),
        decreases m - t,
    {
        let ghost pre = pieces.deep_view().subrange(0, t as int);
        let ghost post = pieces.deep_view().subrange(0, t + 1);
        proof {
            assert(post.drop_last() =~= pre);
            assert(post.last() == pieces.deep_view()[t as int]);
        }
        if pieces[t].unicode_len() > 0 {
            let p = pieces[t].clone();
            proof {
                assert(p@ == pieces@[t as int]@);
            }
            out.push(p);
        }
        t = t + 1;
    }
    proof {
        assert(pieces.deep_view().subrange(0, m as int) =~= pieces.deep_view());
    }
    Some(out)
}

/// A complexity annotation: `Complexity:` anywhere on the line, then
/// after spacing one of the words `low`, `medium`, `high`.
pub open spec fn spec_complexity_line(line: Seq<char>) -> Option<Seq<char>> {
    match spec_find_at(line, "Complexity:"@, 0) {
        None => None,
        Some(i) => {
            let j = i + 11;
            if j > line.len() {
                None
            } else {
                let k = spec_skip_ws(line, j);
                if spec_match_at(line, k, "low"@) {
                    Some("low"@)
                } else if spec_match_at(line, k, "medium"@) {
                    Some("medium"@)
                } else if spec_match_at(line, k, "high"@) {
                    Some("high"@)
                } else {
                    None
                }
            }
        },
    }
}

/// Executable recognizer matching `spec_complexity_line`.
pub fn complexity_line(v: &Vec<char>) -> (r: Option<String>)
    ensures
        match r {
            Some(c) => spec_complexity_line(v@) == Some(c@),
            None => spec_complexity_line(v@) is None,
        },
{
    proof {
        reveal_strlit("Complexity:");
        reveal_strlit("low");
        reveal_strlit("medium");
        reveal_strlit("high");
        lemma_find_at(v@, "Complexity:"@, 0);
    }
    let n = v.len();
    let i = match find_at(v, "Complexity:", 0) {
        Some(i) => i,
        None => {
            return None;
        },
    };
    let j = i + 11;
    proof {
        lemma_skip_ws(v@, j as int);
    }
    let k = skip_ws(v, j);
    if match_at(v, k, "low") {
        Some(String::from_str("low"))
    } else if match_at(v, k, "medium") {
        Some(String::from_str("medium"))
    } else if match_at(v, k, "high") {
        Some(String::from_str("high"))
    } else {
        None
    }
}

// ---------------------------------------------------------------------------
// Parsing a whole plan document.
// ---------------------------------------------------------------------------

/// The model of the task opened by a checkbox on line `idx` (0-based).
pub open spec fn spec_task_model(
    line: Seq<char>,
    idx: int,
    prio: Option<u32>,
    st: TaskStatus,
    q: int,
) -> TaskModel {
    let desc = line.subrange(q, line.len() as int);
    TaskModel {
        description: spec_clean_desc(desc),
        status: st,
        spec_refs: spec_refs_of(desc),
        line_number: idx + 1,
        priority: prio,
        dependencies: Seq::empty(),
        complexity: None,
    }
}

/// One parsing step: how line `idx` extends the accumulated tasks.
/// A priority header resets the current priority; a checkbox opens a
/// task; an annotation rewrites the most recently opened task.
pub open spec fn spec_plan_step(
    line: Seq<char>,
    idx: int,
    prio: Option<u32>,
    acc: Seq<TaskModel>,
) -> (Option<u32>, Seq<TaskModel>) {
    match spec_priority_header(line) {
        Some(p) => (p, acc),
        None => {
            let acc1 = match spec_checkbox_line(line) {
                Some((st, q)) => acc.push(spec_task_model(line, idx, prio, st, q)),
                None => acc,
            };
            let acc2 = if acc1.len() > 0 {
                let t0 = acc1.last();
                let t1 = match spec_deps_line(line) {
                    Some(d) => TaskModel { dependencies: d, ..t0 },
                    None => t0,
                };
                let t2 = match spec_complexity_line(line) {
                    Some(c) => TaskModel { complexity: Some(c), ..t1 },
                    None => t1,
                };
                acc1.update(acc1.len() - 1, t2)
            } else {
                acc1
            };
            (prio, acc2)
        },
    }
}

/// The tasks of the lines from `idx` on, given the current priority and
/// the tasks accumulated so far.
pub open spec fn spec_plan_fold(
    lines: Seq<Seq<char>>,
    idx: int,
    prio: Option<u32>,
    acc: Seq<TaskModel>,
) -> Seq<TaskModel>
    decreases lines.len() - idx when 0 <= idx
{
    if idx >= lines.len() {
        acc
    } else {
        let (p2, acc2) = spec_plan_step(lines[idx], idx, prio, acc);
        spec_plan_fold(lines, idx + 1, p2, acc2)
    }
}

/// The tasks of a plan document.
pub open spec fn spec_parse_plan(content: Seq<char>) -> Seq<TaskModel> {
    spec_plan_fold(spec_lines(content), 0, None, Seq::empty())
}

/// Parses an implementation plan document into its tasks, line by line,
/// matching `spec_parse_plan`. Lines that fit no pattern yield nothing.
pub fn parse_plan(content: &str) -> (tasks: Vec<Task>)
    ensures
        tasks.deep_view() == spec_parse_plan(content@),
{
    let lines = split_lines(content);
    let n = lines.len();
    let mut tasks: Vec<Task> = Vec::new();
    let mut prio: Option<u32> = None;
    let mut i: usize = 0;
    proof {
        assert(tasks.deep_view() =~= Seq::<TaskModel>::empty());
    }
    while i < n
        invariant
            i <= n,
            n == lines@.len(),
            lines.deep_view() == spec_lines(content@),
            spec_plan_fold(lines.deep_view(), i as int, prio, tasks.deep_view())
                == spec_parse_plan(content@),
            i < n ==> i + 1 <= usize::MAX,
        decreases n - i,
    {
        let ghost line_s = lines.deep_view()[i as int];
        let ghost acc0 = tasks.deep_view();
        let ghost prio0 = prio;
        let v = to_chars(&lines[i]);
        proof {
            assert(v@ == line_s);
        }
        match priority_header(&v) {
            Some(p) => {
                prio = p;
                proof {
                    assert(spec_plan_step(line_s, i as int, prio0, acc0) == (prio, acc0));
                }
            },
            None => {
                match checkbox_line(&v) {
                    Some((st, q)) => {
                        let desc = subvec(&v, q, v.len());
                        let (description, spec_refs) = clean_desc_and_refs(&desc);
                        proof {
                            assert(desc@ == line_s.subrange(q as int, line_s.len() as int));
                        }
                        let t = Task {
                            description,
                            status: st,
                            spec_refs,
                            line_number: i + 1,
                            priority: prio,
                            dependencies: Vec::new(),
                            complexity: None,
                        };
                        proof {
                            assert(t.deep_view() == spec_task_model(
                                line_s,
                                i as int,
                                prio,
                                st,
                                q as int,
                            )) by {
                                assert(t.dependencies.deep_view() =~= Seq::<Seq<char>>::empty());
                            }
                        }
                        tasks.push(t);
                        proof {
                            assert(tasks.deep_view() =~= acc0.push(
                                spec_task_model(line_s, i as int, prio, st, q as int),
                            ));
                        }
                    },
                    None => {},
                }
                let ghost acc1 = tasks.deep_view();
                if tasks.len() > 0 {
                    let deps = deps_line(&v);
                    let comp = complexity_line(&v);
                    if deps.is_some() || comp.is_some() {
                        let last_idx = tasks.len() - 1;
                        let mut t = match tasks.pop() {
                            Some(t) => t,
                            None => {
                                proof {
                                    assert(false);
                                }
                                unreached()
                            },
                        };
                        proof {
                            assert(t.deep_view() == acc1.last());
                        }
                        match deps {
                            Some(d) => {
                                t.dependencies = d;
                            },
                            None => {},
                        }
                        match comp {
                            Some(c) => {
                                t.complexity = Some(c);
                            },
                            None => {},
                        }
                        tasks.push(t);
                        proof {
                            let t0 = acc1.last();
                            let t1 = match spec_deps_line(line_s) {
                                Some(d) => TaskModel { dependencies: d, ..t0 },
                                None => t0,
                            };
                            let t2 = match spec_complexity_line(line_s) {
                                Some(c) => TaskModel { complexity: Some(c), ..t1 },
                                None => t1,
                            };
                            assert(tasks.deep_view() =~= acc1.update(acc1.len() - 1, t2));
                        }
                    } else {
                        proof {
                            let t0 = acc1.last();
                            assert(tasks.deep_view() =~= acc1.update(acc1.len() - 1, t0));
                        }
                    }
                }
                proof {
                    assert(spec_plan_step(line_s, i as int, prio0, acc0) == (
                        prio,
                        tasks.deep_view(),
                    ));
                }
            },
        }
        i = i + 1;
    }
    proof {
        assert(tasks.deep_view() == spec_parse_plan(content@));
    }
    tasks
}

} // verus!

verus! {

/// The kind of a requirement found in a specification document.
#[derive(Debug, Clone, Copy, PartialEq, Eq, Structural)]
pub enum RequirementType {
    Section,
    Task,
    Rfc2119,
}

/// A requirement extracted from a specification document.
#[derive(Debug, Clone)]
pub struct Requirement {
    pub spec_name: String,
    pub req_type: RequirementType,
    pub text: String,
    pub line_number: usize,
}

/// The model of a requirement.
pub struct RequirementModel {
    pub spec_name: Seq<char>,
    pub req_type: RequirementType,
    pub text: Seq<char>,
    pub line_number: int,
}

impl DeepView for Requirement {
    type V = RequirementModel;

    open spec fn deep_view(&self) -> RequirementModel {
        RequirementModel {
            spec_name: self.spec_name@,
            req_type: self.req_type,
            text: self.text@,
            line_number: self.line_number as int,
        }
    }
}

/// One specification document: its name (the file stem) and its text.
#[derive(Debug, Clone)]
pub struct SpecDoc {
    pub name: String,
    pub content: String,
}

/// The model of a specification document.
pub struct SpecDocModel {
    pub name: Seq<char>,
    pub content: Seq<char>,
}

impl DeepView for SpecDoc {
    type V = SpecDocModel;

    open spec fn deep_view(&self) -> SpecDocModel {
        SpecDocModel { name: self.name@, content: self.content@ }
    }
}

/// A section header's text: `###`, spacing, then the rest of the line.
pub open spec fn spec_section_text(line: Seq<char>) -> Option<Seq<char>> {
    if spec_match_at(line, 0, "###"@) && {
        let a = spec_skip_ws(line, 3);
        a > 3 && a < line.len()
    } {
        Some(line.subrange(spec_skip_ws(line, 3), line.len() as int))
    } else {
        None
    }
}

/// Executable extraction matching `spec_section_text`.
pub fn section_text(v: &Vec<char>) -> (r: Option<String>)
    ensures
        match r {
            Some(s) => spec_section_text(v@) == Some(s@),
            None => spec_section_text(v@) is None,
        },
{
    proof {
        reveal_strlit("###");
    }
    if !match_at(v, 0, "###") {
        return None;
    }
    proof {
        lemma_skip_ws(v@, 3);
    }
    let a = skip_ws(v, 3);
    if a > 3 && a < v.len() {
        let sub = subvec(v, a, v.len());
        Some(string_from_chars(&sub))
    } else {
        None
    }
}

/// A specification checkbox line's text: like a plan checkbox, but the
/// marker is a space, `x` or `X`, and the text is taken as it stands.
pub open spec fn spec_spec_task_text(line: Seq<char>) -> Option<Seq<char>> {
    let a = spec_skip_ws(line, 0);
    if a < line.len() && line[a] == '-' && {
        let b = spec_skip_ws(line, a + 1);
        &&& b + 2 < line.len()
        &&& line[b] == '['
        &&& (line[b + 1] == ' ' || line[b + 1] == 'x' || line[b + 1] == 'X')
        &&& line[b + 2] == ']'
        &&& {
            let q = spec_skip_ws(line, b + 3);
            q > b + 3 && q < line.len()
        }
    } {
        let b = spec_skip_ws(line, a + 1);
        Some(line.subrange(spec_skip_ws(line, b + 3), line.len() as int))
    } else {
        None
    }
}

/// Executable extraction matching `spec_spec_task_text`.
pub fn spec_task_text(v: &Vec<char>) -> (r: Option<String>)
    ensures
        match r {
            Some(s) => spec_spec_task_text(v@) == Some(s@),
            None => spec_spec_task_text(v@) is None,
        },
{
    proof {
        lemma_skip_ws(v@, 0);
    }
    let n = v.len();
    let a = skip_ws(v, 0);
    if !(a < n && v[a] == '-') {
        return None;
    }
    proof {
        lemma_skip_ws(v@, a + 1);
    }
    let b = skip_ws(v, a + 1);
    if !(n > 2 && b < n - 2 && v[b] == '[' && (v[b + 1] == ' ' || v[b + 1] == 'x' || v[b + 1]
        == 'X') && v[b + 2] == ']') {
        return None;
    }
    proof {
        lemma_skip_ws(v@, b + 3);
    }
    let q = skip_ws(v, b + 3);
    if q > b + 3 && q < n {
        let sub = subvec(v, q, n);
        Some(string_from_chars(&sub))
    } else {
        None
    }
}

/// True when `c` can stand inside a word: a letter, digit or underscore.
pub open spec fn is_word_char(c: char) -> bool {
    ||| 48 <= c as u32 <= 57
    ||| 65 <= c as u32 <= 90
    ||| 97 <= c as u32 <= 122
    ||| c == '_'
}

/// Whether `kw` stands in `line` as a whole word, with no word character
/// directly before or after it.
pub open spec fn spec_has_kw(line: Seq<char>, kw: Seq<char>) -> bool {
    exists|i: int|
        {
            &&& #[trigger] spec_match_at(line, i, kw)
            &&& (i == 0 || !is_word_char(line[i - 1]))
            &&& (i + kw.len() == line.len() || !is_word_char(line[i + kw.len()]))
        }
}

/// Executable whole-word search matching `spec_has_kw`.
pub fn has_kw(v: &Vec<char>, kw: &str) -> (r: bool)
    requires
        kw@.len() > 0,
    ensures
        r == spec_has_kw(v@, kw@),
{
    let n = v.len();
    let m = kw.unicode_len();
    let mut pos: usize = 0;
    loop
        invariant
            pos <= n + 1,
            n == v@.len(),
            m == kw@.len(),
            m > 0,
            forall|t: int|
                0 <= t < pos ==> !(#[trigger] spec_match_at(v@, t, kw@) && (t == 0
                    || !is_word_char(v@[t - 1])) && (t + kw@.len() == v@.len() || !is_word_char(
                    v@[t + kw@.len()],
                ))),
        decreases n + 1 - pos,
    {
        proof {
            lemma_find_at(v@, kw@, pos as int);
        }
        match find_at(v, kw, pos) {
            None => {
                proof {
                    assert forall|t: int| pos <= t implies !spec_match_at(v@, t, kw@) by {}
                }
                return false;
            },
            Some(j) => {
                let left_ok = j == 0 || !word_char_at(v, j - 1);
                let right_ok = j + m == n || !word_char_at(v, j + m);
                if left_ok && right_ok {
                    return true;
                }
                proof {
                    assert(pos <= j < n);
                }
                pos = j + 1;
            },
        }
    }
}

fn word_char_at(v: &Vec<char>, i: usize) -> (r: bool)
    requires
        i < v@.len(),
    ensures
        r == is_word_char(v@[i as int]),
{
    let c = v[i];
    let cu = c as u32;
    (48 <= cu && cu <= 57) || (65 <= cu && cu <= 90) || (97 <= cu && cu <= 122) || c == '_'
}

/// Whether a line uses a normative keyword as a whole word.
pub open spec fn spec_has_rfc2119(line: Seq<char>) -> bool {
    ||| spec_has_kw(line, "MUST"@)
    ||| spec_has_kw(line, "REQUIRED"@)
    ||| spec_has_kw(line, "SHALL"@)
    ||| spec_has_kw(line, "SHOULD"@)
    ||| spec_has_kw(line, "RECOMMENDED"@)
    ||| spec_has_kw(line, "MAY"@)
    ||| spec_has_kw(line, "OPTIONAL"@)
}

/// Executable check matching `spec_has_rfc2119`.
pub fn has_rfc2119(v: &Vec<char>) -> (r: bool)
    ensures
        r == spec_has_rfc2119(v@),
{
    proof {
        reveal_strlit("MUST");
        reveal_strlit("REQUIRED");
        reveal_strlit("SHALL");
        reveal_strlit("SHOULD");
        reveal_strlit("RECOMMENDED");
        reveal_strlit("MAY");
        reveal_strlit("OPTIONAL");
    }
    has_kw(v, "MUST") || has_kw(v, "REQUIRED") || has_kw(v, "SHALL") || has_kw(v, "SHOULD")
        || has_kw(v, "RECOMMENDED") || has_kw(v, "MAY") || has_kw(v, "OPTIONAL")
}

} // verus!

verus! {

/// The requirements one line of a document yields: its section header,
/// its checkbox task, and its normative sentence, in that order.
pub open spec fn spec_reqs_of_line(name: Seq<char>, line: Seq<char>, ln: int) -> Seq<
    RequirementModel,
> {
    (match spec_section_text(line) {
        Some(t) => seq![
            RequirementModel {
                spec_name: name,
                req_type: RequirementType::Section,
                text: t,
                line_number: ln,
            },
        ],
        None => Seq::empty(),
    }) + (match spec_spec_task_text(line) {
        Some(t) => seq![
            RequirementModel {
                spec_name: name,
                req_type: RequirementType::Task,
                text: t,
                line_number: ln,
            },
        ],
        None => Seq::empty(),
    }) + (if spec_has_rfc2119(line) {
        seq![
            RequirementModel {
                spec_name: name,
                req_type: RequirementType::Rfc2119,
                text: line,
                line_number: ln,
            },
        ]
    } else {
        Seq::empty()
    })
}

/// The requirements of a document's lines from `j` on, onto `acc`.
pub open spec fn spec_reqs_doc(
    name: Seq<char>,
    lines: Seq<Seq<char>>,
    j: int,
    acc: Seq<RequirementModel>,
) -> Seq<RequirementModel>
    decreases lines.len() - j when 0 <= j
{
    if j >= lines.len() {
        acc
    } else {
        spec_reqs_doc(name, lines, j + 1, acc + spec_reqs_of_line(name, lines[j], j + 1))
    }
}

/// The requirements of the documents from `d` on, onto `acc`.
pub open spec fn spec_reqs_docs(docs: Seq<SpecDocModel>, d: int, acc: Seq<RequirementModel>) -> Seq<
    RequirementModel,
>
    decreases docs.len() - d when 0 <= d
{
    if d >= docs.len() {
        acc
    } else {
        spec_reqs_docs(
            docs,
            d + 1,
            spec_reqs_doc(docs[d].name, spec_lines(docs[d].content), 0, acc),
        )
    }
}

/// All requirements of the given specification documents, in document
/// and line order.
pub open spec fn spec_extract_requirements(docs: Seq<SpecDocModel>) -> Seq<RequirementModel> {
    spec_reqs_docs(docs, 0, Seq::empty())
}

/// Extracts every requirement of the specification documents: section
/// headers, checkbox tasks, and lines using normative keywords, in
/// document and line order, matching `spec_extract_requirements`.
pub fn extract_requirements(docs: &Vec<SpecDoc>) -> (r: Vec<Requirement>)
    ensures
        r.deep_view() == spec_extract_requirements(docs.deep_view()),
{
    let nd = docs.len();
    let mut out: Vec<Requirement> = Vec::new();
    let mut d: usize = 0;
    proof {
        assert(out.deep_view() =~= Seq::<RequirementModel>::empty());
    }
    while d < nd
        invariant
            d <= nd,
            nd == docs@.len(),
            spec_reqs_docs(docs.deep_view(), d as int, out.deep_view())
                == spec_extract_requirements(docs.deep_view()),
        decreases nd - d,
    {
        let ghost dm = docs.deep_view();
        proof {
            assert(dm[d as int] == docs@[d as int].deep_view());
        }
        let doc = &docs[d];
        let lines = split_lines(doc.content.as_str());
        let nl = lines.len();
        let ghost ls = spec_lines(doc.content@);
        let mut j: usize = 0;
        while j < nl
            invariant
                j <= nl,
                d < nd,
                nd == docs@.len(),
                nl == lines@.len(),
                lines.deep_view() == ls,
                dm == docs.deep_view(),
                dm[d as int] == docs@[d as int].deep_view(),
                ls == spec_lines(docs@[d as int].content@),
                spec_reqs_docs(
                    dm,
                    d + 1,
                    spec_reqs_doc(docs@[d as int].name@, ls, j as int, out.deep_view()),
                ) == spec_extract_requirements(dm),
            decreases nl - j,
        {
            let ghost name = docs@[d as int].name@;
            let ghost acc0 = out.deep_view();
            proof {
                assert(lines.deep_view()[j as int] == lines@[j as int]@);
            }
            let v = to_chars(&lines[j]);
            let ghost per_line = spec_reqs_of_line(name, ls[j as int], j + 1);
            let ghost seg1: Seq<RequirementModel> = match spec_section_text(ls[j as int]) {
                Some(t) => seq![
                    RequirementModel {
                        spec_name: name,
                        req_type: RequirementType::Section,
                        text: t,
                        line_number: j + 1,
                    },
                ],
                None => Seq::empty(),
            };
            let ghost seg2: Seq<RequirementModel> = match spec_spec_task_text(ls[j as int]) {
                Some(t) => seq![
                    RequirementModel {
                        spec_name: name,
                        req_type: RequirementType::Task,
                        text: t,
                        line_number: j + 1,
                    },
                ],
                None => Seq::empty(),
            };
            let ghost seg3: Seq<RequirementModel> = if spec_has_rfc2119(ls[j as int]) {
                seq![
                    RequirementModel {
                        spec_name: name,
                        req_type: RequirementType::Rfc2119,
                        text: ls[j as int],
                        line_number: j + 1,
                    },
                ]
            } else {
                Seq::empty()
            };
            proof {
                assert(per_line == seg1 + seg2 + seg3);
            }
            match section_text(&v) {
                Some(t) => {
                    let ghost o0 = out.deep_view();
                    out.push(
                        Requirement {
                            spec_name: docs[d].name.clone(),
                            req_type: RequirementType::Section,
                            text: t,
                            line_number: j + 1,
                        },
                    );
                    proof {
                        assert(out.deep_view() =~= o0 + seg1);
                    }
                },
                None => {
                    proof {
                        assert(out.deep_view() =~= out.deep_view() + seg1);
                    }
                },
            }
            proof {
                assert(out.deep_view() =~= acc0 + seg1);
            }
            match spec_task_text(&v) {
                Some(t) => {
                    let ghost o0 = out.deep_view();
                    out.push(
                        Requirement {
                            spec_name: docs[d].name.clone(),
                            req_type: RequirementType::Task,
                            text: t,
                            line_number: j + 1,
                        },
                    );
                    proof {
                        assert(out.deep_view() =~= o0 + seg2);
                    }
                },
                None => {},
            }
            proof {
                assert(out.deep_view() =~= acc0 + seg1 + seg2);
            }
            if has_rfc2119(&v) {
                let ghost o0 = out.deep_view();
                out.push(
                    Requirement {
                        spec_name: docs[d].name.clone(),
                        req_type: RequirementType::Rfc2119,
                        text: string_from_chars(&v),
                        line_number: j + 1,
                    },
                );
                proof {
                    assert(out.deep_view() =~= o0 + seg3);
                }
            }
            proof {
                assert(out.deep_view() =~= acc0 + seg1 + seg2 + seg3);
                assert(out.deep_view() =~= acc0 + per_line);
            }
            j = j + 1;
        }
        proof {
            assert(ls.len() == nl);
        }
        d = d + 1;
    }
    out
}

} // verus!

verus! {

/// The feature name a task reference points at, for coverage: the
/// `specs/` prefix and the `.md` suffix stripped.
pub open spec fn spec_ref_name(s: Seq<char>) -> Seq<char> {
    crate::impl_plan::spec_strip_suffix_all(
        crate::impl_plan::spec_strip_prefix_all(s, "specs/"@),
        ".md"@,
    )
}

/// Executable extraction matching `spec_ref_name`.
pub fn ref_name(spec_ref: &str) -> (r: String)
    ensures
        r@ == spec_ref_name(spec_ref@),
{
    crate::impl_plan::plain_ref_name(spec_ref)
}

/// How many references among `refs` name the given feature.
pub open spec fn spec_count_refs(refs: Seq<Seq<char>>, name: Seq<char>) -> int
    decreases refs.len(),
{
    if refs.len() == 0 {
        0
    } else {
        spec_count_refs(refs.drop_last(), name) + if spec_ref_name(refs.last()) == name {
            1int
        } else {
            0int
        }
    }
}

/// How many task references across all tasks name the given feature.
pub open spec fn spec_task_ref_count(ts: Seq<TaskModel>, name: Seq<char>) -> int
    decreases ts.len(),
{
    if ts.len() == 0 {
        0
    } else {
        spec_task_ref_count(ts.drop_last(), name) + spec_count_refs(ts.last().spec_refs, name)
    }
}

proof fn lemma_ref_counts_nonneg(ts: Seq<TaskModel>, name: Seq<char>)
    ensures
        spec_task_ref_count(ts, name) >= 0,
    decreases ts.len(),
{
    if ts.len() > 0 {
        lemma_ref_counts_nonneg(ts.drop_last(), name);
        lemma_count_refs_nonneg(ts.last().spec_refs, name);
    }
}

proof fn lemma_count_refs_nonneg(refs: Seq<Seq<char>>, name: Seq<char>)
    ensures
        spec_count_refs(refs, name) >= 0,
    decreases refs.len(),
{
    if refs.len() > 0 {
        lemma_count_refs_nonneg(refs.drop_last(), name);
    }
}

/// The value `x`, capped at `cap`.
pub open spec fn spec_cap(x: int, cap: int) -> int {
    if x > cap {
        cap
    } else {
        x
    }
}

/// Counts the task references naming a feature, matching
/// `spec_task_ref_count`; a count beyond `u64` saturates there.
pub fn task_ref_count(tasks: &Vec<Task>, name: &str) -> (r: u64)
    ensures
        r == spec_cap(spec_task_ref_count(tasks.deep_view(), name@), u64::MAX as int),
{
    let nt = tasks.len();
    let mut count: u64 = 0;
    let mut i: usize = 0;
    while i < nt
        invariant
            i <= nt,
            nt == tasks@.len(),
            count == spec_cap(
                spec_task_ref_count(tasks.deep_view().subrange(0, i as int), name@),
                u64::MAX as int,
            ),
        decreases nt - i,
    {
        let ghost tm = tasks.deep_view();
        let ghost pre = tm.subrange(0, i as int);
        let ghost post = tm.subrange(0, i + 1);
        proof {
            assert(post.drop_last() =~= pre);
            assert(post.last() == tm[i as int]);
            lemma_task_ref_prefix(tm, i + 1, name@);
            lemma_ref_counts_nonneg(pre, name@);
            lemma_count_refs_nonneg(tm[i as int].spec_refs, name@);
            assert(spec_task_ref_count(post, name@) == spec_task_ref_count(pre, name@)
                + spec_count_refs(tm[i as int].spec_refs, name@));
            assert(tm[i as int].spec_refs.subrange(0, 0) =~= Seq::<Seq<char>>::empty());
        }
        let nr = tasks[i].spec_refs.len();
        let mut k: usize = 0;
        while k < nr
            invariant
                k <= nr,
                i < nt,
                nt == tasks@.len(),
                nr == tasks@[i as int].spec_refs@.len(),
                tm == tasks.deep_view(),
                pre == tm.subrange(0, i as int),
                post == tm.subrange(0, i + 1),
                count == spec_cap(
                    spec_task_ref_count(pre, name@) + spec_count_refs(
                        tm[i as int].spec_refs.subrange(0, k as int),
                        name@,
                    ),
                    u64::MAX as int,
                ),
                spec_task_ref_count(pre, name@) + spec_count_refs(
                    tm[i as int].spec_refs.subrange(0, k as int),
                    name@,
                ) >= 0,
            decreases nr - k,
        {
            let ghost refs = tm[i as int].spec_refs;
            let ghost rpre = refs.subrange(0, k as int);
            let ghost rpost = refs.subrange(0, k + 1);
            proof {
                assert(rpost.drop_last() =~= rpre);
                assert(rpost.last() == refs[k as int]);
                assert(refs[k as int] == tasks@[i as int].spec_refs@[k as int]@);
                lemma_count_refs_prefix(refs, k + 1, name@);
                assert(spec_count_refs(rpost, name@) <= spec_count_refs(refs, name@)) by {
                    lemma_count_refs_prefix2(refs, k + 1, name@);
                }
                assert(post.drop_last() =~= pre);
                assert(post.last() == tm[i as int]);
                assert(spec_task_ref_count(post, name@) == spec_task_ref_count(pre, name@)
                    + spec_count_refs(refs, name@));
            }
            let nm = ref_name(tasks[i].spec_refs[k].as_str());
            if crate::text::str_eq(nm.as_str(), name) {
                if count < 0xffff_ffff_ffff_ffffu64 {
                    count = count + 1;
                }
            }
            k = k + 1;
        }
        proof {
            assert(tm[i as int].spec_refs.subrange(0, nr as int) =~= tm[i as int].spec_refs);
        }
        i = i + 1;
    }
    proof {
        assert(tasks.deep_view().subrange(0, nt as int) =~= tasks.deep_view());
    }
    count
}

proof fn lemma_task_ref_prefix(ts: Seq<TaskModel>, j: int, name: Seq<char>)
    requires
        0 <= j <= ts.len(),
    ensures
        spec_task_ref_count(ts.subrange(0, j), name) <= spec_task_ref_count(ts, name),
        spec_task_ref_count(ts.subrange(0, j), name) >= 0,
    decreases ts.len() - j,
{
    let p = ts.subrange(0, j);
    lemma_ref_counts_nonneg(p, name);
    if j < ts.len() {
        lemma_task_ref_prefix(ts, j + 1, name);
        let q = ts.subrange(0, j + 1);
        assert(q.drop_last() =~= p);
        assert(q.last() == ts[j]);
        lemma_count_refs_nonneg(ts[j].spec_refs, name);
    } else {
        assert(p =~= ts);
    }
}

proof fn lemma_count_refs_prefix2(refs: Seq<Seq<char>>, j: int, name: Seq<char>)
    requires
        0 <= j <= refs.len(),
    ensures
        spec_count_refs(refs.subrange(0, j), name) <= spec_count_refs(refs, name),
    decreases refs.len() - j,
{
    if j < refs.len() {
        lemma_count_refs_prefix2(refs, j + 1, name);
        let p = refs.subrange(0, j);
        let q = refs.subrange(0, j + 1);
        assert(q.drop_last() =~= p);
        assert(q.last() == refs[j]);
    } else {
        assert(refs.subrange(0, j) =~= refs);
    }
}

proof fn lemma_count_refs_prefix(refs: Seq<Seq<char>>, j: int, name: Seq<char>)
    requires
        0 <= j <= refs.len(),
    ensures
        spec_count_refs(refs.subrange(0, j), name) >= 0,
    decreases j,
{
    let p = refs.subrange(0, j);
    lemma_count_refs_nonneg(p, name);
}

} // verus!

verus! {

/// How well one specification is covered by plan tasks. The percentage
/// is in whole points, rounded down and capped at one hundred.
#[derive(Debug, Clone)]
pub struct CoverageEntry {
    pub spec_name: String,
    pub requirement_count: usize,
    pub task_count: usize,
    pub coverage_percent: usize,
}

/// The model of a coverage entry.
pub struct CoverageEntryModel {
    pub spec_name: Seq<char>,
    pub requirement_count: int,
    pub task_count: int,
    pub coverage_percent: int,
}

impl DeepView for CoverageEntry {
    type V = CoverageEntryModel;

    open spec fn deep_view(&self) -> CoverageEntryModel {
        CoverageEntryModel {
            spec_name: self.spec_name@,
            requirement_count: self.requirement_count as int,
            task_count: self.task_count as int,
            coverage_percent: self.coverage_percent as int,
        }
    }
}

/// How many requirements one document yields.
pub open spec fn spec_doc_req_count(doc: SpecDocModel) -> int {
    spec_reqs_doc(doc.name, spec_lines(doc.content), 0, Seq::empty()).len() as int
}

/// The whole-point coverage of `rc` requirements by `tc` tasks.
pub open spec fn spec_percent(tc: int, rc: int) -> int {
    if rc > 0 {
        let p = tc * 100 / rc;
        if p > 100 {
            100
        } else {
            p
        }
    } else {
        0
    }
}

/// The coverage entry of one document against the tasks; a reference
/// count beyond the machine's reach saturates.
pub open spec fn spec_entry_of(doc: SpecDocModel, ts: Seq<TaskModel>) -> CoverageEntryModel {
    let rc = spec_doc_req_count(doc);
    let tc = spec_cap(
        spec_cap(spec_task_ref_count(ts, doc.name), u64::MAX as int),
        usize::MAX as int,
    );
    CoverageEntryModel {
        spec_name: doc.name,
        requirement_count: rc,
        task_count: tc,
        coverage_percent: spec_percent(tc, rc),
    }
}

/// The coverage entries: one for each document that holds requirements,
/// in document order.
pub open spec fn spec_coverage(docs: Seq<SpecDocModel>, ts: Seq<TaskModel>) -> Seq<
    CoverageEntryModel,
>
    decreases docs.len(),
{
    if docs.len() == 0 {
        Seq::empty()
    } else {
        let pre = spec_coverage(docs.drop_last(), ts);
        if spec_doc_req_count(docs.last()) > 0 {
            pre.push(spec_entry_of(docs.last(), ts))
        } else {
            pre
        }
    }
}

/// Analyzes how the tasks cover the specification documents: one entry
/// for each document with requirements, in the order the documents are
/// given, with counts and a whole-point percentage.
pub fn analyze_coverage(docs: &Vec<SpecDoc>, tasks: &Vec<Task>) -> (r: Vec<CoverageEntry>)
    ensures
        r.deep_view() == spec_coverage(docs.deep_view(), tasks.deep_view()),
{
    let nd = docs.len();
    let mut out: Vec<CoverageEntry> = Vec::new();
    let mut d: usize = 0;
    proof {
        assert(out.deep_view() =~= Seq::<CoverageEntryModel>::empty());
        assert(docs.deep_view().subrange(0, 0) =~= Seq::<SpecDocModel>::empty());
    }
    while d < nd
        invariant
            d <= nd,
            nd == docs@.len(),
            out.deep_view() == spec_coverage(
                docs.deep_view().subrange(0, d as int),
                tasks.deep_view(),
            ),
        decreases nd - d,
    {
        let ghost dm = docs.deep_view();
        let ghost pre = dm.subrange(0, d as int);
        let ghost post = dm.subrange(0, d + 1);
        proof {
            assert(post.drop_last() =~= pre);
            assert(post.last() == dm[d as int]);
            assert(dm[d as int] == docs@[d as int].deep_view());
        }
        // count this document's requirements
        let mut single: Vec<SpecDoc> = Vec::new();
        single.push(SpecDoc { name: docs[d].name.clone(), content: docs[d].content.clone() });
        proof {
            assert(single.deep_view() =~= seq![dm[d as int]]);
            lemma_reqs_single(dm[d as int]);
        }
        let reqs = extract_requirements(&single);
        let rc = reqs.len();
        if rc > 0 {
            let ghost o0 = out.deep_view();
            let tc = task_ref_count(tasks, docs[d].name.as_str());
            let tc_usize: usize = if tc > usize::MAX as u64 {
                proof {
                    lemma_ref_counts_nonneg(tasks.deep_view(), docs@[d as int].name@);
                }
                usize::MAX
            } else {
                tc as usize
            };
            let percent: usize = {
                let p: u128 = (tc_usize as u128) * 100 / (rc as u128);
                if p > 100 {
                    100
                } else {
                    p as usize
                }
            };
            out.push(
                CoverageEntry {
                    spec_name: docs[d].name.clone(),
                    requirement_count: rc,
                    task_count: tc_usize,
                    coverage_percent: percent,
                },
            );
            proof {
                lemma_ref_counts_nonneg(tasks.deep_view(), docs@[d as int].name@);
                assert(out.deep_view() =~= o0.push(spec_entry_of(dm[d as int], tasks.deep_view())));
            }
        }
        d = d + 1;
    }
    proof {
        assert(docs.deep_view().subrange(0, nd as int) =~= docs.deep_view());
    }
    out
}

/// Extracting from one document alone yields that document's requirements.
proof fn lemma_reqs_single(doc: SpecDocModel)
    ensures
        spec_extract_requirements(seq![doc]) == spec_reqs_doc(
            doc.name,
            spec_lines(doc.content),
            0,
            Seq::empty(),
        ),
{
    let docs = seq![doc];
    assert(spec_reqs_docs(docs, 0, Seq::empty()) == spec_reqs_docs(
        docs,
        1,
        spec_reqs_doc(doc.name, spec_lines(doc.content), 0, Seq::empty()),
    ));
}

/// How many tasks carry at least one reference.
pub open spec fn spec_count_with_refs(ts: Seq<TaskModel>) -> int
    decreases ts.len(),
{
    if ts.len() == 0 {
        0
    } else {
        spec_count_with_refs(ts.drop_last()) + if ts.last().spec_refs.len() > 0 {
            1int
        } else {
            0int
        }
    }
}

proof fn lemma_count_with_refs_bound(ts: Seq<TaskModel>)
    ensures
        0 <= spec_count_with_refs(ts) <= ts.len(),
    decreases ts.len(),
{
    if ts.len() > 0 {
        lemma_count_with_refs_bound(ts.drop_last());
    }
}

/// The verification report of a plan against the specifications.
#[derive(Debug, Clone)]
pub struct VerifyReport {
    pub total_tasks: usize,
    pub pending_tasks: usize,
    pub completed_tasks: usize,
    pub in_progress_tasks: usize,
    pub tasks_with_refs: usize,
    pub orphan_tasks: usize,
    pub coverage: Vec<CoverageEntry>,
    pub tasks: Vec<Task>,
}

/// Builds the full verification report: the plan's tasks with their
/// counts by status, how many carry references (the rest are orphans),
/// and the coverage of each specification document.
pub fn generate_report(plan_content: &str, docs: &Vec<SpecDoc>) -> (r: VerifyReport)
    ensures
        r.tasks.deep_view() == spec_parse_plan(plan_content@),
        r.total_tasks == spec_parse_plan(plan_content@).len(),
        r.pending_tasks == count_status(r.tasks.deep_view(), TaskStatus::Pending),
        r.completed_tasks == count_status(r.tasks.deep_view(), TaskStatus::Completed),
        r.in_progress_tasks == count_status(r.tasks.deep_view(), TaskStatus::InProgress),
        r.tasks_with_refs == spec_count_with_refs(r.tasks.deep_view()),
        r.orphan_tasks == r.total_tasks - r.tasks_with_refs,
        r.coverage.deep_view() == spec_coverage(docs.deep_view(), r.tasks.deep_view()),
{
    let tasks = parse_plan(plan_content);
    let (total, pending, completed, in_progress) = count_tasks(&tasks);
    let nt = tasks.len();
    let mut with_refs: usize = 0;
    let mut i: usize = 0;
    while i < nt
        invariant
            i <= nt,
            nt == tasks@.len(),
            with_refs == spec_count_with_refs(tasks.deep_view().subrange(0, i as int)),
            with_refs <= i,
        decreases nt - i,
    {
        let ghost tm = tasks.deep_view();
        let ghost pre = tm.subrange(0, i as int);
        let ghost post = tm.subrange(0, i + 1);
        proof {
            assert(post.drop_last() =~= pre);
            assert(post.last() == tm[i as int]);
        }
        if tasks[i].spec_refs.len() > 0 {
            with_refs = with_refs + 1;
        }
        i = i + 1;
    }
    proof {
        assert(tasks.deep_view().subrange(0, nt as int) =~= tasks.deep_view());
        lemma_count_with_refs_bound(tasks.deep_view());
    }
    let coverage = analyze_coverage(docs, &tasks);
    VerifyReport {
        total_tasks: total,
        pending_tasks: pending,
        completed_tasks: completed,
        in_progress_tasks: in_progress,
        tasks_with_refs: with_refs,
        orphan_tasks: total - with_refs,
        coverage,
        tasks,
    }
}

} // verus!

verus! {

/// On a legacy document without numbered section headers, pending work
/// is exactly the presence of a pending checkbox line; a hierarchical
/// plan has pending work exactly when one of its documents holds a
/// pending checkbox line.
pub proof fn lemma_has_pending_iff(content: Seq<char>)
    requires
        forall|i: int|
            0 <= i < spec_lines(content).len() ==> !is_unfinished_header_line(
                #[trigger] spec_lines(content)[i],
            ),
    ensures
        spec_legacy_has_pending(content) <==> spec_doc_has_pending_checkbox(content),
{
    let lines = spec_lines(content);
    if spec_legacy_has_pending(content) {
        let i = choose|i: int|
            0 <= i < lines.len() && (is_pending_checkbox_line(lines[i])
                || is_unfinished_header_line(lines[i]));
        assert(is_pending_checkbox_line(lines[i]));
    }
    if spec_doc_has_pending_checkbox(content) {
        let i = choose|i: int| 0 <= i < lines.len() && is_pending_checkbox_line(lines[i]);
        assert(is_pending_checkbox_line(lines[i]) || is_unfinished_header_line(lines[i]));
    }
}

} // verus!
