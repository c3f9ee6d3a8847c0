//! The hierarchical plan: feature documents, the index over them, focus
//! selection, and migration of a flat plan into the hierarchy.

use vstd::prelude::*;

use vstd::multiset::Multiset;

use crate::text::{
    find_at, lemma_find_at, lemma_insert_to_multiset, lemma_lex_total, lemma_lex_trans,
    lemma_skip_ws, lex_le, skip_ws, spec_find_at, spec_lines, spec_match_at, spec_skip_ws,
    split_lines, str_le, to_chars,
};
use crate::verify::{
    contains_char, is_pending_checkbox_line, pending_checkbox_line, Task, TaskModel, TaskStatus,
};

verus! {

/// One feature document: its name (the file stem) and its text.
#[derive(Debug, Clone)]
pub struct FeatureDoc {
    pub name: String,
    pub content: String,
}

/// The documents of a hierarchical plan directory: the index document's
/// text and the feature documents beside it.
#[derive(Debug, Clone)]
pub struct ImplDocs {
    pub readme: String,
    pub features: Vec<FeatureDoc>,
}

/// Status of a feature in the hierarchical plan.
#[derive(Debug, Clone, Copy, PartialEq, Eq, Structural)]
pub enum FeatureState {
    Pending,
    InProgress,
    Complete,
    Archived,
}

/// Summary of a feature's status, derived from its document alone.
#[derive(Debug, Clone)]
pub struct FeatureStatus {
    pub name: String,
    pub file: String,
    pub status: FeatureState,
    pub total_tasks: usize,
    pub completed_tasks: usize,
    pub pending_tasks: usize,
    pub spec_ref: Option<String>,
}

/// The mathematical model of a feature summary.
pub struct FeatureStatusModel {
    pub name: Seq<char>,
    pub file: Seq<char>,
    pub status: FeatureState,
    pub total_tasks: int,
    pub completed_tasks: int,
    pub pending_tasks: int,
    pub spec_ref: Option<Seq<char>>,
}

impl DeepView for FeatureStatus {
    type V = FeatureStatusModel;

    open spec fn deep_view(&self) -> FeatureStatusModel {
        FeatureStatusModel {
            name: self.name@,
            file: self.file@,
            status: self.status,
            total_tasks: self.total_tasks as int,
            completed_tasks: self.completed_tasks as int,
            pending_tasks: self.pending_tasks as int,
            spec_ref: match self.spec_ref {
                Some(ref s) => Some(s@),
                None => None,
            },
        }
    }
}

/// A completed checkbox line: like a pending one, but marked `x` or `X`.
pub open spec fn is_complete_checkbox_line(line: Seq<char>) -> bool {
    let a = spec_skip_ws(line, 0);
    a < line.len() && line[a] == '-' && {
        let b = spec_skip_ws(line, a + 1);
        b + 2 < line.len() && line[b] == '[' && (line[b + 1] == 'x' || line[b + 1] == 'X')
            && line[b + 2] == ']'
    }
}

/// An in-progress checkbox line, marked `~`.
pub open spec fn is_inprogress_checkbox_line(line: Seq<char>) -> bool {
    let a = spec_skip_ws(line, 0);
    a < line.len() && line[a] == '-' && {
        let b = spec_skip_ws(line, a + 1);
        b + 2 < line.len() && line[b] == '[' && line[b + 1] == '~' && line[b + 2] == ']'
    }
}

/// Executable check matching `is_complete_checkbox_line`.
pub fn complete_checkbox_line(v: &Vec<char>) -> (r: bool)
    ensures
        r == is_complete_checkbox_line(v@),
{
    proof {
        lemma_skip_ws(v@, 0);
    }
    let a = skip_ws(v, 0);
    if a >= v.len() || v[a] != '-' {
        return false;
    }
    proof {
        lemma_skip_ws(v@, a + 1);
    }
    let b = skip_ws(v, a + 1);
    let n = v.len();
    n > 2 && b < n - 2 && v[b] == '[' && (v[b + 1] == 'x' || v[b + 1] == 'X') && v[b + 2] == ']'
}

/// Executable check matching `is_inprogress_checkbox_line`.
pub fn inprogress_checkbox_line(v: &Vec<char>) -> (r: bool)
    ensures
        r == is_inprogress_checkbox_line(v@),
{
    proof {
        lemma_skip_ws(v@, 0);
    }
    let a = skip_ws(v, 0);
    if a >= v.len() || v[a] != '-' {
        return false;
    }
    proof {
        lemma_skip_ws(v@, a + 1);
    }
    let b = skip_ws(v, a + 1);
    let n = v.len();
    n > 2 && b < n - 2 && v[b] == '[' && v[b + 1] == '~' && v[b + 2] == ']'
}

/// How many of the lines satisfy `is_pending_checkbox_line`.
pub open spec fn spec_count_pending(lines: Seq<Seq<char>>) -> int
    decreases lines.len(),
{
    if lines.len() == 0 {
        0
    } else {
        spec_count_pending(lines.drop_last()) + if is_pending_checkbox_line(lines.last()) {
            1int
        } else {
            0int
        }
    }
}

/// How many of the lines satisfy `is_complete_checkbox_line`.
pub open spec fn spec_count_complete(lines: Seq<Seq<char>>) -> int
    decreases lines.len(),
{
    if lines.len() == 0 {
        0
    } else {
        spec_count_complete(lines.drop_last()) + if is_complete_checkbox_line(lines.last()) {
            1int
        } else {
            0int
        }
    }
}

/// How many of the lines satisfy `is_inprogress_checkbox_line`.
pub open spec fn spec_count_inprogress(lines: Seq<Seq<char>>) -> int
    decreases lines.len(),
{
    if lines.len() == 0 {
        0
    } else {
        spec_count_inprogress(lines.drop_last()) + if is_inprogress_checkbox_line(lines.last()) {
            1int
        } else {
            0int
        }
    }
}

proof fn lemma_count_bounds(lines: Seq<Seq<char>>)
    ensures
        0 <= spec_count_pending(lines) <= lines.len(),
        0 <= spec_count_complete(lines) <= lines.len(),
        0 <= spec_count_inprogress(lines) <= lines.len(),
    decreases lines.len(),
{
    if lines.len() > 0 {
        lemma_count_bounds(lines.drop_last());
    }
}

/// The first specification link of a document: on the first line holding
/// `**Spec:**`, the target between the parentheses of a markdown link.
pub open spec fn spec_ref_of_line(line: Seq<char>) -> Option<Seq<char>> {
    match spec_find_at(line, "**Spec:**"@, 0) {
        None => None,
        Some(i) => {
            let k = spec_skip_ws(line, i + 9);
            if k < line.len() && line[k] == '[' {
                match spec_find_at(line, "]("@, k + 1) {
                    None => None,
                    Some(cb) => match spec_find_at(line, ")"@, cb + 2) {
                        None => None,
                        Some(cp) => if cb + 2 <= cp <= line.len() {
                            Some(line.subrange(cb + 2, cp))
                        } else {
                            None
                        },
                    },
                }
            } else {
                None
            }
        },
    }
}

/// The first line's specification link, scanning from line `idx` on.
pub open spec fn spec_first_spec_ref(lines: Seq<Seq<char>>, idx: int) -> Option<Seq<char>>
    decreases lines.len() - idx when 0 <= idx
{
    if idx >= lines.len() {
        None
    } else {
        match spec_ref_of_line(lines[idx]) {
            Some(r) => Some(r),
            None => spec_first_spec_ref(lines, idx + 1),
        }
    }
}

/// Executable extraction matching `spec_ref_of_line`.
pub fn ref_of_line(v: &Vec<char>) -> (r: Option<String>)
    ensures
        match r {
            Some(s) => spec_ref_of_line(v@) == Some(s@),
            None => spec_ref_of_line(v@) is None,
        },
{
    proof {
        reveal_strlit("**Spec:**");
        reveal_strlit("](");
        reveal_strlit(")");
        lemma_find_at(v@, "**Spec:**"@, 0);
    }
    let n = v.len();
    let i = match find_at(v, "**Spec:**", 0) {
        Some(i) => i,
        None => {
            return None;
        },
    };
    proof {
        lemma_skip_ws(v@, i + 9);
    }
    let k = skip_ws(v, i + 9);
    if !(k < n && v[k] == '[') {
        return None;
    }
    proof {
        lemma_find_at(v@, "]("@, k + 1);
    }
    let cb = match find_at(v, "](", k + 1) {
        Some(cb) => cb,
        None => {
            return None;
        },
    };
    proof {
        assert(spec_match_at(v@, cb as int, "]("@));
        lemma_find_at(v@, ")"@, cb + 2);
    }
    let cp = match find_at(v, ")", cb + 2) {
        Some(cp) => cp,
        None => {
            return None;
        },
    };
    let sub = crate::text::subvec(v, cb + 2, cp);
    Some(crate::text::string_from_chars(&sub))
}

/// The status a feature document's counts imply: all complete and some
/// task present means complete; any finished or started work means in
/// progress; otherwise pending.
pub open spec fn spec_feature_state(total: int, completed: int, in_progress: int) -> FeatureState {
    if completed == total && total > 0 {
        FeatureState::Complete
    } else if completed > 0 || in_progress > 0 {
        FeatureState::InProgress
    } else {
        FeatureState::Pending
    }
}

/// The model of the feature summary a document yields.
pub open spec fn spec_feature_status(
    name: Seq<char>,
    file: Seq<char>,
    content: Seq<char>,
) -> FeatureStatusModel {
    let lines = spec_lines(content);
    let pending = spec_count_pending(lines);
    let completed = spec_count_complete(lines);
    let in_progress = spec_count_inprogress(lines);
    FeatureStatusModel {
        name: name,
        file: file,
        status: spec_feature_state(pending + completed + in_progress, completed, in_progress),
        total_tasks: pending + completed + in_progress,
        completed_tasks: completed,
        pending_tasks: pending + in_progress,
        spec_ref: spec_first_spec_ref(lines, 0),
    }
}

/// Scans one feature document: counts its checkboxes by state, derives
/// the feature's status, and finds its first specification link.
///
/// The counts always account for every task: completed plus pending
/// equals the total, and the status is `Complete` exactly when the
/// document has tasks and all are completed.
pub fn parse_feature_file(name: &str, file: &str, content: &str) -> (r: FeatureStatus)
    ensures
        r.deep_view() == spec_feature_status(name@, file@, content@),
        r.completed_tasks + r.pending_tasks == r.total_tasks,
        r.status == FeatureState::Complete <==> (r.total_tasks > 0 && r.completed_tasks
            == r.total_tasks),
{
    let lines = split_lines(content);
    let n = lines.len();
    let mut pending: usize = 0;
    let mut completed: usize = 0;
    let mut in_progress: usize = 0;
    let mut spec_ref: Option<String> = None;
    let ghost ls = spec_lines(content@);
    let mut i: usize = 0;
    while i < n
        invariant
            i <= n,
            n == lines@.len(),
            lines.deep_view() == ls,
            ls == spec_lines(content@),
            pending == spec_count_pending(ls.subrange(0, i as int)),
            completed == spec_count_complete(ls.subrange(0, i as int)),
            in_progress == spec_count_inprogress(ls.subrange(0, i as int)),
            pending + completed + in_progress <= i,
            match spec_ref {
                Some(ref s) => Some(s@) == spec_first_spec_ref(ls, 0),
                None => spec_first_spec_ref(ls, 0) == spec_first_spec_ref(ls, i as int),
            },
        decreases n - i,
    {
        let ghost pre = ls.subrange(0, i as int);
        let ghost post = ls.subrange(0, i + 1);
        proof {
            assert(post.drop_last() =~= pre);
            assert(post.last() == ls[i as int]);
            assert(lines.deep_view()[i as int] == lines@[i as int]@);
        }
        let v = to_chars(&lines[i]);
        if pending_checkbox_line(&v) {
            pending = pending + 1;
        } else if complete_checkbox_line(&v) {
            completed = completed + 1;
        } else if inprogress_checkbox_line(&v) {
            in_progress = in_progress + 1;
        }
        if spec_ref.is_none() {
            match ref_of_line(&v) {
                Some(s) => {
                    spec_ref = Some(s);
                },
                None => {},
            }
        }
        i = i + 1;
    }
    proof {
        assert(ls.subrange(0, n as int) =~= ls);
        lemma_count_bounds(ls);
    }
    let total = pending + completed + in_progress;
    let status = if completed == total && total > 0 {
        FeatureState::Complete
    } else if completed > 0 || in_progress > 0 {
        FeatureState::InProgress
    } else {
        FeatureState::Pending
    };
    FeatureStatus {
        name: String::from_str(name),
        file: String::from_str(file),
        status,
        total_tasks: total,
        completed_tasks: completed,
        pending_tasks: pending + in_progress,
        spec_ref,
    }
}

// ---------------------------------------------------------------------------
// The index document: current focus and cross-cutting tasks.
// ---------------------------------------------------------------------------

/// The focus named on one line by `**Active:** [target]`.
pub open spec fn spec_active_of_line(line: Seq<char>) -> Option<Seq<char>> {
    match spec_find_at(line, "**Active:**"@, 0) {
        None => None,
        Some(i) => {
            let k = spec_skip_ws(line, i + 11);
            if k < line.len() && line[k] == '[' {
                match spec_find_at(line, "]"@, k + 1) {
                    None => None,
                    Some(cb) => if k + 1 <= cb <= line.len() {
                        Some(line.subrange(k + 1, cb))
                    } else {
                        None
                    },
                }
            } else {
                None
            }
        },
    }
}

/// A heading line opening the current-focus section: `##`, spacing,
/// then `Current Focus`.
pub open spec fn spec_is_focus_header(line: Seq<char>) -> bool {
    spec_match_at(line, 0, "##"@) && {
        let k = spec_skip_ws(line, 2);
        spec_match_at(line, k, "Current Focus"@)
    }
}

/// A markdown link to a feature document on one line: the text between
/// `[` and the first following `.md]`.
pub open spec fn spec_md_link_of_line(line: Seq<char>) -> Option<Seq<char>> {
    match spec_find_at(line, "["@, 0) {
        None => None,
        Some(lb) => match spec_find_at(line, ".md]"@, lb + 1) {
            None => None,
            Some(md) => if lb + 1 <= md <= line.len() {
                Some(line.subrange(lb + 1, md))
            } else {
                None
            },
        },
    }
}

/// The focus the index document names: the first `**Active:** [target]`
/// line's target; otherwise, after a `Current Focus` heading, the first
/// feature-document link's text.
pub open spec fn spec_current_focus(lines: Seq<Seq<char>>) -> Option<Seq<char>> {
    if exists|i: int| 0 <= i < lines.len() && spec_active_of_line(lines[i]) is Some {
        spec_active_of_line(lines[choose|i: int|
            0 <= i < lines.len() && spec_active_of_line(lines[i]) is Some && forall|t: int|
                0 <= t < i ==> spec_active_of_line(lines[t]) is None])
    } else {
        spec_focus_fallback(lines, 0)
    }
}

/// The fallback focus: the first feature link after a focus heading.
pub open spec fn spec_focus_fallback(lines: Seq<Seq<char>>, idx: int) -> Option<Seq<char>>
    decreases lines.len() - idx when 0 <= idx
{
    if idx >= lines.len() {
        None
    } else if spec_is_focus_header(lines[idx]) {
        spec_first_md_link(lines, idx + 1)
    } else {
        spec_focus_fallback(lines, idx + 1)
    }
}

/// The first feature-document link at or after line `idx`.
pub open spec fn spec_first_md_link(lines: Seq<Seq<char>>, idx: int) -> Option<Seq<char>>
    decreases lines.len() - idx when 0 <= idx
{
    if idx >= lines.len() {
        None
    } else {
        match spec_md_link_of_line(lines[idx]) {
            Some(r) => Some(r),
            None => spec_first_md_link(lines, idx + 1),
        }
    }
}

/// Executable extraction matching `spec_active_of_line`.
pub fn active_of_line(v: &Vec<char>) -> (r: Option<String>)
    ensures
        match r {
            Some(s) => spec_active_of_line(v@) == Some(s@),
            None => spec_active_of_line(v@) is None,
        },
{
    proof {
        reveal_strlit("**Active:**");
        reveal_strlit("]");
        lemma_find_at(v@, "**Active:**"@, 0);
    }
    let n = v.len();
    let i = match find_at(v, "**Active:**", 0) {
        Some(i) => i,
        None => {
            return None;
        },
    };
    proof {
        lemma_skip_ws(v@, i + 11);
    }
    let k = skip_ws(v, i + 11);
    if !(k < n && v[k] == '[') {
        return None;
    }
    proof {
        lemma_find_at(v@, "]"@, k + 1);
    }
    let cb = match find_at(v, "]", k + 1) {
        Some(cb) => cb,
        None => {
            return None;
        },
    };
    let sub = crate::text::subvec(v, k + 1, cb);
    Some(crate::text::string_from_chars(&sub))
}

/// Executable check matching `spec_is_focus_header`.
pub fn is_focus_header(v: &Vec<char>) -> (r: bool)
    ensures
        r == spec_is_focus_header(v@),
{
    proof {
        reveal_strlit("##");
        reveal_strlit("Current Focus");
    }
    if !crate::text::match_at(v, 0, "##") {
        return false;
    }
    proof {
        lemma_skip_ws(v@, 2);
    }
    let k = skip_ws(v, 2);
    crate::text::match_at(v, k, "Current Focus")
}

/// Executable extraction matching `spec_md_link_of_line`.
pub fn md_link_of_line(v: &Vec<char>) -> (r: Option<String>)
    ensures
        match r {
            Some(s) => spec_md_link_of_line(v@) == Some(s@),
            None => spec_md_link_of_line(v@) is None,
        },
{
    let n = v.len();
    proof {
        reveal_strlit("[");
        reveal_strlit(".md]");
        lemma_find_at(v@, "["@, 0);
    }
    let lb = match find_at(v, "[", 0) {
        Some(lb) => lb,
        None => {
            return None;
        },
    };
    proof {
        assert(spec_match_at(v@, lb as int, "["@));
        lemma_find_at(v@, ".md]"@, lb + 1);
    }
    let md = match find_at(v, ".md]", lb + 1) {
        Some(md) => md,
        None => {
            return None;
        },
    };
    let sub = crate::text::subvec(v, lb + 1, md);
    Some(crate::text::string_from_chars(&sub))
}

/// Finds the current focus of the index document, matching
/// `spec_current_focus` over its lines.
pub fn parse_current_focus(content: &str) -> (r: Option<String>)
    ensures
        match r {
            Some(s) => spec_current_focus(spec_lines(content@)) == Some(s@),
            None => spec_current_focus(spec_lines(content@)) is None,
        },
{
    let lines = split_lines(content);
    let n = lines.len();
    let ghost ls = spec_lines(content@);
    // first pass: an `**Active:**` line
    let mut i: usize = 0;
    while i < n
        invariant
            i <= n,
            n == lines@.len(),
            lines.deep_view() == ls,
            ls == spec_lines(content@),
            forall|t: int| 0 <= t < i ==> spec_active_of_line(ls[t]) is None,
        decreases n - i,
    {
        proof {
            assert(lines.deep_view()[i as int] == lines@[i as int]@);
        }
        let v = to_chars(&lines[i]);
        match active_of_line(&v) {
            Some(s) => {
                proof {
                    let wi = choose|w: int|
                        0 <= w < ls.len() && spec_active_of_line(ls[w]) is Some && forall|t: int|
                            0 <= t < w ==> spec_active_of_line(ls[t]) is None;
                    assert((i as int) < ls.len());
                    assert(spec_active_of_line(ls[i as int]) is Some);
                    assert(forall|t: int| 0 <= t < i as int ==> spec_active_of_line(ls[t]) is None);
                    assert(spec_active_of_line(ls[wi]) is Some);
                    assert(wi == i as int) by {
                        if wi < i as int {
                            assert(spec_active_of_line(ls[wi]) is None);
                        }
                        if wi > i as int {
                            assert(spec_active_of_line(ls[i as int]) is None);
                        }
                    }
                }
                return Some(s);
            },
            None => {},
        }
        i = i + 1;
    }
    proof {
        assert(!(exists|t: int| 0 <= t < ls.len() && spec_active_of_line(ls[t]) is Some));
    }
    // second pass: a focus heading, then the first feature link
    let mut i: usize = 0;
    while i < n
        invariant
            i <= n,
            n == lines@.len(),
            lines.deep_view() == ls,
            ls == spec_lines(content@),
            spec_focus_fallback(ls, 0) == spec_focus_fallback(ls, i as int),
            forall|t: int| 0 <= t < ls.len() ==> spec_active_of_line(ls[t]) is None,
        decreases n - i,
    {
        proof {
            assert(lines.deep_view()[i as int] == lines@[i as int]@);
        }
        let v = to_chars(&lines[i]);
        if is_focus_header(&v) {
            // scan for the first link after this heading
            let mut j: usize = i + 1;
            while j < n
                invariant
                    i < n,
                    i + 1 <= j <= n,
                    n == lines@.len(),
                    lines.deep_view() == ls,
                    ls == spec_lines(content@),
                    spec_first_md_link(ls, i + 1) == spec_first_md_link(ls, j as int),
                    spec_focus_fallback(ls, 0) == spec_first_md_link(ls, i + 1),
                    forall|t: int| 0 <= t < ls.len() ==> spec_active_of_line(ls[t]) is None,
                decreases n - j,
            {
                proof {
                    assert(lines.deep_view()[j as int] == lines@[j as int]@);
                }
                let w = to_chars(&lines[j]);
                match md_link_of_line(&w) {
                    Some(s) => {
                        return Some(s);
                    },
                    None => {},
                }
                j = j + 1;
            }
            return None;
        }
        i = i + 1;
    }
    None
}

/// Whether the document announces a cross-cutting section.
pub open spec fn spec_has_cross_cutting(content: Seq<char>) -> bool {
    spec_find_at(content, "## Cross-Cutting"@, 0) is Some
}

/// Counted cross-cutting checkboxes: lines outside table rows (no `|`).
pub open spec fn spec_cc_pending(lines: Seq<Seq<char>>) -> int
    decreases lines.len(),
{
    if lines.len() == 0 {
        0
    } else {
        spec_cc_pending(lines.drop_last()) + if !lines.last().contains('|')
            && is_pending_checkbox_line(lines.last()) {
            1int
        } else {
            0int
        }
    }
}

pub open spec fn spec_cc_completed(lines: Seq<Seq<char>>) -> int
    decreases lines.len(),
{
    if lines.len() == 0 {
        0
    } else {
        spec_cc_completed(lines.drop_last()) + if !lines.last().contains('|')
            && is_complete_checkbox_line(lines.last()) {
            1int
        } else {
            0int
        }
    }
}

proof fn lemma_cc_bounds(lines: Seq<Seq<char>>)
    ensures
        0 <= spec_cc_pending(lines) <= lines.len(),
        0 <= spec_cc_completed(lines) <= lines.len(),
    decreases lines.len(),
{
    if lines.len() > 0 {
        lemma_cc_bounds(lines.drop_last());
    }
}

/// Cross-cutting tasks counted in the index document.
#[derive(Debug, Clone, Copy, PartialEq, Eq, Structural)]
pub struct CrossCuttingTasks {
    pub total: usize,
    pub completed: usize,
    pub pending: usize,
}

impl Default for CrossCuttingTasks {
    /// No cross-cutting tasks at all.
    fn default() -> (r: Self)
        ensures
            r.total == 0 && r.completed == 0 && r.pending == 0,
    {
        CrossCuttingTasks { total: 0, completed: 0, pending: 0 }
    }
}

/// Counts cross-cutting checkboxes in the index document: zero without a
/// cross-cutting section; otherwise every checkbox outside a table row.
pub fn count_cross_cutting_tasks(content: &str) -> (r: CrossCuttingTasks)
    ensures
        !spec_has_cross_cutting(content@) ==> r.total == 0 && r.completed == 0 && r.pending == 0,
        spec_has_cross_cutting(content@) ==> {
            &&& r.pending == spec_cc_pending(spec_lines(content@))
            &&& r.completed == spec_cc_completed(spec_lines(content@))
            &&& r.total == r.pending + r.completed
        },
{
    proof {
        reveal_strlit("## Cross-Cutting");
    }
    let all = to_chars(content);
    if find_at(&all, "## Cross-Cutting", 0).is_none() {
        return CrossCuttingTasks { total: 0, completed: 0, pending: 0 };
    }
    let lines = split_lines(content);
    let n = lines.len();
    let ghost ls = spec_lines(content@);
    let mut pending: usize = 0;
    let mut completed: usize = 0;
    let mut i: usize = 0;
    while i < n
        invariant
            i <= n,
            n == lines@.len(),
            lines.deep_view() == ls,
            ls == spec_lines(content@),
            pending == spec_cc_pending(ls.subrange(0, i as int)),
            completed == spec_cc_completed(ls.subrange(0, i as int)),
            pending + completed <= i,
        decreases n - i,
    {
        let ghost pre = ls.subrange(0, i as int);
        let ghost post = ls.subrange(0, i + 1);
        proof {
            assert(post.drop_last() =~= pre);
            assert(post.last() == ls[i as int]);
            assert(lines.deep_view()[i as int] == lines@[i as int]@);
        }
        let v = to_chars(&lines[i]);
        if !contains_char(&v, '|') {
            if pending_checkbox_line(&v) {
                pending = pending + 1;
            } else if complete_checkbox_line(&v) {
                completed = completed + 1;
            }
        }
        i = i + 1;
    }
    proof {
        assert(ls.subrange(0, n as int) =~= ls);
        lemma_cc_bounds(ls);
    }
    CrossCuttingTasks { total: pending + completed, completed, pending }
}

} // verus!

verus! {

/// Index of all features in the hierarchical plan.
#[derive(Debug, Clone)]
pub struct ImplIndex {
    pub impl_dir: String,
    pub features: Vec<FeatureStatus>,
    pub current_focus: Option<String>,
    pub cross_cutting_tasks: CrossCuttingTasks,
}

/// Sum of the features' total task counts.
pub open spec fn spec_sum_total(fs: Seq<FeatureStatusModel>) -> int
    decreases fs.len(),
{
    if fs.len() == 0 {
        0
    } else {
        spec_sum_total(fs.drop_last()) + fs.last().total_tasks
    }
}

/// Sum of the features' completed task counts.
pub open spec fn spec_sum_completed(fs: Seq<FeatureStatusModel>) -> int
    decreases fs.len(),
{
    if fs.len() == 0 {
        0
    } else {
        spec_sum_completed(fs.drop_last()) + fs.last().completed_tasks
    }
}

/// Sum of the features' pending task counts.
pub open spec fn spec_sum_pending(fs: Seq<FeatureStatusModel>) -> int
    decreases fs.len(),
{
    if fs.len() == 0 {
        0
    } else {
        spec_sum_pending(fs.drop_last()) + fs.last().pending_tasks
    }
}

/// Every feature summary accounts for its tasks: completed plus pending
/// equals total, and no count is negative.
pub open spec fn spec_features_wf(fs: Seq<FeatureStatusModel>) -> bool {
    forall|i: int|
        0 <= i < fs.len() ==> {
            &&& (#[trigger] fs[i]).completed_tasks + fs[i].pending_tasks == fs[i].total_tasks
            &&& fs[i].completed_tasks >= 0
            &&& fs[i].pending_tasks >= 0
        }
}

/// A well-formed index: each feature accounts for its tasks, the
/// cross-cutting counts account for theirs, and the grand total fits
/// the machine's arithmetic.
pub open spec fn spec_index_wf(ix: ImplIndex) -> bool {
    &&& spec_features_wf(ix.features.deep_view())
    &&& ix.cross_cutting_tasks.completed + ix.cross_cutting_tasks.pending
        == ix.cross_cutting_tasks.total
    &&& spec_sum_total(ix.features.deep_view()) + ix.cross_cutting_tasks.total <= usize::MAX
}

impl ImplIndex {
    /// Total task count: every feature's total plus the cross-cutting total.
    pub fn total_tasks(&self) -> (r: usize)
        requires
            spec_index_wf(*self),
        ensures
            r == spec_sum_total(self.features.deep_view()) + self.cross_cutting_tasks.total,
    {
        proof {
            lemma_sums_accounting(self.features.deep_view());
        }
        let n = self.features.len();
        let mut sum: usize = 0;
        let mut i: usize = 0;
        while i < n
            invariant
                i <= n,
                n == self.features@.len(),
                spec_index_wf(*self),
                sum == spec_sum_total(self.features.deep_view().subrange(0, i as int)),
                sum <= spec_sum_total(self.features.deep_view()),
            decreases n - i,
        {
            let ghost fs = self.features.deep_view();
            let ghost pre = fs.subrange(0, i as int);
            let ghost post = fs.subrange(0, i + 1);
            proof {
                assert(post.drop_last() =~= pre);
                assert(post.last() == fs[i as int]);
                lemma_sum_total_prefix(fs, i + 1);
            }
            sum = sum + self.features[i].total_tasks;
            i = i + 1;
        }
        proof {
            assert(self.features.deep_view().subrange(0, n as int) =~= self.features.deep_view());
        }
        sum + self.cross_cutting_tasks.total
    }

    /// Completed task count: every feature's plus the cross-cutting ones.
    pub fn completed_tasks(&self) -> (r: usize)
        requires
            spec_index_wf(*self),
        ensures
            r == spec_sum_completed(self.features.deep_view())
                + self.cross_cutting_tasks.completed,
    {
        proof {
            lemma_sums_accounting(self.features.deep_view());
        }
        let n = self.features.len();
        let mut sum: usize = 0;
        let mut i: usize = 0;
        while i < n
            invariant
                i <= n,
                n == self.features@.len(),
                spec_index_wf(*self),
                sum == spec_sum_completed(self.features.deep_view().subrange(0, i as int)),
                sum <= spec_sum_completed(self.features.deep_view()),
            decreases n - i,
        {
            let ghost fs = self.features.deep_view();
            let ghost pre = fs.subrange(0, i as int);
            let ghost post = fs.subrange(0, i + 1);
            proof {
                assert(post.drop_last() =~= pre);
                assert(post.last() == fs[i as int]);
                lemma_sum_completed_prefix(fs, i + 1);
                lemma_sums_accounting(fs);
            }
            sum = sum + self.features[i].completed_tasks;
            i = i + 1;
        }
        proof {
            assert(self.features.deep_view().subrange(0, n as int) =~= self.features.deep_view());
        }
        sum + self.cross_cutting_tasks.completed
    }

    /// Pending task count: every feature's plus the cross-cutting ones.
    pub fn pending_tasks(&self) -> (r: usize)
        requires
            spec_index_wf(*self),
        ensures
            r == spec_sum_pending(self.features.deep_view()) + self.cross_cutting_tasks.pending,
    {
        proof {
            lemma_sums_accounting(self.features.deep_view());
        }
        let n = self.features.len();
        let mut sum: usize = 0;
        let mut i: usize = 0;
        while i < n
            invariant
                i <= n,
                n == self.features@.len(),
                spec_index_wf(*self),
                sum == spec_sum_pending(self.features.deep_view().subrange(0, i as int)),
                sum <= spec_sum_pending(self.features.deep_view()),
            decreases n - i,
        {
            let ghost fs = self.features.deep_view();
            let ghost pre = fs.subrange(0, i as int);
            let ghost post = fs.subrange(0, i + 1);
            proof {
                assert(post.drop_last() =~= pre);
                assert(post.last() == fs[i as int]);
                lemma_sum_pending_prefix(fs, i + 1);
                lemma_sums_accounting(fs);
            }
            sum = sum + self.features[i].pending_tasks;
            i = i + 1;
        }
        proof {
            assert(self.features.deep_view().subrange(0, n as int) =~= self.features.deep_view());
        }
        sum + self.cross_cutting_tasks.pending
    }

    /// Whether every task everywhere is complete: nothing pending.
    pub fn is_complete(&self) -> (r: bool)
        requires
            spec_index_wf(*self),
        ensures
            r == (spec_sum_pending(self.features.deep_view()) + self.cross_cutting_tasks.pending
                == 0),
    {
        self.pending_tasks() == 0
    }

    /// The feature to focus next: the first in-progress feature, else the
    /// feature with the fewest pending tasks among those with any, first
    /// of the minimum on ties; none when no feature has pending work.
    pub fn select_next_focus(&self) -> (r: Option<&FeatureStatus>)
        ensures
            match r {
                Some(f) => spec_select_focus(self.features.deep_view()) == Some(f.deep_view()),
                None => spec_select_focus(self.features.deep_view()) is None,
            },
    {
        let n = self.features.len();
        let ghost fs = self.features.deep_view();
        // first pass: an in-progress feature
        let mut i: usize = 0;
        while i < n
            invariant
                i <= n,
                n == self.features@.len(),
                fs == self.features.deep_view(),
                forall|t: int| 0 <= t < i ==> fs[t].status != FeatureState::InProgress,
            decreases n - i,
        {
            if matches!(self.features[i].status, FeatureState::InProgress) {
                proof {
                    lemma_first_in_progress(fs, i as int);
                }
                return Some(&self.features[i]);
            }
            i = i + 1;
        }
        // second pass: fewest pending among features with pending work
        let mut best: Option<usize> = None;
        let mut i: usize = 0;
        while i < n
            invariant
                i <= n,
                n == self.features@.len(),
                fs == self.features.deep_view(),
                forall|t: int| 0 <= t < fs.len() ==> fs[t].status != FeatureState::InProgress,
                match best {
                    Some(b) => b < i && fs[b as int].pending_tasks > 0 && spec_min_pending_from(
                        fs,
                        i as int,
                        Some(b as int),
                    ) == spec_min_pending_from(fs, 0, None),
                    None => (forall|t: int| 0 <= t < i ==> fs[t].pending_tasks == 0)
                        && spec_min_pending_from(fs, i as int, None) == spec_min_pending_from(
                        fs,
                        0,
                        None,
                    ),
                },
            decreases n - i,
        {
            let better: bool = match best {
                Some(b) => self.features[i].pending_tasks > 0 && self.features[i].pending_tasks
                    < self.features[b].pending_tasks,
                None => self.features[i].pending_tasks > 0,
            };
            if better {
                best = Some(i);
            }
            i = i + 1;
        }
        proof {
            lemma_no_in_progress(fs, 0);
            match best {
                Some(b) => {
                    assert(spec_min_pending_from(fs, n as int, Some(b as int)) == Some(b as int));
                },
                None => {
                    assert(spec_min_pending_from(fs, n as int, None::<int>) == None::<int>);
                },
            }
        }
        match best {
            Some(b) => Some(&self.features[b]),
            None => None,
        }
    }
}

proof fn lemma_no_in_progress(fs: Seq<FeatureStatusModel>, idx: int)
    requires
        0 <= idx,
        forall|t: int| 0 <= t < fs.len() ==> fs[t].status != FeatureState::InProgress,
    ensures
        spec_first_in_progress(fs, idx) == None::<int>,
    decreases fs.len() - idx,
{
    if idx < fs.len() {
        lemma_no_in_progress(fs, idx + 1);
    }
}

/// The index of the first in-progress feature, if any.
pub open spec fn spec_first_in_progress(fs: Seq<FeatureStatusModel>, idx: int) -> Option<int>
    decreases fs.len() - idx when 0 <= idx
{
    if idx >= fs.len() {
        None
    } else if fs[idx].status == FeatureState::InProgress {
        Some(idx)
    } else {
        spec_first_in_progress(fs, idx + 1)
    }
}

/// The index holding the fewest pending tasks among features with any,
/// scanning from `idx` with `best` the leader so far; ties keep the
/// earlier feature.
pub open spec fn spec_min_pending_from(
    fs: Seq<FeatureStatusModel>,
    idx: int,
    best: Option<int>,
) -> Option<int>
    decreases fs.len() - idx when 0 <= idx
{
    if idx >= fs.len() {
        best
    } else {
        let better = match best {
            Some(b) => fs[idx].pending_tasks > 0 && fs[idx].pending_tasks < fs[b].pending_tasks,
            None => fs[idx].pending_tasks > 0,
        };
        spec_min_pending_from(fs, idx + 1, if better {
            Some(idx)
        } else {
            best
        })
    }
}

/// What `select_next_focus` yields, as a model: the first in-progress
/// feature, else the first feature with the fewest pending tasks.
pub open spec fn spec_select_focus(fs: Seq<FeatureStatusModel>) -> Option<FeatureStatusModel> {
    match spec_first_in_progress(fs, 0) {
        Some(i) => Some(fs[i]),
        None => match spec_min_pending_from(fs, 0, None) {
            Some(i) => if 0 <= i < fs.len() {
                Some(fs[i])
            } else {
                None
            },
            None => None,
        },
    }
}

proof fn lemma_first_in_progress(fs: Seq<FeatureStatusModel>, i: int)
    requires
        0 <= i < fs.len(),
        fs[i].status == FeatureState::InProgress,
        forall|t: int| 0 <= t < i ==> fs[t].status != FeatureState::InProgress,
    ensures
        spec_first_in_progress(fs, 0) == Some(i),
{
    lemma_first_in_progress_from(fs, 0, i);
}

proof fn lemma_first_in_progress_from(fs: Seq<FeatureStatusModel>, idx: int, i: int)
    requires
        0 <= idx <= i < fs.len(),
        fs[i].status == FeatureState::InProgress,
        forall|t: int| idx <= t < i ==> fs[t].status != FeatureState::InProgress,
    ensures
        spec_first_in_progress(fs, idx) == Some(i),
    decreases i - idx,
{
    if idx < i {
        lemma_first_in_progress_from(fs, idx + 1, i);
    }
}

proof fn lemma_sum_total_prefix(fs: Seq<FeatureStatusModel>, j: int)
    requires
        spec_features_wf(fs),
        0 <= j <= fs.len(),
    ensures
        spec_sum_total(fs.subrange(0, j)) <= spec_sum_total(fs),
        spec_sum_total(fs.subrange(0, j)) >= 0,
    decreases fs.len() - j,
{
    let p = fs.subrange(0, j);
    assert(spec_features_wf(p)) by {
        assert(forall|i: int| 0 <= i < p.len() ==> p[i] == fs[i]);
    }
    lemma_sums_nonneg(p);
    if j < fs.len() {
        lemma_sum_total_prefix(fs, j + 1);
        let q = fs.subrange(0, j + 1);
        assert(q.drop_last() =~= p);
        assert(q.last() == fs[j]);
        assert(fs[j].completed_tasks + fs[j].pending_tasks == fs[j].total_tasks);
        assert(spec_sum_total(q) == spec_sum_total(p) + fs[j].total_tasks);
    } else {
        assert(p =~= fs);
    }
}

proof fn lemma_sum_completed_prefix(fs: Seq<FeatureStatusModel>, j: int)
    requires
        spec_features_wf(fs),
        0 <= j <= fs.len(),
    ensures
        spec_sum_completed(fs.subrange(0, j)) <= spec_sum_completed(fs),
        spec_sum_completed(fs.subrange(0, j)) >= 0,
    decreases fs.len() - j,
{
    let p = fs.subrange(0, j);
    assert(spec_features_wf(p)) by {
        assert(forall|i: int| 0 <= i < p.len() ==> p[i] == fs[i]);
    }
    lemma_sums_nonneg(p);
    if j < fs.len() {
        lemma_sum_completed_prefix(fs, j + 1);
        let q = fs.subrange(0, j + 1);
        assert(q.drop_last() =~= p);
        assert(q.last() == fs[j]);
        assert(fs[j].completed_tasks + fs[j].pending_tasks == fs[j].total_tasks);
        assert(spec_sum_completed(q) == spec_sum_completed(p) + fs[j].completed_tasks);
    } else {
        assert(p =~= fs);
    }
}

proof fn lemma_sum_pending_prefix(fs: Seq<FeatureStatusModel>, j: int)
    requires
        spec_features_wf(fs),
        0 <= j <= fs.len(),
    ensures
        spec_sum_pending(fs.subrange(0, j)) <= spec_sum_pending(fs),
        spec_sum_pending(fs.subrange(0, j)) >= 0,
    decreases fs.len() - j,
{
    let p = fs.subrange(0, j);
    assert(spec_features_wf(p)) by {
        assert(forall|i: int| 0 <= i < p.len() ==> p[i] == fs[i]);
    }
    lemma_sums_nonneg(p);
    if j < fs.len() {
        lemma_sum_pending_prefix(fs, j + 1);
        let q = fs.subrange(0, j + 1);
        assert(q.drop_last() =~= p);
        assert(q.last() == fs[j]);
        assert(fs[j].completed_tasks + fs[j].pending_tasks == fs[j].total_tasks);
        assert(spec_sum_pending(q) == spec_sum_pending(p) + fs[j].pending_tasks);
    } else {
        assert(p =~= fs);
    }
}

proof fn lemma_sums_nonneg(fs: Seq<FeatureStatusModel>)
    requires
        spec_features_wf(fs),
    ensures
        spec_sum_total(fs) >= 0,
        spec_sum_completed(fs) >= 0,
        spec_sum_pending(fs) >= 0,
    decreases fs.len(),
{
    if fs.len() > 0 {
        assert(spec_features_wf(fs.drop_last())) by {
            assert(forall|i: int| 0 <= i < fs.len() - 1 ==> fs.drop_last()[i] == fs[i]);
        }
        lemma_sums_nonneg(fs.drop_last());
        assert(fs.last() == fs[fs.len() - 1]);
    }
}

/// Task accounting over a whole index: with every feature well formed,
/// the completed and pending sums together are the total sum.
pub proof fn lemma_sums_accounting(fs: Seq<FeatureStatusModel>)
    requires
        spec_features_wf(fs),
    ensures
        spec_sum_completed(fs) + spec_sum_pending(fs) == spec_sum_total(fs),
        spec_sum_total(fs) >= 0,
        spec_sum_completed(fs) >= 0,
        spec_sum_pending(fs) >= 0,
    decreases fs.len(),
{
    lemma_sums_nonneg(fs);
    if fs.len() > 0 {
        assert(spec_features_wf(fs.drop_last())) by {
            assert(forall|i: int| 0 <= i < fs.len() - 1 ==> fs.drop_last()[i] == fs[i]);
        }
        lemma_sums_accounting(fs.drop_last());
        assert(fs.last() == fs[fs.len() - 1]);
    }
}

/// Task accounting for a whole well-formed index: its completed count
/// plus its pending count equals its total count.
pub proof fn lemma_index_task_accounting(ix: ImplIndex)
    requires
        spec_index_wf(ix),
    ensures
        (spec_sum_completed(ix.features.deep_view()) + ix.cross_cutting_tasks.completed) + (
        spec_sum_pending(ix.features.deep_view()) + ix.cross_cutting_tasks.pending)
            == spec_sum_total(ix.features.deep_view()) + ix.cross_cutting_tasks.total,
{
    lemma_sums_accounting(ix.features.deep_view());
}

} // verus!

verus! {

/// The model of a feature document.
pub struct FeatureDocModel {
    pub name: Seq<char>,
    pub content: Seq<char>,
}

impl DeepView for FeatureDoc {
    type V = FeatureDocModel;

    open spec fn deep_view(&self) -> FeatureDocModel {
        FeatureDocModel { name: self.name@, content: self.content@ }
    }
}

/// Features sorted by name.
pub open spec fn spec_sorted_by_name(fs: Seq<FeatureStatusModel>) -> bool {
    forall|i: int, j: int| 0 <= i < j < fs.len() ==> lex_le(#[trigger] fs[i].name, #[trigger] fs[j].name)
}

/// Sorts feature summaries by name: the result is ordered and holds
/// exactly the given summaries.
pub fn sort_features_by_name(v: Vec<FeatureStatus>) -> (r: Vec<FeatureStatus>)
    ensures
        spec_sorted_by_name(r.deep_view()),
        r.deep_view().to_multiset() == v.deep_view().to_multiset(),
{
    broadcast use vstd::seq_lib::group_to_multiset_ensures;

    let ghost orig = v.deep_view();
    let mut rest = v;
    let mut out: Vec<FeatureStatus> = Vec::new();
    proof {
        assert(out.deep_view() =~= Seq::<FeatureStatusModel>::empty());
        assert(out.deep_view().to_multiset().add(rest.deep_view().to_multiset())
            =~= orig.to_multiset());
    }
    loop
        invariant_except_break
            spec_sorted_by_name(out.deep_view()),
            out.deep_view().to_multiset().add(rest.deep_view().to_multiset())
                == orig.to_multiset(),
        ensures
            spec_sorted_by_name(out.deep_view()),
            out.deep_view().to_multiset() == orig.to_multiset(),
        decreases rest@.len(),
    {
        let ghost out0 = out.deep_view();
        let ghost rest0 = rest.deep_view();
        let x = match rest.pop() {
            Some(x) => x,
            None => {
                proof {
                    broadcast use vstd::seq_lib::group_to_multiset_ensures;

                    let rd = rest.deep_view();
                    assert(rd =~= Seq::<FeatureStatusModel>::empty());
                    assert(rd.to_multiset() =~= Multiset::empty()) by {
                        assert(forall|a: FeatureStatusModel| !rd.contains(a));
                    }
                    assert(out.deep_view().to_multiset() =~= orig.to_multiset()) by {
                        assert(out.deep_view().to_multiset().add(Multiset::empty())
                            =~= out.deep_view().to_multiset());
                    }
                }
                break;
            },
        };
        proof {
            broadcast use vstd::seq_lib::group_to_multiset_ensures;

            let rd = rest.deep_view();
            let xm = x.deep_view();
            assert(rest0 =~= rd.push(xm));
            assert(rd.push(xm).to_multiset() =~= rd.to_multiset().insert(xm));
            assert(rest0.to_multiset() == rd.to_multiset().insert(xm));
        }
        // find the first slot whose name does not precede `x`'s
        let ghost xm = x.deep_view();
        let n = out.len();
        let mut j: usize = 0;
        loop
            invariant_except_break
                j <= n,
                n == out@.len(),
                out.deep_view() == out0,
                xm == x.deep_view(),
                forall|t: int| 0 <= t < j ==> lex_le(#[trigger] out0[t].name, xm.name),
            ensures
                j <= n,
                n == out@.len(),
                out.deep_view() == out0,
                xm == x.deep_view(),
                forall|t: int| 0 <= t < j ==> lex_le(#[trigger] out0[t].name, xm.name),
                (j as int) < out0.len() ==> !lex_le(out0[j as int].name, xm.name),
            decreases n - j,
        {
            if j == n {
                break;
            }
            if !str_le(out[j].name.as_str(), x.name.as_str()) {
                break;
            }
            j = j + 1;
        }
        proof {
            if (j as int) < out0.len() {
                lemma_lex_total(out0[j as int].name, xm.name);
            }
        }
        out.insert(j, x);
        proof {
            assert(out.deep_view() =~= out0.insert(j as int, xm));
            lemma_insert_to_multiset(out0, j as int, xm);
            let od = out.deep_view();
            assert forall|a: int, b: int| 0 <= a < b < od.len() implies lex_le(
                #[trigger] od[a].name,
                #[trigger] od[b].name,
            ) by {
                if b < j as int {
                    assert(od[a] == out0[a] && od[b] == out0[b]);
                } else if a > j as int {
                    assert(od[a] == out0[a - 1] && od[b] == out0[b - 1]);
                } else if a == j as int {
                    // od[a] is x; everything after came at or after slot j
                    assert(od[b] == out0[b - 1]);
                    if !lex_le(xm.name, out0[j as int].name) {
                        assert(false);
                    }
                    if b - 1 > j as int {
                        lemma_lex_trans(xm.name, out0[j as int].name, out0[b - 1].name);
                    }
                } else if b == j as int {
                    assert(od[a] == out0[a]);
                    assert(lex_le(out0[a].name, xm.name));
                } else {
                    // a < j < b
                    assert(od[a] == out0[a] && od[b] == out0[b - 1]);
                    assert(lex_le(out0[a].name, xm.name));
                    if b - 1 == j as int {
                        if !lex_le(xm.name, out0[j as int].name) {
                            assert(false);
                        }
                        lemma_lex_trans(out0[a].name, xm.name, out0[j as int].name);
                    }
                }
            }
        }
    }
    out
}

/// The feature summaries of the given documents, in document order; each
/// file path is the directory, a slash, the name, and `.md`.
pub open spec fn spec_statuses_of(dir: Seq<char>, docs: Seq<FeatureDocModel>) -> Seq<
    FeatureStatusModel,
>
    decreases docs.len(),
{
    if docs.len() == 0 {
        Seq::empty()
    } else {
        spec_statuses_of(dir, docs.drop_last()).push(
            spec_feature_status(
                docs.last().name,
                dir + "/"@ + docs.last().name + ".md"@,
                docs.last().content,
            ),
        )
    }
}

impl ImplIndex {
    /// Builds the index over the hierarchical plan documents: every
    /// feature document summarized and sorted by name, the current focus
    /// and cross-cutting tasks read from the index document.
    pub fn load(impl_dir: &str, docs: &ImplDocs) -> (r: ImplIndex)
        ensures
            r.impl_dir@ == impl_dir@,
            spec_sorted_by_name(r.features.deep_view()),
            r.features.deep_view().to_multiset() == spec_statuses_of(
                impl_dir@,
                docs.features.deep_view(),
            ).to_multiset(),
            spec_features_wf(r.features.deep_view()),
            match r.current_focus {
                Some(ref s) => spec_current_focus(spec_lines(docs.readme@)) == Some(s@),
                None => spec_current_focus(spec_lines(docs.readme@)) is None,
            },
            r.cross_cutting_tasks.completed + r.cross_cutting_tasks.pending
                == r.cross_cutting_tasks.total,
            spec_has_cross_cutting(docs.readme@) ==> {
                &&& r.cross_cutting_tasks.pending == spec_cc_pending(spec_lines(docs.readme@))
                &&& r.cross_cutting_tasks.completed == spec_cc_completed(spec_lines(docs.readme@))
            },
            !spec_has_cross_cutting(docs.readme@) ==> r.cross_cutting_tasks.total == 0
                && r.cross_cutting_tasks.completed == 0 && r.cross_cutting_tasks.pending == 0,
    {
        broadcast use vstd::seq_lib::group_to_multiset_ensures;

        let n = docs.features.len();
        let mut features: Vec<FeatureStatus> = Vec::new();
        let mut i: usize = 0;
        proof {
            assert(features.deep_view() =~= Seq::<FeatureStatusModel>::empty());
            assert(docs.features.deep_view().subrange(0, 0) =~= Seq::<FeatureDocModel>::empty());
        }
        while i < n
            invariant
                i <= n,
                n == docs.features@.len(),
                features.deep_view() == spec_statuses_of(
                    impl_dir@,
                    docs.features.deep_view().subrange(0, i as int),
                ),
                spec_features_wf(features.deep_view()),
            decreases n - i,
        {
            let ghost dm = docs.features.deep_view();
            let ghost pre = dm.subrange(0, i as int);
            let ghost post = dm.subrange(0, i + 1);
            proof {
                reveal_strlit("/");
                reveal_strlit(".md");
                assert(post.drop_last() =~= pre);
                assert(post.last() == dm[i as int]);
            }
            let doc = &docs.features[i];
            let mut file = String::from_str(impl_dir);
            file.append("/");
            file.append(doc.name.as_str());
            file.append(".md");
            let ghost f0 = features.deep_view();
            let st = parse_feature_file(doc.name.as_str(), file.as_str(), doc.content.as_str());
            features.push(st);
            proof {
                assert(features.deep_view() =~= f0.push(st.deep_view()));
                let fd = features.deep_view();
                assert(spec_features_wf(fd)) by {
                    assert(forall|t: int| 0 <= t < fd.len() - 1 ==> fd[t] == f0[t]);
                    assert(fd[fd.len() - 1] == st.deep_view());
                }
            }
            i = i + 1;
        }
        proof {
            assert(docs.features.deep_view().subrange(0, n as int) =~= docs.features.deep_view());
        }
        let ghost unsorted = features.deep_view();
        let features = sort_features_by_name(features);
        proof {
            let fd = features.deep_view();
            assert(spec_features_wf(fd)) by {
                assert forall|t: int|
                    0 <= t < fd.len() implies ((#[trigger] fd[t]).completed_tasks
                    + fd[t].pending_tasks == fd[t].total_tasks && fd[t].completed_tasks >= 0
                    && fd[t].pending_tasks >= 0) by {
                    assert(fd.to_multiset().contains(fd[t]));
                    assert(unsorted.to_multiset().contains(fd[t]));
                    assert(unsorted.contains(fd[t]));
                    let w = choose|w: int| 0 <= w < unsorted.len() && unsorted[w] == fd[t];
                    assert(unsorted[w] == fd[t]);
                }
            }
        }
        let current_focus = parse_current_focus(docs.readme.as_str());
        let cross_cutting_tasks = count_cross_cutting_tasks(docs.readme.as_str());
        ImplIndex {
            impl_dir: String::from_str(impl_dir),
            features,
            current_focus,
            cross_cutting_tasks,
        }
    }
}

} // verus!

verus! {

/// `s` with every copy of the prefix `pat` removed from its front.
pub open spec fn spec_strip_prefix_all(s: Seq<char>, pat: Seq<char>) -> Seq<char>
    recommends
        pat.len() > 0,
    decreases s.len() when pat.len() > 0
{
    if spec_match_at(s, 0, pat) {
        spec_strip_prefix_all(s.skip(pat.len() as int), pat)
    } else {
        s
    }
}

/// `s` with every copy of the suffix `pat` removed from its end.
pub open spec fn spec_strip_suffix_all(s: Seq<char>, pat: Seq<char>) -> Seq<char>
    recommends
        pat.len() > 0,
    decreases s.len() when pat.len() > 0
{
    if s.len() >= pat.len() && spec_match_at(s, s.len() - pat.len(), pat) {
        spec_strip_suffix_all(s.take(s.len() - pat.len()), pat)
    } else {
        s
    }
}

/// `s` with every path separator replaced by a dash.
pub open spec fn spec_dashify(s: Seq<char>) -> Seq<char> {
    Seq::new(s.len(), |i: int| if s[i] == '/' { '-' } else { s[i] })
}

/// The feature name a reference points at: the `specs/` prefix and the
/// `.md` suffix stripped, path separators turned into dashes.
pub open spec fn spec_extract_spec_name(s: Seq<char>) -> Seq<char> {
    spec_dashify(spec_strip_suffix_all(spec_strip_prefix_all(s, "specs/"@), ".md"@))
}

/// Executable stripping of the `specs/` prefix and `.md` suffix.
pub fn plain_ref_name(spec_ref: &str) -> (r: String)
    ensures
        r@ == spec_strip_suffix_all(spec_strip_prefix_all(spec_ref@, "specs/"@), ".md"@),
{
    let mut v = to_chars(spec_ref);
    let vn = v.len();
    proof {
        reveal_strlit("specs/");
        reveal_strlit(".md");
    }
    // strip leading `specs/`
    let mut lo: usize = 0;
    let ghost s0 = v@;
    proof {
        assert(s0.skip(0) =~= s0);
    }
    while crate::text::match_at(&v, lo, "specs/")
        invariant
            lo <= v@.len(),
            v@.len() == vn,
            v@ == s0,
            spec_strip_prefix_all(s0.skip(lo as int), "specs/"@) == spec_strip_prefix_all(
                s0,
                "specs/"@,
            ),
        decreases v@.len() - lo,
    {
        proof {
            reveal_strlit("specs/");
            assert(spec_match_at(v@, lo as int, "specs/"@));
            let rest = s0.skip(lo as int);
            assert(spec_match_at(rest, 0, "specs/"@)) by {
                assert(forall|k: int| 0 <= k < 6 ==> rest[k] == s0[lo + k]);
            }
            assert(rest.skip(6) =~= s0.skip(lo + 6));
        }
        lo = lo + 6;
    }
    proof {
        reveal_strlit("specs/");
        let rest = s0.skip(lo as int);
        assert(!spec_match_at(v@, lo as int, "specs/"@));
        assert(!spec_match_at(rest, 0, "specs/"@)) by {
            if spec_match_at(rest, 0, "specs/"@) {
                assert(forall|k: int| 0 <= k < 6 ==> rest[k] == s0[lo + k]);
                assert(spec_match_at(v@, lo as int, "specs/"@));
            }
        }
        assert(spec_strip_prefix_all(s0, "specs/"@) == s0.skip(lo as int));
    }
    // strip trailing `.md`
    let mut hi: usize = v.len();
    let ghost base = s0.skip(lo as int);
    proof {
        assert(s0.subrange(lo as int, hi as int) =~= base.take(hi - lo));
        assert(base.take(base.len() as int) =~= base);
    }
    loop
        invariant_except_break
            lo <= hi <= v@.len(),
            v@ == s0,
            base == s0.skip(lo as int),
            s0.subrange(lo as int, hi as int) == base.take(hi - lo),
            spec_strip_suffix_all(base.take(hi - lo), ".md"@) == spec_strip_suffix_all(base, ".md"@),
        ensures
            lo <= hi <= v@.len(),
            v@ == s0,
            s0.subrange(lo as int, hi as int) == spec_strip_suffix_all(base, ".md"@),
        decreases hi,
    {
        proof {
            reveal_strlit(".md");
        }
        let cur = hi - lo;
        if cur >= 3 && crate::text::match_at(&v, hi - 3, ".md") {
            proof {
                let piece = base.take(hi - lo);
                assert(spec_match_at(v@, hi - 3, ".md"@));
                assert(spec_match_at(piece, piece.len() - 3, ".md"@)) by {
                    assert forall|k: int| 0 <= k < 3 implies piece[piece.len() - 3 + k] == ".md"@[k] by {
                        assert(piece[piece.len() - 3 + k] == s0[hi - 3 + k]);
                        assert(s0[hi - 3 + k] == ".md"@[k]);
                    }
                }
                assert(piece.take(piece.len() - 3) =~= base.take(hi - lo - 3));
            }
            hi = hi - 3;
        } else {
            proof {
                let piece = base.take(hi - lo);
                if piece.len() >= 3 && spec_match_at(piece, piece.len() - 3, ".md"@) {
                    assert forall|k: int| 0 <= k < 3 implies s0[hi - 3 + k] == ".md"@[k] by {
                        assert(piece[piece.len() - 3 + k] == s0[hi - 3 + k]);
                        assert(piece[piece.len() - 3 + k] == ".md"@[k]);
                    }
                    assert(spec_match_at(v@, hi - 3, ".md"@));
                }
                assert(spec_strip_suffix_all(piece, ".md"@) == piece);
                assert(s0.subrange(lo as int, hi as int) == piece);
            }
            break;
        }
    }
    let kept = crate::text::subvec(&v, lo, hi);
    crate::text::string_from_chars(&kept)
}

/// Executable extraction matching `spec_extract_spec_name`.
pub fn extract_spec_name(spec_ref: &str) -> (r: String)
    ensures
        r@ == spec_extract_spec_name(spec_ref@),
{
    let base = plain_ref_name(spec_ref);
    let v = to_chars(base.as_str());
    let n = v.len();
    let mut out: Vec<char> = Vec::new();
    let mut i: usize = 0;
    while i < n
        invariant
            i <= n,
            n == v@.len(),
            v@ == base@,
            out@ == spec_dashify(base@).take(i as int),
        decreases n - i,
    {
        let c = v[i];
        if c == '/' {
            out.push('-');
        } else {
            out.push(c);
        }
        i = i + 1;
        proof {
            assert(out@ =~= spec_dashify(base@).take(i as int));
        }
    }
    proof {
        assert(spec_dashify(base@).take(n as int) =~= spec_dashify(base@));
    }
    crate::text::string_from_chars(&out)
}

/// Tasks grouped under one feature name.
#[derive(Debug, Clone)]
pub struct SpecGroup {
    pub name: String,
    pub tasks: Vec<Task>,
}

/// The model of one task group.
pub struct SpecGroupModel {
    pub name: Seq<char>,
    pub tasks: Seq<TaskModel>,
}

impl DeepView for SpecGroup {
    type V = SpecGroupModel;

    open spec fn deep_view(&self) -> SpecGroupModel {
        SpecGroupModel { name: self.name@, tasks: self.tasks.deep_view() }
    }
}

/// The first group with the given name, if any.
pub open spec fn spec_find_group(gs: Seq<SpecGroupModel>, name: Seq<char>, idx: int) -> Option<int>
    decreases gs.len() - idx when 0 <= idx
{
    if idx >= gs.len() {
        None
    } else if gs[idx].name == name {
        Some(idx)
    } else {
        spec_find_group(gs, name, idx + 1)
    }
}

/// One grouping step: a task with references joins the group of its
/// first reference's feature name (appending a new group on first
/// sight); a task without references is an orphan.
pub open spec fn spec_group_step(
    t: TaskModel,
    gs: Seq<SpecGroupModel>,
    orphans: Seq<TaskModel>,
) -> (Seq<SpecGroupModel>, Seq<TaskModel>) {
    if t.spec_refs.len() == 0 {
        (gs, orphans.push(t))
    } else {
        let nm = spec_extract_spec_name(t.spec_refs[0]);
        match spec_find_group(gs, nm, 0) {
            Some(g) => (
                gs.update(g, SpecGroupModel { name: gs[g].name, tasks: gs[g].tasks.push(t) }),
                orphans,
            ),
            None => (gs.push(SpecGroupModel { name: nm, tasks: seq![t] }), orphans),
        }
    }
}

/// Grouping of the tasks from index `i` on.
pub open spec fn spec_group_fold(
    ts: Seq<TaskModel>,
    i: int,
    gs: Seq<SpecGroupModel>,
    orphans: Seq<TaskModel>,
) -> (Seq<SpecGroupModel>, Seq<TaskModel>)
    decreases ts.len() - i when 0 <= i
{
    if i >= ts.len() {
        (gs, orphans)
    } else {
        let (gs2, orphans2) = spec_group_step(ts[i], gs, orphans);
        spec_group_fold(ts, i + 1, gs2, orphans2)
    }
}

/// The groups and orphans of a task list.
pub open spec fn spec_migration_grouping(ts: Seq<TaskModel>) -> (
    Seq<SpecGroupModel>,
    Seq<TaskModel>,
) {
    spec_group_fold(ts, 0, Seq::empty(), Seq::empty())
}

/// Result of a migration analysis.
#[derive(Debug, Clone)]
pub struct MigrationAnalysis {
    pub legacy_path: String,
    pub total_tasks: usize,
    pub tasks_by_spec: Vec<SpecGroup>,
    pub orphan_tasks: Vec<Task>,
    pub should_migrate: bool,
    pub threshold: u32,
}

/// Analyzes a flat plan document for migration into the hierarchy:
/// parses its tasks, groups them by the feature name of their first
/// reference, sets the orphans aside, and decides whether the task
/// count reaches the migration threshold.
pub fn analyze_migration(legacy_path: &str, content: &str, threshold: u32) -> (r: MigrationAnalysis)
    ensures
        r.legacy_path@ == legacy_path@,
        r.threshold == threshold,
        r.total_tasks == crate::verify::spec_parse_plan(content@).len(),
        r.should_migrate == (r.total_tasks >= threshold as usize),
        (r.tasks_by_spec.deep_view(), r.orphan_tasks.deep_view()) == spec_migration_grouping(
            crate::verify::spec_parse_plan(content@),
        ),
{
    let mut tasks = crate::verify::parse_plan(content);
    let total_tasks = tasks.len();
    let should_migrate = total_tasks >= threshold as usize;
    let ghost ts = tasks.deep_view();
    let mut groups: Vec<SpecGroup> = Vec::new();
    let mut orphans: Vec<Task> = Vec::new();
    let mut i: usize = 0;
    proof {
        assert(groups.deep_view() =~= Seq::<SpecGroupModel>::empty());
        assert(orphans.deep_view() =~= Seq::<TaskModel>::empty());
    }
    proof {
        assert(ts.skip(0) =~= ts);
    }
    while i < total_tasks
        invariant
            i <= total_tasks,
            total_tasks == ts.len(),
            tasks.deep_view() == ts.skip(i as int),
            spec_group_fold(ts, i as int, groups.deep_view(), orphans.deep_view())
                == spec_migration_grouping(ts),
        decreases total_tasks - i,
    {
        let ghost gs0 = groups.deep_view();
        let ghost or0 = orphans.deep_view();
        let ghost tv0 = tasks.deep_view();
        let ghost tseq0 = tasks@;
        proof {
            assert(tv0.len() == tseq0.len());
            assert(tv0.len() == ts.len() - i);
        }
        let t = tasks.remove(0);
        proof {
            assert(t == tseq0[0]);
            assert(tv0[0] == tseq0[0].deep_view());
            assert(ts.skip(i as int)[0] == ts[i as int]);
            assert(t.deep_view() == ts[i as int]);
            assert(tasks@ == tseq0.remove(0));
            assert(tasks.deep_view() =~= ts.skip(i + 1)) by {
                assert forall|k: int| 0 <= k < tasks@.len() implies tasks.deep_view()[k] == ts.skip(
                    i + 1,
                )[k] by {
                    assert(tasks.deep_view()[k] == tasks@[k].deep_view());
                    assert(tasks@[k] == tseq0[k + 1]);
                    assert(tseq0[k + 1].deep_view() == tv0[k + 1]);
                    assert(tv0[k + 1] == ts.skip(i as int)[k + 1]);
                    assert(ts.skip(i as int)[k + 1] == ts[i + 1 + k]);
                }
            }
        }
        if t.spec_refs.len() == 0 {
            proof {
                assert(t.deep_view().spec_refs.len() == 0);
            }
            orphans.push(t);
            proof {
                assert(orphans.deep_view() =~= or0.push(ts[i as int]));
            }
        } else {
            proof {
                assert(t.deep_view().spec_refs.len() > 0);
                assert(t.deep_view().spec_refs[0] == t.spec_refs@[0]@);
            }
            let nm = extract_spec_name(t.spec_refs[0].as_str());
            let ghost nms = nm@;
            // find the group with this name
            let gn = groups.len();
            let mut g: usize = 0;
            let mut found: bool = false;
            loop
                invariant_except_break
                    g <= gn,
                    gn == groups@.len(),
                    groups.deep_view() == gs0,
                    nms == nm@,
                    !found,
                    spec_find_group(gs0, nms, 0) == spec_find_group(gs0, nms, g as int),
                ensures
                    gn == groups@.len(),
                    groups.deep_view() == gs0,
                    nms == nm@,
                    found ==> g < gn && spec_find_group(gs0, nms, 0) == Some(g as int),
                    !found ==> spec_find_group(gs0, nms, 0) is None,
                decreases gn - g,
            {
                if g == gn {
                    break;
                }
                proof {
                    assert(gs0[g as int] == groups@[g as int].deep_view());
                }
                if groups[g].name.eq(&nm) {
                    proof {
                        assert(gs0[g as int].name == nms);
                    }
                    found = true;
                    break;
                }
                proof {
                    assert(gs0[g as int].name != nms);
                }
                g = g + 1;
            }
            if found {
                let ghost q0 = groups@;
                let ghost tm = t.deep_view();
                let mut grp = groups.remove(g);
                let ghost gm = grp.deep_view();
                proof {
                    assert(grp == q0[g as int]);
                    assert(gm == gs0[g as int]);
                }
                grp.tasks.push(t);
                proof {
                    assert(grp.deep_view().tasks =~= gm.tasks.push(tm));
                }
                groups.insert(g, grp);
                proof {
                    let target = gs0.update(
                        g as int,
                        SpecGroupModel {
                            name: gs0[g as int].name,
                            tasks: gs0[g as int].tasks.push(ts[i as int]),
                        },
                    );
                    assert(groups@ =~= q0.update(g as int, grp));
                    let gd = groups.deep_view();
                    assert forall|k: int| 0 <= k < gd.len() implies gd[k] == target[k] by {
                        assert(gd[k] == groups@[k].deep_view());
                        if k == g as int {
                            assert(groups@[k] == grp);
                            assert(grp.deep_view().name == gm.name);
                        } else {
                            assert(groups@[k] == q0[k]);
                            assert(q0[k].deep_view() == gs0[k]);
                        }
                    }
                    assert(groups.deep_view() =~= target);
                }
            } else {
                let mut tv: Vec<Task> = Vec::new();
                tv.push(t);
                let grp = SpecGroup { name: nm, tasks: tv };
                proof {
                    assert(grp.deep_view().tasks =~= seq![ts[i as int]]);
                }
                groups.push(grp);
                proof {
                    assert(groups.deep_view() =~= gs0.push(
                        SpecGroupModel { name: nms, tasks: seq![ts[i as int]] },
                    ));
                }
            }
        }
        i = i + 1;
    }
    proof {
        assert((groups.deep_view(), orphans.deep_view()) == spec_migration_grouping(ts));
    }
    MigrationAnalysis {
        legacy_path: String::from_str(legacy_path),
        total_tasks,
        tasks_by_spec: groups,
        orphan_tasks: orphans,
        should_migrate,
        threshold,
    }
}

} // verus!

verus! {

/// A document produced by migration: its name and its text.
#[derive(Debug, Clone)]
pub struct GeneratedDoc {
    pub name: String,
    pub content: String,
}

/// The checkbox marker of a status.
pub open spec fn spec_marker(st: TaskStatus) -> Seq<char> {
    match st {
        TaskStatus::Pending => "[ ]"@,
        TaskStatus::Completed => "[x]"@,
        TaskStatus::InProgress => "[~]"@,
    }
}

/// One task's lines in a generated document: its checkbox line, then an
/// indented complexity line and an indented dependencies line when set.
pub open spec fn spec_task_lines(t: TaskModel) -> Seq<char> {
    "- "@ + spec_marker(t.status) + " "@ + t.description + "\n"@ + (match t.complexity {
        Some(c) => "  - **Complexity:** "@ + c + "\n"@,
        None => Seq::empty(),
    }) + (if t.dependencies.len() > 0 {
        "  - **Dependencies:** "@ + spec_join_commas(t.dependencies) + "\n"@
    } else {
        Seq::empty()
    })
}

/// Names joined by a comma and a space.
pub open spec fn spec_join_commas(names: Seq<Seq<char>>) -> Seq<char>
    decreases names.len(),
{
    if names.len() == 0 {
        Seq::empty()
    } else if names.len() == 1 {
        names[0]
    } else {
        spec_join_commas(names.drop_last()) + ", "@ + names.last()
    }
}

/// Joins names by a comma and a space, matching `spec_join_commas`.
pub fn join_commas(names: &Vec<String>) -> (r: String)
    ensures
        r@ == spec_join_commas(names.deep_view()),
{
    let n = names.len();
    let mut out = String::new();
    let mut i: usize = 0;
    while i < n
        invariant
            i <= n,
            n == names@.len(),
            out@ == spec_join_commas(names.deep_view().subrange(0, i as int)),
        decreases n - i,
    {
        let ghost dm = names.deep_view();
        let ghost pre = dm.subrange(0, i as int);
        let ghost post = dm.subrange(0, i + 1);
        proof {
            assert(post.drop_last() =~= pre);
            assert(post.last() == dm[i as int]);
            assert(dm[i as int] == names@[i as int]@);
            if i > 0 {
                assert(post.subrange(0, 1) =~= dm.subrange(0, 1));
            }
        }
        if i > 0 {
            out.append(", ");
        }
        out.append(names[i].as_str());
        proof {
            reveal_strlit(", ");
            if i == 0 {
                assert(post =~= seq![dm[0]]);
                assert(out@ == spec_join_commas(post));
            } else {
                assert(out@ == spec_join_commas(pre) + ", "@ + dm[i as int]);
                assert(spec_join_commas(post) == spec_join_commas(post.drop_last()) + ", "@
                    + post.last());
            }
        }
        i = i + 1;
    }
    proof {
        assert(names.deep_view().subrange(0, n as int) =~= names.deep_view());
    }
    out
}

/// The task lines of a whole group.
pub open spec fn spec_tasks_lines(ts: Seq<TaskModel>) -> Seq<char>
    decreases ts.len(),
{
    if ts.len() == 0 {
        Seq::empty()
    } else {
        spec_tasks_lines(ts.drop_last()) + spec_task_lines(ts.last())
    }
}

/// A generated feature document: a heading, the specification link, the
/// migration date, then one checkbox line per task with its annotations.
pub open spec fn spec_feature_doc(name: Seq<char>, ts: Seq<TaskModel>, date: Seq<char>) -> Seq<
    char,
> {
    "# "@ + name + "\n\n"@ + "**Spec:** [specs/"@ + name + ".md](../specs/"@ + name
        + ".md)\n"@ + "**Last Updated:** "@ + date + "\n\n"@ + "## Tasks\n\n"@
        + spec_tasks_lines(ts)
}

/// Renders one task's lines, matching `spec_task_lines`.
fn render_task_lines(out: &mut String, t: &Task)
    ensures
        final (out)@ == old(out)@ + spec_task_lines(t.deep_view()),
{
    proof {
        reveal_strlit("- ");
        reveal_strlit("[ ]");
        reveal_strlit("[x]");
        reveal_strlit("[~]");
        reveal_strlit(" ");
        reveal_strlit("\n");
        reveal_strlit("  - **Complexity:** ");
        reveal_strlit("  - **Dependencies:** ");
    }
    out.append("- ");
    match t.status {
        TaskStatus::Pending => out.append("[ ]"),
        TaskStatus::Completed => out.append("[x]"),
        TaskStatus::InProgress => out.append("[~]"),
    }
    out.append(" ");
    out.append(t.description.as_str());
    out.append("\n");
    match &t.complexity {
        Some(c) => {
            out.append("  - **Complexity:** ");
            out.append(c.as_str());
            out.append("\n");
        },
        None => {},
    }
    if t.dependencies.len() > 0 {
        out.append("  - **Dependencies:** ");
        let joined = join_commas(&t.dependencies);
        out.append(joined.as_str());
        out.append("\n");
    }
    proof {
        assert(final (out)@ =~= old(out)@ + spec_task_lines(t.deep_view()));
    }
}

/// Renders a feature document, matching `spec_feature_doc`.
pub fn generate_feature_file(name: &str, tasks: &Vec<Task>, date: &str) -> (r: String)
    ensures
        r@ == spec_feature_doc(name@, tasks.deep_view(), date@),
{
    proof {
        reveal_strlit("# ");
        reveal_strlit("\n\n");
        reveal_strlit("**Spec:** [specs/");
        reveal_strlit(".md](../specs/");
        reveal_strlit(".md)\n");
        reveal_strlit("**Last Updated:** ");
        reveal_strlit("## Tasks\n\n");
    }
    let mut out = String::new();
    out.append("# ");
    out.append(name);
    out.append("\n\n");
    out.append("**Spec:** [specs/");
    out.append(name);
    out.append(".md](../specs/");
    out.append(name);
    out.append(".md)\n");
    out.append("**Last Updated:** ");
    out.append(date);
    out.append("\n\n");
    out.append("## Tasks\n\n");
    let ghost head = "# "@ + name@ + "\n\n"@ + "**Spec:** [specs/"@ + name@ + ".md](../specs/"@
        + name@ + ".md)\n"@ + "**Last Updated:** "@ + date@ + "\n\n"@ + "## Tasks\n\n"@;
    proof {
        assert(out@ =~= head);
    }
    let n = tasks.len();
    let mut i: usize = 0;
    proof {
        assert(tasks.deep_view().subrange(0, 0) =~= Seq::<TaskModel>::empty());
        assert(out@ =~= head + spec_tasks_lines(tasks.deep_view().subrange(0, 0)));
    }
    while i < n
        invariant
            i <= n,
            n == tasks@.len(),
            out@ == head + spec_tasks_lines(tasks.deep_view().subrange(0, i as int)),
        decreases n - i,
    {
        let ghost tm = tasks.deep_view();
        let ghost pre = tm.subrange(0, i as int);
        let ghost post = tm.subrange(0, i + 1);
        proof {
            assert(post.drop_last() =~= pre);
            assert(post.last() == tm[i as int]);
        }
        render_task_lines(&mut out, &tasks[i]);
        proof {
            assert(out@ =~= head + spec_tasks_lines(post));
        }
        i = i + 1;
    }
    proof {
        assert(tasks.deep_view().subrange(0, n as int) =~= tasks.deep_view());
    }
    out
}

} // verus!

verus! {

/// The status word a group's counts imply in the index table.
pub open spec fn spec_group_status_word(completed: int, total: int) -> Seq<char> {
    if completed == total && total > 0 {
        "Complete"@
    } else if completed > 0 {
        "In Progress"@
    } else {
        "Pending"@
    }
}

/// One group's table row in the index document.
pub open spec fn spec_group_row(g: SpecGroupModel) -> Seq<char> {
    let total = g.tasks.len() as int;
    let completed = crate::verify::count_status(g.tasks, TaskStatus::Completed);
    "| ["@ + g.name + "](./"@ + g.name + ".md) | "@ + spec_group_status_word(completed, total)
        + " | "@ + crate::text::spec_dec(completed) + "/"@ + crate::text::spec_dec(total)
        + " | [spec](../specs/"@ + g.name + ".md) |\n"@
}

/// All table rows, in group order.
pub open spec fn spec_group_rows(gs: Seq<SpecGroupModel>) -> Seq<char>
    decreases gs.len(),
{
    if gs.len() == 0 {
        Seq::empty()
    } else {
        spec_group_rows(gs.drop_last()) + spec_group_row(gs.last())
    }
}

/// Whether a group still holds a pending task.
pub open spec fn spec_group_has_pending(g: SpecGroupModel) -> bool {
    crate::verify::count_status(g.tasks, TaskStatus::Pending) > 0
}

/// The first group with pending work, scanning from `i`.
pub open spec fn spec_first_pending_group(gs: Seq<SpecGroupModel>, i: int) -> Option<Seq<char>>
    decreases gs.len() - i when 0 <= i
{
    if i >= gs.len() {
        None
    } else if spec_group_has_pending(gs[i]) {
        Some(gs[i].name)
    } else {
        spec_first_pending_group(gs, i + 1)
    }
}

/// The focus section: the first feature with pending work, or none.
pub open spec fn spec_focus_section(gs: Seq<SpecGroupModel>) -> Seq<char> {
    match spec_first_pending_group(gs, 0) {
        Some(name) => "\n## Current Focus\n\n**Active:** ["@ + name + ".md](./"@ + name
            + ".md)\n"@,
        None => "\n## Current Focus\n\n**Active:** None\n"@,
    }
}

/// The orphans' checkbox lines.
pub open spec fn spec_orphan_lines(ts: Seq<TaskModel>) -> Seq<char>
    decreases ts.len(),
{
    if ts.len() == 0 {
        Seq::empty()
    } else {
        spec_orphan_lines(ts.drop_last()) + "- "@ + spec_marker(ts.last().status) + " "@
            + ts.last().description + "\n"@
    }
}

/// The cross-cutting section: the orphan tasks as checkboxes, or nothing
/// when there are none.
pub open spec fn spec_cross_cutting_section(ts: Seq<TaskModel>) -> Seq<char> {
    if ts.len() > 0 {
        "\n## Cross-Cutting Tasks\n\n"@ + spec_orphan_lines(ts)
    } else {
        Seq::empty()
    }
}

/// The generated index document: a heading, the migration date, the
/// status table, the current focus, and the cross-cutting tasks.
pub open spec fn spec_readme_doc(
    gs: Seq<SpecGroupModel>,
    orphans: Seq<TaskModel>,
    date: Seq<char>,
) -> Seq<char> {
    "# Implementation Plan\n\n**Generated:** "@ + date
        + "\n\n## Status Overview\n\n| Feature | Status | Progress | Spec |\n|---------|--------|----------|------|\n"@
        + spec_group_rows(gs) + spec_focus_section(gs) + spec_cross_cutting_section(orphans)
}

/// Renders the index document, matching `spec_readme_doc`.
#[verifier::rlimit(100)]
pub fn generate_readme(groups: &Vec<SpecGroup>, orphans: &Vec<Task>, date: &str) -> (r: String)
    ensures
        r@ == spec_readme_doc(groups.deep_view(), orphans.deep_view(), date@),
{
    proof {
        reveal_strlit("# Implementation Plan\n\n**Generated:** ");
        reveal_strlit(
            "\n\n## Status Overview\n\n| Feature | Status | Progress | Spec |\n|---------|--------|----------|------|\n",
        );
    }
    let mut out = String::new();
    out.append("# Implementation Plan\n\n**Generated:** ");
    out.append(date);
    out.append(
        "\n\n## Status Overview\n\n| Feature | Status | Progress | Spec |\n|---------|--------|----------|------|\n",
    );
    let ghost head = "# Implementation Plan\n\n**Generated:** "@ + date@
        + "\n\n## Status Overview\n\n| Feature | Status | Progress | Spec |\n|---------|--------|----------|------|\n"@;
    proof {
        assert(out@ =~= head);
        assert(groups.deep_view().subrange(0, 0) =~= Seq::<SpecGroupModel>::empty());
    }
    let ng = groups.len();
    let mut i: usize = 0;
    while i < ng
        invariant
            i <= ng,
            ng == groups@.len(),
            out@ == head + spec_group_rows(groups.deep_view().subrange(0, i as int)),
        decreases ng - i,
    {
        let ghost gm = groups.deep_view();
        let ghost pre = gm.subrange(0, i as int);
        let ghost post = gm.subrange(0, i + 1);
        proof {
            assert(post.drop_last() =~= pre);
            assert(post.last() == gm[i as int]);
            reveal_strlit("| [");
            reveal_strlit("](./");
            reveal_strlit(".md) | ");
            reveal_strlit(" | ");
            reveal_strlit("/");
            reveal_strlit(" | [spec](../specs/");
            reveal_strlit(".md) |\n");
            reveal_strlit("Complete");
            reveal_strlit("In Progress");
            reveal_strlit("Pending");
        }
        let g = &groups[i];
        let (total, _p, completed, _ip) = crate::verify::count_tasks(&g.tasks);
        out.append("| [");
        out.append(g.name.as_str());
        out.append("](./");
        out.append(g.name.as_str());
        out.append(".md) | ");
        if completed == total && total > 0 {
            out.append("Complete");
        } else if completed > 0 {
            out.append("In Progress");
        } else {
            out.append("Pending");
        }
        out.append(" | ");
        let cnum = crate::text::u64_to_dec(completed as u64);
        out.append(cnum.as_str());
        out.append("/");
        let tnum = crate::text::u64_to_dec(total as u64);
        out.append(tnum.as_str());
        out.append(" | [spec](../specs/");
        out.append(g.name.as_str());
        out.append(".md) |\n");
        proof {
            assert(out@ =~= head + spec_group_rows(post));
        }
        i = i + 1;
    }
    proof {
        assert(groups.deep_view().subrange(0, ng as int) =~= groups.deep_view());
    }
    // the current focus: the first group with pending work
    let mut focus: Option<&SpecGroup> = None;
    let mut i: usize = 0;
    loop
        invariant_except_break
            i <= ng,
            ng == groups@.len(),
            focus is None,
            spec_first_pending_group(groups.deep_view(), 0) == spec_first_pending_group(
                groups.deep_view(),
                i as int,
            ),
        ensures
            match focus {
                Some(g) => spec_first_pending_group(groups.deep_view(), 0) == Some(
                    g.deep_view().name,
                ),
                None => spec_first_pending_group(groups.deep_view(), 0) is None,
            },
        decreases ng - i,
    {
        if i == ng {
            break;
        }
        let (_t, pending, _c, _ip) = crate::verify::count_tasks(&groups[i].tasks);
        if pending > 0 {
            proof {
                assert(spec_group_has_pending(groups.deep_view()[i as int]));
            }
            focus = Some(&groups[i]);
            break;
        }
        proof {
            assert(!spec_group_has_pending(groups.deep_view()[i as int]));
        }
        i = i + 1;
    }
    proof {
        reveal_strlit("\n## Current Focus\n\n**Active:** [");
        reveal_strlit(".md](./");
        reveal_strlit(".md)\n");
        reveal_strlit("\n## Current Focus\n\n**Active:** None\n");
    }
    match focus {
        Some(g) => {
            out.append("\n## Current Focus\n\n**Active:** [");
            out.append(g.name.as_str());
            out.append(".md](./");
            out.append(g.name.as_str());
            out.append(".md)\n");
        },
        None => {
            out.append("\n## Current Focus\n\n**Active:** None\n");
        },
    }
    let ghost head2 = head + spec_group_rows(groups.deep_view()) + spec_focus_section(
        groups.deep_view(),
    );
    proof {
        assert(out@ =~= head2);
    }
    // the cross-cutting tasks
    let no = orphans.len();
    if no > 0 {
        proof {
            reveal_strlit("\n## Cross-Cutting Tasks\n\n");
            reveal_strlit("- ");
            reveal_strlit("[ ]");
            reveal_strlit("[x]");
            reveal_strlit("[~]");
            reveal_strlit(" ");
            reveal_strlit("\n");
        }
        out.append("\n## Cross-Cutting Tasks\n\n");
        let ghost head3 = head2 + "\n## Cross-Cutting Tasks\n\n"@;
        proof {
            assert(out@ =~= head3);
            assert(orphans.deep_view().subrange(0, 0) =~= Seq::<TaskModel>::empty());
        }
        let mut k: usize = 0;
        while k < no
            invariant
                k <= no,
                no == orphans@.len(),
                no > 0,
                out@ == head3 + spec_orphan_lines(orphans.deep_view().subrange(0, k as int)),
            decreases no - k,
        {
            let ghost om = orphans.deep_view();
            let ghost pre = om.subrange(0, k as int);
            let ghost post = om.subrange(0, k + 1);
            proof {
                assert(post.drop_last() =~= pre);
                assert(post.last() == om[k as int]);
                reveal_strlit("- ");
                reveal_strlit("[ ]");
                reveal_strlit("[x]");
                reveal_strlit("[~]");
                reveal_strlit(" ");
                reveal_strlit("\n");
            }
            out.append("- ");
            match orphans[k].status {
                TaskStatus::Pending => out.append("[ ]"),
                TaskStatus::Completed => out.append("[x]"),
                TaskStatus::InProgress => out.append("[~]"),
            }
            out.append(" ");
            out.append(orphans[k].description.as_str());
            out.append("\n");
            proof {
                assert(out@ =~= head3 + spec_orphan_lines(post));
            }
            k = k + 1;
        }
        proof {
            assert(orphans.deep_view().subrange(0, no as int) =~= orphans.deep_view());
            assert(out@ =~= spec_readme_doc(groups.deep_view(), orphans.deep_view(), date@));
        }
    } else {
        proof {
            assert(orphans.deep_view().len() == 0);
            assert(out@ =~= spec_readme_doc(groups.deep_view(), orphans.deep_view(), date@));
        }
    }
    out
}

} // verus!

verus! {

/// The backup name of a legacy plan path: its final extension replaced
/// by `md.backup` (a path without one simply gains it).
pub open spec fn spec_backup_path(p: Seq<char>) -> Seq<char> {
    let slash = spec_last_index_of(p, '/');
    let dot = spec_last_index_of(p, '.');
    if dot > slash {
        p.subrange(0, dot) + ".md.backup"@
    } else {
        p + ".md.backup"@
    }
}

/// The last index of `c` in `s`, or `-1`.
pub open spec fn spec_last_index_of(s: Seq<char>, c: char) -> int
    decreases s.len(),
{
    if s.len() == 0 {
        -1
    } else if s.last() == c {
        s.len() - 1
    } else {
        spec_last_index_of(s.drop_last(), c)
    }
}

/// Computes the backup path, matching `spec_backup_path`.
pub fn backup_path_of(legacy_path: &str) -> (r: String)
    ensures
        r@ == spec_backup_path(legacy_path@),
{
    proof {
        reveal_strlit(".md.backup");
    }
    let v = to_chars(legacy_path);
    let n = v.len();
    let mut slash: Option<usize> = None;
    let mut dot: Option<usize> = None;
    let mut i: usize = 0;
    while i < n
        invariant
            i <= n,
            n == v@.len(),
            match slash {
                Some(x) => x < i && x == spec_last_index_of(v@.subrange(0, i as int), '/'),
                None => spec_last_index_of(v@.subrange(0, i as int), '/') == -1,
            },
            match dot {
                Some(x) => x < i && x == spec_last_index_of(v@.subrange(0, i as int), '.'),
                None => spec_last_index_of(v@.subrange(0, i as int), '.') == -1,
            },
        decreases n - i,
    {
        let ghost pre = v@.subrange(0, i as int);
        let ghost post = v@.subrange(0, i + 1);
        proof {
            assert(post.drop_last() =~= pre);
            assert(post.last() == v@[i as int]);
        }
        let c = v[i];
        if c == '/' {
            slash = Some(i);
        }
        if c == '.' {
            dot = Some(i);
        }
        proof {
            if c != '/' {
                assert(spec_last_index_of(post, '/') == spec_last_index_of(pre, '/'));
            }
            if c != '.' {
                assert(spec_last_index_of(post, '.') == spec_last_index_of(pre, '.'));
            }
        }
        i = i + 1;
    }
    proof {
        assert(v@.subrange(0, n as int) =~= v@);
    }
    let ghost sl = spec_last_index_of(v@, '/');
    let ghost dt = spec_last_index_of(v@, '.');
    let cut: usize = match (dot, slash) {
        (Some(d), Some(sv)) => if d > sv {
            d
        } else {
            n
        },
        (Some(d), None) => d,
        _ => n,
    };
    proof {
        if dt > sl {
            assert(cut == dt);
        } else {
            assert(cut == n);
        }
    }
    let kept = crate::text::subvec(&v, 0, cut);
    let mut out = crate::text::string_from_chars(&kept);
    out.append(".md.backup");
    proof {
        if dt > sl {
            assert(out@ =~= spec_backup_path(legacy_path@));
        } else {
            assert(v@.subrange(0, n as int) =~= v@);
            assert(out@ =~= spec_backup_path(legacy_path@));
        }
    }
    out
}

/// Everything a migration writes: the feature documents, the index
/// document, and where the legacy plan is to be moved.
#[derive(Debug, Clone)]
pub struct MigrationResult {
    pub impl_dir: String,
    pub backup_path: String,
    pub feature_docs: Vec<GeneratedDoc>,
    pub readme: String,
    pub feature_count: usize,
    pub task_count: usize,
    pub orphan_count: usize,
}

/// Plans the migration of an analyzed flat plan into the hierarchy: one
/// generated document per task group, named after its feature; the
/// index document listing the groups with the orphans as cross-cutting
/// tasks; and the backup name for the legacy plan. Writing the files
/// and renaming the legacy plan are the caller's, as one transaction.
pub fn plan_migration(analysis: &MigrationAnalysis, impl_dir: &str, date: &str) -> (r:
    MigrationResult)
    ensures
        r.impl_dir@ == impl_dir@,
        r.backup_path@ == spec_backup_path(analysis.legacy_path@),
        r.feature_docs@.len() == analysis.tasks_by_spec@.len(),
        forall|i: int|
            0 <= i < r.feature_docs@.len() ==> {
                &&& (#[trigger] r.feature_docs@[i]).name@ == analysis.tasks_by_spec@[i].deep_view().name
                &&& r.feature_docs@[i].content@ == spec_feature_doc(
                    analysis.tasks_by_spec@[i].deep_view().name,
                    analysis.tasks_by_spec@[i].deep_view().tasks,
                    date@,
                )
            },
        r.readme@ == spec_readme_doc(
            analysis.tasks_by_spec.deep_view(),
            analysis.orphan_tasks.deep_view(),
            date@,
        ),
        r.feature_count == analysis.tasks_by_spec@.len(),
        r.task_count == analysis.total_tasks,
        r.orphan_count == analysis.orphan_tasks@.len(),
{
    let ng = analysis.tasks_by_spec.len();
    let mut feature_docs: Vec<GeneratedDoc> = Vec::new();
    let mut i: usize = 0;
    while i < ng
        invariant
            i <= ng,
            ng == analysis.tasks_by_spec@.len(),
            feature_docs@.len() == i,
            forall|k: int|
                0 <= k < i ==> {
                    &&& (#[trigger] feature_docs@[k]).name@
                        == analysis.tasks_by_spec@[k].deep_view().name
                    &&& feature_docs@[k].content@ == spec_feature_doc(
                        analysis.tasks_by_spec@[k].deep_view().name,
                        analysis.tasks_by_spec@[k].deep_view().tasks,
                        date@,
                    )
                },
        decreases ng - i,
    {
        let g = &analysis.tasks_by_spec[i];
        let content = generate_feature_file(g.name.as_str(), &g.tasks, date);
        feature_docs.push(GeneratedDoc { name: g.name.clone(), content });
        i = i + 1;
    }
    let readme = generate_readme(&analysis.tasks_by_spec, &analysis.orphan_tasks, date);
    let backup_path = backup_path_of(analysis.legacy_path.as_str());
    MigrationResult {
        impl_dir: String::from_str(impl_dir),
        backup_path,
        feature_docs,
        readme,
        feature_count: ng,
        task_count: analysis.total_tasks,
        orphan_count: analysis.orphan_tasks.len(),
    }
}

} // verus!
