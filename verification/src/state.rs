//! The persisted run state: the record itself, its mutations at the
//! iteration boundaries, the environment it hands to hooks, and a
//! line-based codec that round-trips every record losslessly.

use vstd::prelude::*;

use crate::text::{
    is_digit, lemma_i64_dec_roundtrip, lemma_lines_cons, lemma_u64_dec_roundtrip, match_at,
    spec_dec, spec_dec_i64, spec_lines, spec_match_at, spec_parse_i64, spec_parse_u64, split_lines,
    string_from_chars, subvec, to_chars,
};

verus! {

/// Why a run ended.
#[derive(Debug, Clone, Copy, PartialEq, Eq, Structural)]
pub enum FinishType {
    Manual,
    Error,
    MaxIterations,
    Complete,
    NoChanges,
}

impl FinishType {
    /// The lower-case name of the finish reason.
    pub fn to_string(&self) -> (s: String)
        ensures
            s@ == spec_finish_name(*self),
    {
        match self {
            FinishType::Manual => String::from_str("manual"),
            FinishType::Error => String::from_str("error"),
            FinishType::MaxIterations => String::from_str("max_iterations"),
            FinishType::Complete => String::from_str("complete"),
            FinishType::NoChanges => String::from_str("no_changes"),
        }
    }
}

/// The rendered name of a finish reason.
pub open spec fn spec_finish_name(f: FinishType) -> Seq<char> {
    match f {
        FinishType::Manual => "manual"@,
        FinishType::Error => "error"@,
        FinishType::MaxIterations => "max_iterations"@,
        FinishType::Complete => "complete"@,
        FinishType::NoChanges => "no_changes"@,
    }
}

/// The current state of a run. Instants are unix seconds.
#[derive(Debug, Clone)]
pub struct State {
    pub iteration: u32,
    pub last_exit_code: i32,
    pub last_commit_sha: Option<String>,
    pub started_at: i64,
    pub total_commits: u32,
    pub duration: u64,
    pub finish_type: Option<FinishType>,
    pub iteration_start: Option<i64>,
    pub iteration_sha: Option<String>,
}

/// The mathematical model of a run state.
pub struct StateModel {
    pub iteration: u32,
    pub last_exit_code: i32,
    pub last_commit_sha: Option<Seq<char>>,
    pub started_at: i64,
    pub total_commits: u32,
    pub duration: u64,
    pub finish_type: Option<FinishType>,
    pub iteration_start: Option<i64>,
    pub iteration_sha: Option<Seq<char>>,
}

impl DeepView for State {
    type V = StateModel;

    open spec fn deep_view(&self) -> StateModel {
        StateModel {
            iteration: self.iteration,
            last_exit_code: self.last_exit_code,
            last_commit_sha: match self.last_commit_sha {
                Some(ref s) => Some(s@),
                None => None,
            },
            started_at: self.started_at,
            total_commits: self.total_commits,
            duration: self.duration,
            finish_type: self.finish_type,
            iteration_start: self.iteration_start,
            iteration_sha: match self.iteration_sha {
                Some(ref s) => Some(s@),
                None => None,
            },
        }
    }
}

impl State {
    /// A fresh state: nothing done yet, the run started `now`.
    pub fn new(now: i64) -> (r: State)
        ensures
            r.iteration == 0,
            r.last_exit_code == 0,
            r.last_commit_sha is None,
            r.started_at == now,
            r.total_commits == 0,
            r.duration == 0,
            r.finish_type is None,
            r.iteration_start is None,
            r.iteration_sha is None,
    {
        State {
            iteration: 0,
            last_exit_code: 0,
            last_commit_sha: None,
            started_at: now,
            total_commits: 0,
            duration: 0,
            finish_type: None,
            iteration_start: None,
            iteration_sha: None,
        }
    }

    /// Opens a new iteration: the counter steps up, the iteration's start
    /// and starting revision are recorded; everything else stays.
    pub fn start_iteration(&mut self, now: i64, commit_sha: Option<String>)
        requires
            old(self).iteration < u32::MAX,
        ensures
            final (self).iteration == old(self).iteration + 1,
            final (self).iteration_start == Some(now),
            final (self).iteration_sha.deep_view() == commit_sha.deep_view(),
            final (self).last_exit_code == old(self).last_exit_code,
            final (self).last_commit_sha == old(self).last_commit_sha,
            final (self).started_at == old(self).started_at,
            final (self).total_commits == old(self).total_commits,
            final (self).duration == old(self).duration,
            final (self).finish_type == old(self).finish_type,
    {
        self.iteration = self.iteration + 1;
        self.iteration_start = Some(now);
        self.iteration_sha = commit_sha;
    }

    /// Closes an iteration: records the worker's exit code, adds the
    /// commits it made, notes the newest revision when any commit was
    /// made, and refreshes the run's duration.
    pub fn complete_iteration(
        &mut self,
        exit_code: i32,
        commits: u32,
        current_sha: Option<String>,
        now: i64,
    )
        requires
            old(self).total_commits + commits <= u32::MAX,
        ensures
            final (self).last_exit_code == exit_code,
            final (self).total_commits == old(self).total_commits + commits,
            commits > 0 ==> final (self).last_commit_sha.deep_view() == current_sha.deep_view(),
            commits == 0 ==> final (self).last_commit_sha == old(self).last_commit_sha,
            final (self).duration == spec_duration_since(old(self).started_at, now),
            final (self).iteration == old(self).iteration,
            final (self).started_at == old(self).started_at,
            final (self).finish_type == old(self).finish_type,
            final (self).iteration_start == old(self).iteration_start,
            final (self).iteration_sha == old(self).iteration_sha,
    {
        self.last_exit_code = exit_code;
        self.total_commits = self.total_commits + commits;
        if commits > 0 {
            self.last_commit_sha = current_sha;
        }
        self.update_duration(now);
    }

    /// Refreshes the duration: the seconds from the run's start to `now`,
    /// and zero should the clock stand before the start.
    pub fn update_duration(&mut self, now: i64)
        ensures
            final (self).duration == spec_duration_since(old(self).started_at, now),
            *final (self) == (State { duration: final (self).duration, ..*old(self) }),
    {
        if now >= self.started_at {
            let d: i128 = now as i128 - self.started_at as i128;
            self.duration = d as u64;
        } else {
            self.duration = 0;
        }
    }

    /// Records why the run finished and refreshes the duration.
    pub fn set_finish(&mut self, finish_type: FinishType, now: i64)
        ensures
            final (self).finish_type == Some(finish_type),
            final (self).duration == spec_duration_since(old(self).started_at, now),
            *final (self) == (State {
                finish_type: Some(finish_type),
                duration: final (self).duration,
                ..*old(self)
            }),
    {
        self.finish_type = Some(finish_type);
        self.update_duration(now);
    }

    /// The environment handed to hooks, matching `spec_env_vars_ok`.
    pub fn to_env_vars(&self) -> (r: Vec<(String, String)>)
        ensures
            spec_env_vars_ok(r@, self.deep_view()),
    {
        let mut vars: Vec<(String, String)> = Vec::new();
        vars.push(
            (String::from_str("FRESHER_ITERATION"), crate::text::u64_to_dec(self.iteration as u64)),
        );
        vars.push(
            (
                String::from_str("FRESHER_LAST_EXIT_CODE"),
                crate::text::i64_to_dec(self.last_exit_code as i64),
            ),
        );
        vars.push(
            (
                String::from_str("FRESHER_TOTAL_COMMITS"),
                crate::text::u64_to_dec(self.total_commits as u64),
            ),
        );
        vars.push((String::from_str("FRESHER_DURATION"), crate::text::u64_to_dec(self.duration)));
        vars.push(
            (
                String::from_str("FRESHER_TOTAL_ITERATIONS"),
                crate::text::u64_to_dec(self.iteration as u64),
            ),
        );
        match &self.last_commit_sha {
            Some(sha) => {
                vars.push((String::from_str("FRESHER_LAST_COMMIT_SHA"), sha.clone()));
            },
            None => {},
        }
        match &self.finish_type {
            Some(ft) => {
                vars.push((String::from_str("FRESHER_FINISH_TYPE"), ft.to_string()));
            },
            None => {},
        }
        vars
    }
}

/// Elapsed whole seconds from `start` to `now`, zero when `now` is earlier.
pub open spec fn spec_duration_since(start: i64, now: i64) -> u64 {
    if now >= start {
        (now - start) as u64
    } else {
        0
    }
}

/// The exact environment a state yields for hooks: the five counters
/// always, then the last commit and the finish reason when set.
pub open spec fn spec_env_vars_ok(r: Seq<(String, String)>, m: StateModel) -> bool {
    let base: int = 5;
    let with_sha: int = if m.last_commit_sha is Some {
        1int
    } else {
        0int
    };
    let with_finish: int = if m.finish_type is Some {
        1int
    } else {
        0int
    };
    &&& r.len() == base + with_sha + with_finish
    &&& r[0].0@ == "FRESHER_ITERATION"@ && r[0].1@ == spec_dec(m.iteration as int)
    &&& r[1].0@ == "FRESHER_LAST_EXIT_CODE"@ && r[1].1@ == spec_dec_i64(m.last_exit_code as int)
    &&& r[2].0@ == "FRESHER_TOTAL_COMMITS"@ && r[2].1@ == spec_dec(m.total_commits as int)
    &&& r[3].0@ == "FRESHER_DURATION"@ && r[3].1@ == spec_dec(m.duration as int)
    &&& r[4].0@ == "FRESHER_TOTAL_ITERATIONS"@ && r[4].1@ == spec_dec(m.iteration as int)
    &&& match m.last_commit_sha {
        Some(sha) => r[5].0@ == "FRESHER_LAST_COMMIT_SHA"@ && r[5].1@ == sha,
        None => true,
    }
    &&& match m.finish_type {
        Some(ft) => r[base + with_sha].0@ == "FRESHER_FINISH_TYPE"@ && r[base + with_sha].1@
            == spec_finish_name(ft),
        None => true,
    }
}

} // verus!

verus! {

// ---------------------------------------------------------------------------
// The state codec: one `key=value` line per field, optional fields by
// presence of their line.
// ---------------------------------------------------------------------------

/// One rendered line: the key, the value, a newline.
pub open spec fn spec_kv_line(key: Seq<char>, value: Seq<char>) -> Seq<char> {
    key + value + seq!['\n']
}

/// The rendered line of an optional text field, or nothing.
pub open spec fn spec_opt_text_line(key: Seq<char>, v: Option<Seq<char>>) -> Seq<char> {
    match v {
        Some(s) => spec_kv_line(key, s),
        None => Seq::empty(),
    }
}

/// The rendered lines from the run-start instant on.
pub open spec fn spec_render_tail(m: StateModel) -> Seq<char> {
    spec_kv_line("started_at="@, spec_dec_i64(m.started_at as int)) + (spec_kv_line(
        "total_commits="@,
        spec_dec(m.total_commits as int),
    ) + (spec_kv_line("duration="@, spec_dec(m.duration as int)) + ((match m.finish_type {
        Some(f) => spec_kv_line("finish_type="@, spec_finish_name(f)),
        None => Seq::empty(),
    }) + ((match m.iteration_start {
        Some(t) => spec_kv_line("iteration_start="@, spec_dec_i64(t as int)),
        None => Seq::empty(),
    }) + spec_opt_text_line("iteration_sha="@, m.iteration_sha)))))
}

/// The rendered form of a state record.
pub open spec fn spec_render_state(m: StateModel) -> Seq<char> {
    spec_kv_line("iteration="@, spec_dec(m.iteration as int)) + (spec_kv_line(
        "last_exit_code="@,
        spec_dec_i64(m.last_exit_code as int),
    ) + (spec_opt_text_line("last_commit_sha="@, m.last_commit_sha) + spec_render_tail(m)))
}

/// Renders the lines from the run-start instant on.
#[verifier::rlimit(100)]
fn render_state_tail(st: &State) -> (s: String)
    ensures
        s@ == spec_render_tail(st.deep_view()),
{
    proof {
        reveal_strlit("\n");
        assert("\n"@ =~= seq!['\n']);
    }
    let ghost m = st.deep_view();
    let mut s = String::new();
    s.append("started_at=");
    let num = crate::text::i64_to_dec(st.started_at);
    s.append(num.as_str());
    s.append("\n");
    let ghost acc4 = spec_kv_line("started_at="@, spec_dec_i64(m.started_at as int));
    proof {
        assert(s@ =~= acc4);
    }
    s.append("total_commits=");
    let num = crate::text::u64_to_dec(st.total_commits as u64);
    s.append(num.as_str());
    s.append("\n");
    let ghost acc5 = acc4 + spec_kv_line("total_commits="@, spec_dec(m.total_commits as int));
    proof {
        assert(s@ =~= acc5);
    }
    s.append("duration=");
    let num = crate::text::u64_to_dec(st.duration);
    s.append(num.as_str());
    s.append("\n");
    let ghost acc6 = acc5 + spec_kv_line("duration="@, spec_dec(m.duration as int));
    proof {
        assert(s@ =~= acc6);
    }
    match &st.finish_type {
        Some(ft) => {
            s.append("finish_type=");
            let name = ft.to_string();
            s.append(name.as_str());
            s.append("\n");
        },
        None => {},
    }
    let ghost acc7 = acc6 + (match m.finish_type {
        Some(f) => spec_kv_line("finish_type="@, spec_finish_name(f)),
        None => Seq::empty(),
    });
    proof {
        assert(s@ =~= acc7);
    }
    match &st.iteration_start {
        Some(t) => {
            s.append("iteration_start=");
            let num = crate::text::i64_to_dec(*t);
            s.append(num.as_str());
            s.append("\n");
        },
        None => {},
    }
    let ghost acc8 = acc7 + (match m.iteration_start {
        Some(t) => spec_kv_line("iteration_start="@, spec_dec_i64(t as int)),
        None => Seq::empty(),
    });
    proof {
        assert(s@ =~= acc8);
    }
    match &st.iteration_sha {
        Some(sha) => {
            s.append("iteration_sha=");
            s.append(sha.as_str());
            s.append("\n");
        },
        None => {},
    }
    let ghost acc9 = acc8 + spec_opt_text_line("iteration_sha="@, m.iteration_sha);
    proof {
        assert(s@ =~= acc9);
        assert(acc9 =~= spec_render_tail(m));
    }
    s
}

/// Renders a state record to its line format.
#[verifier::rlimit(100)]
pub fn render_state(st: &State) -> (s: String)
    ensures
        s@ == spec_render_state(st.deep_view()),
{
    proof {
        reveal_strlit("\n");
        assert("\n"@ =~= seq!['\n']);
    }
    let ghost m = st.deep_view();
    let mut s = String::new();
    s.append("iteration=");
    let num = crate::text::u64_to_dec(st.iteration as u64);
    s.append(num.as_str());
    s.append("\n");
    let ghost acc1 = spec_kv_line("iteration="@, spec_dec(m.iteration as int));
    proof {
        assert(s@ =~= acc1);
    }
    s.append("last_exit_code=");
    let num = crate::text::i64_to_dec(st.last_exit_code as i64);
    s.append(num.as_str());
    s.append("\n");
    let ghost acc2 = acc1 + spec_kv_line("last_exit_code="@, spec_dec_i64(m.last_exit_code as int));
    proof {
        assert(s@ =~= acc2);
    }
    match &st.last_commit_sha {
        Some(sha) => {
            s.append("last_commit_sha=");
            s.append(sha.as_str());
            s.append("\n");
        },
        None => {},
    }
    let ghost acc3 = acc2 + spec_opt_text_line("last_commit_sha="@, m.last_commit_sha);
    proof {
        assert(s@ =~= acc3);
    }
    let tail = render_state_tail(st);
    s.append(tail.as_str());
    proof {
        assert(s@ =~= acc3 + spec_render_tail(m));
        assert(acc3 + spec_render_tail(m) =~= spec_render_state(m));
    }
    s
}

/// The value of a line under a key, when the line starts with the key.
pub open spec fn spec_kv(line: Seq<char>, key: Seq<char>) -> Option<Seq<char>> {
    if spec_match_at(line, 0, key) {
        Some(line.skip(key.len() as int))
    } else {
        None
    }
}

/// A required `u32` field at line `i`.
pub open spec fn sp_req_u32(ls: Seq<Seq<char>>, i: int, key: Seq<char>) -> Option<(u32, int)> {
    if 0 <= i < ls.len() {
        match spec_kv(ls[i], key) {
            Some(v) => match spec_parse_u64(v) {
                Some(x) => if x <= u32::MAX as u64 {
                    Some(((x as u32), i + 1))
                } else {
                    None
                },
                None => None,
            },
            None => None,
        }
    } else {
        None
    }
}

/// A required `u64` field at line `i`.
pub open spec fn sp_req_u64(ls: Seq<Seq<char>>, i: int, key: Seq<char>) -> Option<(u64, int)> {
    if 0 <= i < ls.len() {
        match spec_kv(ls[i], key) {
            Some(v) => match spec_parse_u64(v) {
                Some(x) => Some((x, i + 1)),
                None => None,
            },
            None => None,
        }
    } else {
        None
    }
}

/// A required `i64` field at line `i`.
pub open spec fn sp_req_i64(ls: Seq<Seq<char>>, i: int, key: Seq<char>) -> Option<(i64, int)> {
    if 0 <= i < ls.len() {
        match spec_kv(ls[i], key) {
            Some(v) => match spec_parse_i64(v) {
                Some(x) => Some((x, i + 1)),
                None => None,
            },
            None => None,
        }
    } else {
        None
    }
}

/// An optional text field at line `i`: absent when the line (or the end)
/// does not carry the key.
pub open spec fn sp_opt_text(ls: Seq<Seq<char>>, i: int, key: Seq<char>) -> (
    Option<Seq<char>>,
    int,
) {
    if 0 <= i < ls.len() {
        match spec_kv(ls[i], key) {
            Some(v) => (Some(v), i + 1),
            None => (None, i),
        }
    } else {
        (None, i)
    }
}

/// The finish reason a name spells, if any.
pub open spec fn spec_finish_of_name(v: Seq<char>) -> Option<FinishType> {
    if v == "manual"@ {
        Some(FinishType::Manual)
    } else if v == "error"@ {
        Some(FinishType::Error)
    } else if v == "max_iterations"@ {
        Some(FinishType::MaxIterations)
    } else if v == "complete"@ {
        Some(FinishType::Complete)
    } else if v == "no_changes"@ {
        Some(FinishType::NoChanges)
    } else {
        None
    }
}

/// The state record spelled by the given lines, if they are exactly a
/// rendered record.
pub open spec fn spec_parse_state_lines(ls: Seq<Seq<char>>) -> Option<StateModel> {
    match sp_req_u32(ls, 0, "iteration="@) {
        None => None,
        Some((iteration, c1)) => match sp_req_i64(ls, c1, "last_exit_code="@) {
            None => None,
            Some((ec, c2)) => if !(i32::MIN <= ec <= i32::MAX) {
                None
            } else {
                let (last_commit_sha, c3) = sp_opt_text(ls, c2, "last_commit_sha="@);
                match sp_req_i64(ls, c3, "started_at="@) {
                    None => None,
                    Some((started_at, c4)) => match sp_req_u32(ls, c4, "total_commits="@) {
                        None => None,
                        Some((total_commits, c5)) => match sp_req_u64(ls, c5, "duration="@) {
                            None => None,
                            Some((duration, c6)) => {
                                let (ft_text, c7) = sp_opt_text(ls, c6, "finish_type="@);
                                let finish_ok = match ft_text {
                                    Some(v) => spec_finish_of_name(v) is Some,
                                    None => true,
                                };
                                if !finish_ok {
                                    None
                                } else {
                                    let finish_type = match ft_text {
                                        Some(v) => spec_finish_of_name(v),
                                        None => None,
                                    };
                                    let (is_text, c8) = sp_opt_text(ls, c7, "iteration_start="@);
                                    let start_ok = match is_text {
                                        Some(v) => spec_parse_i64(v) is Some,
                                        None => true,
                                    };
                                    if !start_ok {
                                        None
                                    } else {
                                        let iteration_start = match is_text {
                                            Some(v) => spec_parse_i64(v),
                                            None => None,
                                        };
                                        let (iteration_sha, c9) = sp_opt_text(
                                            ls,
                                            c8,
                                            "iteration_sha="@,
                                        );
                                        if c9 == ls.len() {
                                            Some(
                                                StateModel {
                                                    iteration,
                                                    last_exit_code: ec as i32,
                                                    last_commit_sha,
                                                    started_at,
                                                    total_commits,
                                                    duration,
                                                    finish_type,
                                                    iteration_start,
                                                    iteration_sha,
                                                },
                                            )
                                        } else {
                                            None
                                        }
                                    }
                                }
                            },
                        },
                    },
                }
            },
        },
    }
}

/// The state record spelled by a document.
pub open spec fn spec_parse_state(content: Seq<char>) -> Option<StateModel> {
    spec_parse_state_lines(spec_lines(content))
}

} // verus!

verus! {

/// Whether the characters of `v` spell exactly `s`.
fn chars_eq_str(v: &Vec<char>, s: &str) -> (r: bool)
    ensures
        r == (v@ == s@),
{
    let m = s.unicode_len();
    if v.len() != m {
        return false;
    }
    if match_at(v, 0, s) {
        proof {
            assert(v@ =~= s@);
        }
        true
    } else {
        proof {
            if v@ == s@ {
                assert(spec_match_at(v@, 0, s@));
            }
        }
        false
    }
}

/// The value of `line` under `key`, matching `spec_kv`.
fn kv_value(line: &str, key: &str) -> (r: Option<Vec<char>>)
    ensures
        match r {
            Some(v) => spec_kv(line@, key@) == Some(v@),
            None => spec_kv(line@, key@) is None,
        },
{
    let chars = to_chars(line);
    let klen = key.unicode_len();
    if match_at(&chars, 0, key) {
        let out = subvec(&chars, klen, chars.len());
        proof {
            assert(out@ =~= line@.skip(klen as int));
        }
        Some(out)
    } else {
        None
    }
}

/// Parses a `u64` value vector entirely.
fn whole_u64(v: &Vec<char>) -> (r: Option<u64>)
    ensures
        r == spec_parse_u64(v@),
{
    proof {
        assert(v@.subrange(0, v@.len() as int) =~= v@);
    }
    crate::text::parse_u64_range(v, 0, v.len())
}

/// Parses an `i64` value vector entirely.
fn whole_i64(v: &Vec<char>) -> (r: Option<i64>)
    ensures
        r == spec_parse_i64(v@),
{
    proof {
        assert(v@.subrange(0, v@.len() as int) =~= v@);
    }
    crate::text::parse_i64_range(v, 0, v.len())
}

/// Parses a document as a state record, matching `spec_parse_state`:
/// `Some` exactly on the rendered form of a record, yielding it.
#[verifier::rlimit(100)]
pub fn parse_state(content: &str) -> (r: Option<State>)
    ensures
        match r {
            Some(st) => spec_parse_state(content@) == Some(st.deep_view()),
            None => spec_parse_state(content@) is None,
        },
{
    let lines = split_lines(content);
    let n = lines.len();
    let ghost ls = spec_lines(content@);
    proof {
        assert(lines.deep_view() == ls);
    }
    // iteration
    if n == 0 {
        return None;
    }
    proof {
        assert(lines.deep_view()[0] == lines@[0]@);
    }
    let iteration: u32 = match kv_value(lines[0].as_str(), "iteration=") {
        Some(v) => match whole_u64(&v) {
            Some(x) => {
                if x <= 0xffff_ffffu64 {
                    x as u32
                } else {
                    return None;
                }
            },
            None => {
                return None;
            },
        },
        None => {
            return None;
        },
    };
    let c1: usize = 1;
    // last exit code
    if c1 >= n {
        return None;
    }
    proof {
        assert(lines.deep_view()[c1 as int] == lines@[c1 as int]@);
    }
    let last_exit_code: i32 = match kv_value(lines[c1].as_str(), "last_exit_code=") {
        Some(v) => match whole_i64(&v) {
            Some(x) => {
                if -0x8000_0000i64 <= x && x <= 0x7fff_ffffi64 {
                    x as i32
                } else {
                    return None;
                }
            },
            None => {
                return None;
            },
        },
        None => {
            return None;
        },
    };
    let c2: usize = 2;
    // optional last commit sha
    let mut cursor: usize = c2;
    let mut last_commit_sha: Option<String> = None;
    if cursor < n {
        proof {
            assert(lines.deep_view()[cursor as int] == lines@[cursor as int]@);
        }
        match kv_value(lines[cursor].as_str(), "last_commit_sha=") {
            Some(v) => {
                last_commit_sha = Some(string_from_chars(&v));
                cursor = cursor + 1;
            },
            None => {},
        }
    }
    let ghost c3 = cursor as int;
    proof {
        assert((match last_commit_sha {
            Some(ref s) => Some(s@),
            None => None::<Seq<char>>,
        }, c3) == sp_opt_text(ls, c2 as int, "last_commit_sha="@));
    }
    // started at
    if cursor >= n {
        return None;
    }
    proof {
        assert(lines.deep_view()[cursor as int] == lines@[cursor as int]@);
    }
    let started_at: i64 = match kv_value(lines[cursor].as_str(), "started_at=") {
        Some(v) => match whole_i64(&v) {
            Some(x) => x,
            None => {
                return None;
            },
        },
        None => {
            return None;
        },
    };
    cursor = cursor + 1;
    // total commits
    if cursor >= n {
        return None;
    }
    proof {
        assert(lines.deep_view()[cursor as int] == lines@[cursor as int]@);
    }
    let total_commits: u32 = match kv_value(lines[cursor].as_str(), "total_commits=") {
        Some(v) => match whole_u64(&v) {
            Some(x) => {
                if x <= 0xffff_ffffu64 {
                    x as u32
                } else {
                    return None;
                }
            },
            None => {
                return None;
            },
        },
        None => {
            return None;
        },
    };
    cursor = cursor + 1;
    // duration
    if cursor >= n {
        return None;
    }
    proof {
        assert(lines.deep_view()[cursor as int] == lines@[cursor as int]@);
    }
    let duration: u64 = match kv_value(lines[cursor].as_str(), "duration=") {
        Some(v) => match whole_u64(&v) {
            Some(x) => x,
            None => {
                return None;
            },
        },
        None => {
            return None;
        },
    };
    cursor = cursor + 1;
    let ghost c6 = cursor as int;
    // optional finish type
    let mut finish_type: Option<FinishType> = None;
    let mut had_finish_line: bool = false;
    if cursor < n {
        proof {
            assert(lines.deep_view()[cursor as int] == lines@[cursor as int]@);
        }
        match kv_value(lines[cursor].as_str(), "finish_type=") {
            Some(v) => {
                had_finish_line = true;
                cursor = cursor + 1;
                if chars_eq_str(&v, "manual") {
                    finish_type = Some(FinishType::Manual);
                } else if chars_eq_str(&v, "error") {
                    finish_type = Some(FinishType::Error);
                } else if chars_eq_str(&v, "max_iterations") {
                    finish_type = Some(FinishType::MaxIterations);
                } else if chars_eq_str(&v, "complete") {
                    finish_type = Some(FinishType::Complete);
                } else if chars_eq_str(&v, "no_changes") {
                    finish_type = Some(FinishType::NoChanges);
                } else {
                    return None;
                }
            },
            None => {},
        }
    }
    let ghost c7 = cursor as int;
    // optional iteration start
    let mut iteration_start: Option<i64> = None;
    if cursor < n {
        proof {
            assert(lines.deep_view()[cursor as int] == lines@[cursor as int]@);
        }
        match kv_value(lines[cursor].as_str(), "iteration_start=") {
            Some(v) => {
                cursor = cursor + 1;
                match whole_i64(&v) {
                    Some(x) => {
                        iteration_start = Some(x);
                    },
                    None => {
                        return None;
                    },
                }
            },
            None => {},
        }
    }
    let ghost c8 = cursor as int;
    // optional iteration sha
    let mut iteration_sha: Option<String> = None;
    if cursor < n {
        proof {
            assert(lines.deep_view()[cursor as int] == lines@[cursor as int]@);
        }
        match kv_value(lines[cursor].as_str(), "iteration_sha=") {
            Some(v) => {
                iteration_sha = Some(string_from_chars(&v));
                cursor = cursor + 1;
            },
            None => {},
        }
    }
    if cursor != n {
        return None;
    }
    Some(
        State {
            iteration,
            last_exit_code,
            last_commit_sha,
            started_at,
            total_commits,
            duration,
            finish_type,
            iteration_start,
            iteration_sha,
        },
    )
}

} // verus!

verus! {

/// Text without line breaks: safe inside one line of the codec.
pub open spec fn spec_clean_text(s: Seq<char>) -> bool {
    forall|i: int| 0 <= i < s.len() ==> s[i] != '\n' && s[i] != '\r'
}

/// A record the codec can hold losslessly: its optional revision texts
/// carry no line breaks.
pub open spec fn spec_state_clean(m: StateModel) -> bool {
    &&& match m.last_commit_sha {
        Some(s) => spec_clean_text(s),
        None => true,
    }
    &&& match m.iteration_sha {
        Some(s) => spec_clean_text(s),
        None => true,
    }
}

/// The line contents from the run-start instant on.
pub open spec fn spec_pieces_tail(m: StateModel) -> Seq<Seq<char>> {
    seq!["started_at="@ + spec_dec_i64(m.started_at as int)] + (seq![
        "total_commits="@ + spec_dec(m.total_commits as int),
    ] + (seq!["duration="@ + spec_dec(m.duration as int)] + ((match m.finish_type {
        Some(f) => seq!["finish_type="@ + spec_finish_name(f)],
        None => Seq::empty(),
    }) + ((match m.iteration_start {
        Some(t) => seq!["iteration_start="@ + spec_dec_i64(t as int)],
        None => Seq::empty(),
    }) + (match m.iteration_sha {
        Some(s) => seq!["iteration_sha="@ + s],
        None => Seq::empty(),
    })))))
}

/// The line contents (without newlines) of a rendered record.
pub open spec fn spec_state_pieces(m: StateModel) -> Seq<Seq<char>> {
    seq!["iteration="@ + spec_dec(m.iteration as int)] + (seq![
        "last_exit_code="@ + spec_dec_i64(m.last_exit_code as int),
    ] + ((match m.last_commit_sha {
        Some(s) => seq!["last_commit_sha="@ + s],
        None => Seq::empty(),
    }) + spec_pieces_tail(m)))
}

proof fn lemma_clean_digits(s: Seq<char>)
    requires
        forall|i: int| 0 <= i < s.len() ==> is_digit(s[i]),
    ensures
        spec_clean_text(s),
{
    assert forall|i: int| 0 <= i < s.len() implies s[i] != '\n' && s[i] != '\r' by {
        assert(is_digit(s[i]));
        assert('\n' as int == 10 && '\r' as int == 13);
    }
}

proof fn lemma_clean_dec(n: int)
    requires
        n >= 0,
    ensures
        spec_clean_text(spec_dec(n)),
        spec_dec(n).len() > 0,
{
    crate::text::lemma_dec_digits(n);
    lemma_clean_digits(spec_dec(n));
}

proof fn lemma_clean_dec_i64(n: int)
    requires
        i64::MIN <= n <= i64::MAX,
    ensures
        spec_clean_text(spec_dec_i64(n)),
        spec_dec_i64(n).len() > 0,
{
    if n >= 0 {
        lemma_clean_dec(n);
    } else {
        lemma_clean_dec(-n);
        let s = spec_dec_i64(n);
        assert(s == seq!['-'] + spec_dec(-n));
        assert forall|i: int| 0 <= i < s.len() implies s[i] != '\n' && s[i] != '\r' by {
            if i == 0 {
                assert(s[0] == '-');
            } else {
                assert(s[i] == spec_dec(-n)[i - 1]);
            }
        }
    }
}

/// A key-and-value line piece satisfies what `lemma_lines_cons` asks.
proof fn lemma_piece_clean(key: Seq<char>, value: Seq<char>)
    requires
        spec_clean_text(key),
        spec_clean_text(value),
        key.len() > 0,
    ensures
        forall|i: int| 0 <= i < (key + value).len() ==> (key + value)[i] != '\n',
        (key + value).len() == 0 || (key + value)[(key + value).len() - 1] != '\r',
{
    let p = key + value;
    assert forall|i: int| 0 <= i < p.len() implies p[i] != '\n' by {
        if i < key.len() {
            assert(p[i] == key[i]);
        } else {
            assert(p[i] == value[i - key.len()]);
        }
    }
    assert(p.len() > 0);
    let last = p.len() - 1;
    if last < key.len() {
        assert(p[last] == key[last]);
    } else {
        assert(p[last] == value[last - key.len()]);
    }
}

/// One rendered line splits off one piece of the line list.
proof fn lemma_kv_line_cons(key: Seq<char>, value: Seq<char>, rest: Seq<char>)
    requires
        spec_clean_text(key),
        spec_clean_text(value),
        key.len() > 0,
    ensures
        spec_lines(spec_kv_line(key, value) + rest) == seq![key + value] + spec_lines(rest),
{
    lemma_piece_clean(key, value);
    assert(spec_kv_line(key, value) + rest =~= (key + value) + seq!['\n'] + rest);
    lemma_lines_cons(key + value, rest);
}

/// Reading a key's own line yields its value.
proof fn lemma_kv_read(key: Seq<char>, value: Seq<char>)
    ensures
        spec_kv(key + value, key) == Some(value),
{
    let p = key + value;
    assert(spec_match_at(p, 0, key)) by {
        assert forall|k: int| 0 <= k < key.len() implies p[0 + k] == key[k] by {
            assert(p[k] == key[k]);
        }
    }
    assert(p.skip(key.len() as int) =~= value);
}

/// The lines of the rendered tail are exactly the tail pieces.
#[verifier::rlimit(100)]
proof fn lemma_render_lines_tail(m: StateModel)
    requires
        spec_state_clean(m),
    ensures
        spec_lines(spec_render_tail(m)) == spec_pieces_tail(m),
{
    reveal_strlit("started_at=");
    reveal_strlit("total_commits=");
    reveal_strlit("duration=");
    reveal_strlit("finish_type=");
    reveal_strlit("iteration_start=");
    reveal_strlit("iteration_sha=");
    reveal_strlit("manual");
    reveal_strlit("error");
    reveal_strlit("max_iterations");
    reveal_strlit("complete");
    reveal_strlit("no_changes");
    lemma_clean_dec(m.total_commits as int);
    lemma_clean_dec(m.duration as int);
    lemma_clean_dec_i64(m.started_at as int);

    let t9 = spec_opt_text_line("iteration_sha="@, m.iteration_sha);
    let l9 = spec_lines(t9);
    let q9: Seq<Seq<char>> = match m.iteration_sha {
        Some(s) => seq!["iteration_sha="@ + s],
        None => Seq::empty(),
    };
    match m.iteration_sha {
        Some(s) => {
            assert(t9 =~= spec_kv_line("iteration_sha="@, s) + Seq::<char>::empty());
            lemma_kv_line_cons("iteration_sha="@, s, Seq::empty());
            assert(l9 =~= q9);
        },
        None => {
            assert(t9 =~= Seq::<char>::empty());
            assert(l9 =~= q9);
        },
    }
    let t8 = (match m.iteration_start {
        Some(t) => spec_kv_line("iteration_start="@, spec_dec_i64(t as int)),
        None => Seq::<char>::empty(),
    }) + t9;
    let l8 = spec_lines(t8);
    let q8: Seq<Seq<char>> = (match m.iteration_start {
        Some(t) => seq!["iteration_start="@ + spec_dec_i64(t as int)],
        None => Seq::empty(),
    }) + q9;
    match m.iteration_start {
        Some(t) => {
            lemma_clean_dec_i64(t as int);
            lemma_kv_line_cons("iteration_start="@, spec_dec_i64(t as int), t9);
            assert(l8 =~= q8);
        },
        None => {
            assert(t8 =~= t9);
            assert(l8 =~= q8);
        },
    }
    let t7 = (match m.finish_type {
        Some(f) => spec_kv_line("finish_type="@, spec_finish_name(f)),
        None => Seq::<char>::empty(),
    }) + t8;
    let l7 = spec_lines(t7);
    let q7: Seq<Seq<char>> = (match m.finish_type {
        Some(f) => seq!["finish_type="@ + spec_finish_name(f)],
        None => Seq::empty(),
    }) + q8;
    match m.finish_type {
        Some(f) => {
            assert(spec_clean_text(spec_finish_name(f))) by {
                match f {
                    FinishType::Manual => {},
                    FinishType::Error => {},
                    FinishType::MaxIterations => {},
                    FinishType::Complete => {},
                    FinishType::NoChanges => {},
                }
            }
            lemma_kv_line_cons("finish_type="@, spec_finish_name(f), t8);
            assert(l7 =~= q7);
        },
        None => {
            assert(t7 =~= t8);
            assert(l7 =~= q7);
        },
    }
    let t6 = spec_kv_line("duration="@, spec_dec(m.duration as int)) + t7;
    lemma_kv_line_cons("duration="@, spec_dec(m.duration as int), t7);
    let q6 = seq!["duration="@ + spec_dec(m.duration as int)] + q7;
    assert(spec_lines(t6) =~= q6);
    let t5 = spec_kv_line("total_commits="@, spec_dec(m.total_commits as int)) + t6;
    lemma_kv_line_cons("total_commits="@, spec_dec(m.total_commits as int), t6);
    let q5 = seq!["total_commits="@ + spec_dec(m.total_commits as int)] + q6;
    assert(spec_lines(t5) =~= q5);
    let t4 = spec_kv_line("started_at="@, spec_dec_i64(m.started_at as int)) + t5;
    lemma_kv_line_cons("started_at="@, spec_dec_i64(m.started_at as int), t5);
    let q4 = seq!["started_at="@ + spec_dec_i64(m.started_at as int)] + q5;
    assert(spec_lines(t4) =~= q4);
    assert(spec_render_tail(m) =~= t4);
    assert(spec_lines(spec_render_tail(m)) == spec_lines(t4));
    assert(q4 =~= spec_pieces_tail(m));
}

/// The lines of a rendered record are exactly its pieces.
#[verifier::rlimit(100)]
proof fn lemma_render_lines(m: StateModel)
    requires
        spec_state_clean(m),
    ensures
        spec_lines(spec_render_state(m)) == spec_state_pieces(m),
{
    reveal_strlit("iteration=");
    reveal_strlit("last_exit_code=");
    reveal_strlit("last_commit_sha=");
    lemma_clean_dec(m.iteration as int);
    lemma_clean_dec_i64(m.last_exit_code as int);
    lemma_render_lines_tail(m);
    let t4 = spec_render_tail(m);
    let q4 = spec_pieces_tail(m);
    let t3 = spec_opt_text_line("last_commit_sha="@, m.last_commit_sha) + t4;
    let l3 = spec_lines(t3);
    let q3: Seq<Seq<char>> = (match m.last_commit_sha {
        Some(s) => seq!["last_commit_sha="@ + s],
        None => Seq::empty(),
    }) + q4;
    match m.last_commit_sha {
        Some(s) => {
            lemma_kv_line_cons("last_commit_sha="@, s, t4);
            assert(l3 =~= q3);
        },
        None => {
            assert(t3 =~= t4);
            assert(l3 =~= q3);
        },
    }
    let t2 = spec_kv_line("last_exit_code="@, spec_dec_i64(m.last_exit_code as int)) + t3;
    lemma_kv_line_cons("last_exit_code="@, spec_dec_i64(m.last_exit_code as int), t3);
    let q2 = seq!["last_exit_code="@ + spec_dec_i64(m.last_exit_code as int)] + q3;
    assert(spec_lines(t2) =~= q2);
    let t1 = spec_kv_line("iteration="@, spec_dec(m.iteration as int)) + t2;
    lemma_kv_line_cons("iteration="@, spec_dec(m.iteration as int), t2);
    let q1 = seq!["iteration="@ + spec_dec(m.iteration as int)] + q2;
    assert(spec_lines(t1) =~= q1);
    assert(spec_render_state(m) =~= t1);
    assert(spec_lines(spec_render_state(m)) == spec_lines(t1));
    assert(q1 =~= spec_state_pieces(m));
}

} // verus!

verus! {

/// Round trip: parsing a rendered record yields the record back, for
/// every record whose revision texts carry no line breaks.
#[verifier::rlimit(100)]
pub proof fn lemma_state_roundtrip(m: StateModel)
    requires
        spec_state_clean(m),
    ensures
        spec_parse_state(spec_render_state(m)) == Some(m),
{
    reveal_strlit("iteration=");
    reveal_strlit("last_exit_code=");
    reveal_strlit("last_commit_sha=");
    reveal_strlit("started_at=");
    reveal_strlit("total_commits=");
    reveal_strlit("duration=");
    reveal_strlit("finish_type=");
    reveal_strlit("iteration_start=");
    reveal_strlit("iteration_sha=");
    reveal_strlit("manual");
    reveal_strlit("error");
    reveal_strlit("max_iterations");
    reveal_strlit("complete");
    reveal_strlit("no_changes");
    lemma_render_lines(m);
    let ls = spec_state_pieces(m);
    let p1 = "iteration="@ + spec_dec(m.iteration as int);
    let p2 = "last_exit_code="@ + spec_dec_i64(m.last_exit_code as int);
    let p4 = "started_at="@ + spec_dec_i64(m.started_at as int);
    let p5 = "total_commits="@ + spec_dec(m.total_commits as int);
    let p6 = "duration="@ + spec_dec(m.duration as int);
    let opt3: Seq<Seq<char>> = match m.last_commit_sha {
        Some(s) => seq!["last_commit_sha="@ + s],
        None => Seq::empty(),
    };
    let opt7: Seq<Seq<char>> = match m.finish_type {
        Some(f) => seq!["finish_type="@ + spec_finish_name(f)],
        None => Seq::empty(),
    };
    let opt8: Seq<Seq<char>> = match m.iteration_start {
        Some(t) => seq!["iteration_start="@ + spec_dec_i64(t as int)],
        None => Seq::empty(),
    };
    let opt9: Seq<Seq<char>> = match m.iteration_sha {
        Some(s) => seq!["iteration_sha="@ + s],
        None => Seq::empty(),
    };
    assert(ls =~= seq![p1, p2] + opt3 + seq![p4, p5, p6] + opt7 + opt8 + opt9);
    let n3 = opt3.len() as int;
    let n7 = opt7.len() as int;
    let n8 = opt8.len() as int;
    let n9 = opt9.len() as int;
    assert(ls.len() == 5 + n3 + n7 + n8 + n9);

    // iteration
    assert(ls[0] == p1);
    lemma_kv_read("iteration="@, spec_dec(m.iteration as int));
    lemma_u64_dec_roundtrip(m.iteration as u64);
    assert(sp_req_u32(ls, 0, "iteration="@) == Some((m.iteration, 1int)));
    // last exit code
    assert(ls[1] == p2);
    lemma_kv_read("last_exit_code="@, spec_dec_i64(m.last_exit_code as int));
    lemma_i64_dec_roundtrip(m.last_exit_code as i64);
    assert(sp_req_i64(ls, 1, "last_exit_code="@) == Some((m.last_exit_code as i64, 2int)));
    // optional last commit sha
    let c3 = 2 + n3;
    match m.last_commit_sha {
        Some(s) => {
            assert(ls[2] == "last_commit_sha="@ + s);
            lemma_kv_read("last_commit_sha="@, s);
            assert(sp_opt_text(ls, 2, "last_commit_sha="@) == (Some(s), c3));
        },
        None => {
            assert(ls[2] == p4);
            assert(spec_kv(p4, "last_commit_sha="@) is None) by {
                if spec_match_at(p4, 0, "last_commit_sha="@) {
                    assert(p4[0] == "last_commit_sha="@[0]);
                    assert(p4[0] == "started_at="@[0]);
                }
            }
            assert(sp_opt_text(ls, 2, "last_commit_sha="@) == (None::<Seq<char>>, c3));
        },
    }
    // started at
    assert(ls[c3] == p4);
    lemma_kv_read("started_at="@, spec_dec_i64(m.started_at as int));
    lemma_i64_dec_roundtrip(m.started_at);
    assert(sp_req_i64(ls, c3, "started_at="@) == Some((m.started_at, c3 + 1)));
    // total commits
    assert(ls[c3 + 1] == p5);
    lemma_kv_read("total_commits="@, spec_dec(m.total_commits as int));
    lemma_u64_dec_roundtrip(m.total_commits as u64);
    assert(sp_req_u32(ls, c3 + 1, "total_commits="@) == Some((m.total_commits, c3 + 2)));
    // duration
    assert(ls[c3 + 2] == p6);
    lemma_kv_read("duration="@, spec_dec(m.duration as int));
    lemma_u64_dec_roundtrip(m.duration);
    assert(sp_req_u64(ls, c3 + 2, "duration="@) == Some((m.duration, c3 + 3)));
    let c6 = c3 + 3;
    let c7 = c6 + n7;
    // optional finish type
    match m.finish_type {
        Some(f) => {
            assert(ls[c6] == "finish_type="@ + spec_finish_name(f));
            lemma_kv_read("finish_type="@, spec_finish_name(f));
            assert(sp_opt_text(ls, c6, "finish_type="@) == (Some(spec_finish_name(f)), c7));
            assert(spec_finish_of_name(spec_finish_name(f)) == Some(f)) by {
                assert("manual"@.len() == 6);
                assert("error"@.len() == 5);
                assert("max_iterations"@.len() == 14);
                assert("complete"@.len() == 8);
                assert("no_changes"@.len() == 10);
            }
        },
        None => {
            if c6 < ls.len() {
                let line = ls[c6];
                assert(spec_kv(line, "finish_type="@) is None) by {
                    if n8 == 1 {
                        assert(line == opt8[0]);
                        assert(line[0] == "iteration_start="@[0]);
                    } else {
                        assert(line == opt9[0]);
                        assert(line[0] == "iteration_sha="@[0]);
                    }
                    if spec_match_at(line, 0, "finish_type="@) {
                        assert(line[0] == "finish_type="@[0]);
                    }
                }
            }
            assert(sp_opt_text(ls, c6, "finish_type="@) == (None::<Seq<char>>, c7));
        },
    }
    let c8 = c7 + n8;
    // optional iteration start
    match m.iteration_start {
        Some(t) => {
            assert(ls[c7] == "iteration_start="@ + spec_dec_i64(t as int));
            lemma_kv_read("iteration_start="@, spec_dec_i64(t as int));
            lemma_i64_dec_roundtrip(t);
            assert(sp_opt_text(ls, c7, "iteration_start="@) == (
                Some(spec_dec_i64(t as int)),
                c8,
            ));
        },
        None => {
            if c7 < ls.len() {
                let line = ls[c7];
                assert(line == opt9[0]);
                assert(spec_kv(line, "iteration_start="@) is None) by {
                    match m.iteration_sha {
                        Some(s) => {
                            assert(line == "iteration_sha="@ + s);
                            assert(line[11] == "iteration_sha="@[11]);
                            if spec_match_at(line, 0, "iteration_start="@) {
                                assert(line[11int] == "iteration_start="@[11]);
                            }
                        },
                        None => {},
                    }
                }
            }
            assert(sp_opt_text(ls, c7, "iteration_start="@) == (None::<Seq<char>>, c8));
        },
    }
    let c9 = c8 + n9;
    // optional iteration sha
    match m.iteration_sha {
        Some(s) => {
            assert(ls[c8] == "iteration_sha="@ + s);
            lemma_kv_read("iteration_sha="@, s);
            assert(sp_opt_text(ls, c8, "iteration_sha="@) == (Some(s), c9));
        },
        None => {
            assert(c8 == ls.len());
            assert(sp_opt_text(ls, c8, "iteration_sha="@) == (None::<Seq<char>>, c9));
        },
    }
    assert(c9 == ls.len());
    assert(spec_parse_state_lines(ls) == Some(m));
}

} // verus!
