use vstd::prelude::*;

use std::collections::HashMap;

use crate::classify::{
    analyze_line, entry_start, is_entry_start, spec_analyze, MatchResult, MatchResultView,
};
use crate::fingerprint::{hash_query, spec_fingerprint};
use crate::text::{chars_of, normalize_spaces, strip_spaces};

verus! {

/// One record of output: a process id, the duration text exactly as it
/// appeared in the log, the fingerprint of the statement text, and the
/// reconstructed statement text itself.
pub struct OutputRecord {
    pub pid: i32,
    pub duration: String,
    pub fingerprint: u64,
    pub query: String,
}

/// Mathematical counterpart of `OutputRecord`.
pub struct RecordView {
    pub pid: i32,
    pub duration: Seq<char>,
    pub fingerprint: u64,
    pub query: Seq<char>,
}

impl View for OutputRecord {
    type V = RecordView;

    open spec fn view(&self) -> RecordView {
        RecordView {
            pid: self.pid,
            duration: self.duration@,
            fingerprint: self.fingerprint,
            query: self.query@,
        }
    }
}

/// The scanner state: either idle, holding only the map from process id to
/// its finalized statement awaiting a duration; or mid-statement, also
/// holding the fragments gathered so far and the id they belong to.
pub enum CrunchState {
    Scanning(HashMap<i32, String>),
    CurrentQuery(Vec<String>, i32, HashMap<i32, String>),
}

/// Mathematical counterpart of `CrunchState`, with the map and the fragment
/// buffer as their mathematical values.
pub enum ScanView {
    Scanning { pending: Map<i32, Seq<char>> },
    CurrentQuery { parts: Seq<Seq<char>>, pid: i32, pending: Map<i32, Seq<char>> },
}

/// The statement texts held by a map from process id to statement string.
pub open spec fn text_map(m: Map<i32, String>) -> Map<i32, Seq<char>> {
    m.map_values(|s: String| s@)
}

pub open spec fn texts_of(parts: Seq<String>) -> Seq<Seq<char>> {
    parts.map_values(|s: String| s@)
}

impl View for CrunchState {
    type V = ScanView;

    open spec fn view(&self) -> ScanView {
        match self {
            CrunchState::Scanning(m) => ScanView::Scanning { pending: text_map(m@) },
            CrunchState::CurrentQuery(parts, pid, m) => ScanView::CurrentQuery {
                parts: texts_of(parts@),
                pid: *pid,
                pending: text_map(m@),
            },
        }
    }
}

/// The concatenation of the fragments of a statement, in order, with no
/// separator between them.
pub open spec fn concat_parts(parts: Seq<Seq<char>>) -> Seq<char>
    decreases parts.len(),
{
    if parts.len() == 0 {
        Seq::empty()
    } else {
        parts[0] + concat_parts(parts.drop_first())
    }
}

/// One step of the scanner while idle: a statement start opens a fragment
/// buffer; a duration report for a process with a pending statement emits
/// the record for that pairing and consumes the entry; anything else changes
/// nothing.
pub open spec fn step_scanning(pending: Map<i32, Seq<char>>, l: Seq<char>) -> (ScanView, Option<
    RecordView,
>) {
    match spec_analyze(l) {
        MatchResultView::Ignore => (ScanView::Scanning { pending }, None),
        MatchResultView::QueryStart(pid, frag) => (
            ScanView::CurrentQuery { parts: seq![frag], pid, pending },
            None,
        ),
        MatchResultView::Duration(pid, dur) => {
            if pending.contains_key(pid) {
                (
                    ScanView::Scanning { pending: pending.remove(pid) },
                    Some(
                        RecordView {
                            pid,
                            duration: dur,
                            fingerprint: spec_fingerprint(pending[pid]),
                            query: pending[pid],
                        },
                    ),
                )
            } else {
                (ScanView::Scanning { pending }, None)
            }
        },
    }
}

/// One step of the scanner.  Mid-statement, a line that does not open a new
/// log entry is appended, normalized, to the fragment buffer; a line that
/// does finalizes the buffered statement into the map and is then handled
/// against the idle state.
pub open spec fn spec_step(s: ScanView, l: Seq<char>) -> (ScanView, Option<RecordView>) {
    match s {
        ScanView::Scanning { pending } => step_scanning(pending, l),
        ScanView::CurrentQuery { parts, pid, pending } => {
            if !is_entry_start(l) {
                (
                    ScanView::CurrentQuery { parts: parts.push(normalize_spaces(l)), pid, pending },
                    None,
                )
            } else {
                step_scanning(pending.insert(pid, concat_parts(parts)), l)
            }
        },
    }
}

/// The state after consuming a sequence of lines, one step per line.
pub open spec fn run_lines(s: ScanView, ls: Seq<Seq<char>>) -> ScanView
    decreases ls.len(),
{
    if ls.len() == 0 {
        s
    } else {
        run_lines(spec_step(s, ls[0]).0, ls.drop_first())
    }
}

/// Well-formedness of the scanner state: mid-statement, the fragment buffer
/// is never empty.
pub open spec fn wf_state(s: ScanView) -> bool {
    match s {
        ScanView::Scanning { .. } => true,
        ScanView::CurrentQuery { parts, .. } => parts.len() >= 1,
    }
}

/// Every reachable state is well-formed: the initial state is, and one step
/// from a well-formed state yields a well-formed state.
pub proof fn lemma_step_preserves_wf(s: ScanView, l: Seq<char>)
    requires
        wf_state(s),
    ensures
        wf_state(spec_step(s, l).0),
{
}

/// While idle, a line that does not open a new log entry leaves the state
/// unchanged and emits nothing.
pub proof fn lemma_idle_ignores_non_entry(pending: Map<i32, Seq<char>>, l: Seq<char>)
    requires
        !is_entry_start(l),
    ensures
        spec_step(ScanView::Scanning { pending }, l) == (
            ScanView::Scanning { pending },
            None::<RecordView>,
        ),
{
}

/// Mid-statement, consuming any number of lines that do not open a new log
/// entry appends exactly their whitespace-normalized texts to the fragment
/// buffer, in order, and touches nothing else.
pub proof fn lemma_continuations_accumulate(
    parts: Seq<Seq<char>>,
    pid: i32,
    pending: Map<i32, Seq<char>>,
    ls: Seq<Seq<char>>,
)
    requires
        forall|i: int| 0 <= i < ls.len() ==> !is_entry_start(ls[i]),
    ensures
        run_lines(ScanView::CurrentQuery { parts, pid, pending }, ls) == (
        ScanView::CurrentQuery {
            parts: parts + ls.map_values(|l: Seq<char>| normalize_spaces(l)),
            pid,
            pending,
        }),
    decreases ls.len(),
{
    let normed = ls.map_values(|l: Seq<char>| normalize_spaces(l));
    if ls.len() == 0 {
        assert(parts + normed =~= parts);
    } else {
        let s1 = spec_step(ScanView::CurrentQuery { parts, pid, pending }, ls[0]).0;
        assert(s1 == (ScanView::CurrentQuery {
            parts: parts.push(normalize_spaces(ls[0])),
            pid,
            pending,
        }));
        lemma_continuations_accumulate(
            parts.push(normalize_spaces(ls[0])),
            pid,
            pending,
            ls.drop_first(),
        );
        assert(parts.push(normalize_spaces(ls[0])) + ls.drop_first().map_values(
            |l: Seq<char>| normalize_spaces(l),
        ) =~= parts + normed);
    }
}

/// A statement gathered from a start fragment and any number of continuation
/// lines reassembles, when the next entry boundary arrives, into exactly the
/// concatenation of the whitespace-normalized fragments in order, with no
/// separator inserted; the boundary line itself is then handled against the
/// idle state whose map holds that reassembled statement.
pub proof fn lemma_multiline_statement_reassembles(
    pending: Map<i32, Seq<char>>,
    start: Seq<char>,
    pid: i32,
    frag: Seq<char>,
    ls: Seq<Seq<char>>,
    boundary: Seq<char>,
)
    requires
        spec_analyze(start) == MatchResultView::QueryStart(pid, frag),
        forall|i: int| 0 <= i < ls.len() ==> !is_entry_start(ls[i]),
        is_entry_start(boundary),
    ensures
        ({
            let mid = run_lines(spec_step(ScanView::Scanning { pending }, start).0, ls);
            let full = frag + concat_parts(ls.map_values(|l: Seq<char>| normalize_spaces(l)));
            spec_step(mid, boundary) == step_scanning(pending.insert(pid, full), boundary)
        }),
{
    let normed = ls.map_values(|l: Seq<char>| normalize_spaces(l));
    lemma_continuations_accumulate(seq![frag], pid, pending, ls);
    let gathered = seq![frag] + normed;
    assert(gathered.drop_first() =~= normed);
    assert(concat_parts(gathered) == frag + concat_parts(normed));
}

/// A duration line whose process id has a pending statement emits exactly
/// one record, holding that statement's text, its fingerprint and the
/// duration text as reported; the entry is consumed, so the same duration
/// line a second time emits nothing.
pub proof fn lemma_duration_emits_record(
    pending: Map<i32, Seq<char>>,
    l: Seq<char>,
    pid: i32,
    dur: Seq<char>,
)
    requires
        spec_analyze(l) == MatchResultView::Duration(pid, dur),
        pending.contains_key(pid),
    ensures
        spec_step(ScanView::Scanning { pending }, l) == (
            ScanView::Scanning { pending: pending.remove(pid) },
            Some(
                RecordView {
                    pid,
                    duration: dur,
                    fingerprint: spec_fingerprint(pending[pid]),
                    query: pending[pid],
                },
            ),
        ),
        spec_step(ScanView::Scanning { pending: pending.remove(pid) }, l).1 is None,
{
}

/// A duration line whose process id has no pending statement emits nothing
/// and leaves the map unchanged.
pub proof fn lemma_dangling_duration(
    pending: Map<i32, Seq<char>>,
    l: Seq<char>,
    pid: i32,
    dur: Seq<char>,
)
    requires
        spec_analyze(l) == MatchResultView::Duration(pid, dur),
        !pending.contains_key(pid),
    ensures
        spec_step(ScanView::Scanning { pending }, l) == (
            ScanView::Scanning { pending },
            None::<RecordView>,
        ),
{
}

/// Joins the gathered fragments into the full statement text.
fn join_parts(parts: &Vec<String>) -> (r: String)
    ensures
        r@ == concat_parts(texts_of(parts@)),
{
    let mut out = String::new();
    let mut i: usize = 0;
    proof {
        assert(texts_of(parts@).skip(0) =~= texts_of(parts@));
        assert(out@ + concat_parts(texts_of(parts@)) =~= concat_parts(texts_of(parts@)));
    }
    while i < parts.len()
        invariant
            i <= parts.len(),
            out@ + concat_parts(texts_of(parts@).skip(i as int)) == concat_parts(texts_of(parts@)),
        decreases parts.len() - i,
    {
        proof {
            assert(texts_of(parts@).skip(i as int)[0] == parts@[i as int]@);
            assert(texts_of(parts@).skip(i as int).drop_first() =~= texts_of(parts@).skip(
                i as int + 1,
            ));
        }
        out.append(parts[i].as_str());
        proof {
            assert(out@ + concat_parts(texts_of(parts@).skip(i as int + 1)) =~= concat_parts(
                texts_of(parts@),
            ));
        }
        i = i + 1;
    }
    proof {
        assert(texts_of(parts@).skip(parts@.len() as int) =~= Seq::<Seq<char>>::empty());
        assert(out@ =~= concat_parts(texts_of(parts@)));
    }
    out
}

/// Handles one line while idle.
fn process_scanning(pid_to_query: HashMap<i32, String>, line: String) -> (r: (
    CrunchState,
    Option<OutputRecord>,
))
    ensures
        r.0@ == step_scanning(text_map(pid_to_query@), line@).0,
        match r.1 {
            Some(rec) => step_scanning(text_map(pid_to_query@), line@).1 == Some(rec@),
            None => step_scanning(text_map(pid_to_query@), line@).1 is None,
        },
{
    broadcast use vstd::std_specs::hash::group_hash_axioms;

    match analyze_line(line.as_str()) {
        MatchResult::Ignore => (CrunchState::Scanning(pid_to_query), None),
        MatchResult::QueryStart(pid, query_begin) => {
            let mut query_parts: Vec<String> = Vec::new();
            query_parts.push(query_begin);
            proof {
                assert(texts_of(query_parts@) =~= seq![
                    spec_analyze(line@)->QueryStart_1,
                ]);
            }
            (CrunchState::CurrentQuery(query_parts, pid, pid_to_query), None)
        },
        MatchResult::Duration(pid, duration) => {
            let ghost pending0 = text_map(pid_to_query@);
            let mut m = pid_to_query;
            let removed = m.remove(&pid);
            proof {
                assert(text_map(m@) =~= pending0.remove(pid));
                if removed is Some {
                    assert(pending0[pid] == removed->0@);
                }
            }
            match removed {
                Some(full_query) => {
                    let qhash = hash_query(full_query.as_str());
                    let rec = OutputRecord {
                        pid,
                        duration,
                        fingerprint: qhash,
                        query: full_query,
                    };
                    (CrunchState::Scanning(m), Some(rec))
                },
                None => {
                    proof {
                        assert(pending0.remove(pid) =~= pending0);
                    }
                    (CrunchState::Scanning(m), None)
                },
            }
        },
    }
}

impl CrunchState {
    /// A fresh scanner: idle, with nothing pending.
    pub fn new() -> (r: CrunchState)
        ensures
            r@ == (ScanView::Scanning { pending: Map::<i32, Seq<char>>::empty() }),
    {
        let m: HashMap<i32, String> = HashMap::new();
        proof {
            assert(text_map(m@) =~= Map::<i32, Seq<char>>::empty());
        }
        CrunchState::Scanning(m)
    }

    /// Consumes one log line, returning the next state and the record the
    /// line completed, if any.
    pub fn process_line(self, line: String) -> (r: (CrunchState, Option<OutputRecord>))
        ensures
            r.0@ == spec_step(self@, line@).0,
            match r.1 {
                Some(rec) => spec_step(self@, line@).1 == Some(rec@),
                None => spec_step(self@, line@).1 is None,
            },
    {
        match self {
            CrunchState::Scanning(pid_to_query) => process_scanning(pid_to_query, line),
            CrunchState::CurrentQuery(mut query_parts, pid, pid_to_query) => {
                let ghost parts0 = texts_of(query_parts@);
                let cs = chars_of(line.as_str());
                if !entry_start(&cs) {
                    let stripped = strip_spaces(line.as_str());
                    query_parts.push(stripped);
                    proof {
                        assert(texts_of(query_parts@) =~= parts0.push(normalize_spaces(line@)));
                    }
                    (CrunchState::CurrentQuery(query_parts, pid, pid_to_query), None)
                } else {
                    broadcast use vstd::std_specs::hash::group_hash_axioms;

                    let ghost pending0 = text_map(pid_to_query@);
                    let full_query = join_parts(&query_parts);
                    let mut m = pid_to_query;
                    m.insert(pid, full_query);
                    proof {
                        assert(text_map(m@) =~= pending0.insert(pid, concat_parts(parts0)));
                    }
                    process_scanning(m, line)
                }
            },
        }
    }
}

} // verus!
