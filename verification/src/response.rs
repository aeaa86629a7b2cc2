//! The command outcome record and the status-channel decoder.
//!
//! A `CmdResult` aggregates everything observed about one engine
//! invocation: the drained raw output, the last status event, the
//! structured problem list, the diagnostic log, the exit code and the
//! success classification.  The status decoder updates it one status
//! event at a time.

use vstd::prelude::*;

use crate::enums::Operation;
use crate::text::{
    contains_seq, contains_str, is_blank_char, is_prefix_of, rest_of, split_char,
    split_first_blank, split_on, starts_with, str_eq, token_of, views_of,
};

verus! {

/// One adverse status event, recorded as structured data.
#[derive(Debug)]
pub enum Problem {
    /// A `BADSIG` event: the fixed label plus the signer's key id and
    /// user id taken from the payload.
    BadSignature { status: String, key_id: String, username: String },
    /// A `DELETE_PROBLEM` event, with the payload mapped through the
    /// delete-problem code table.
    Delete { message: String },
    /// An `UNKNOWN_KEYWORD` event, payload recorded verbatim.
    UnknownKeyword { value: String },
    /// A `NO_PASSPHRASE` event, payload recorded verbatim.
    NoPassphrase { value: String },
    /// An `INVALID_FINGERPRINT` event, payload recorded verbatim.
    InvalidFingerprint { value: String },
    /// A `BAD_PASSPHRASE` event, payload recorded verbatim.
    BadPassphrase { value: String },
}

/// The mathematical value of a `Problem`.
pub enum ProblemV {
    BadSignature { status: Seq<char>, key_id: Seq<char>, username: Seq<char> },
    Delete { message: Seq<char> },
    UnknownKeyword { value: Seq<char> },
    NoPassphrase { value: Seq<char> },
    InvalidFingerprint { value: Seq<char> },
    BadPassphrase { value: Seq<char> },
}

impl View for Problem {
    type V = ProblemV;

    open spec fn view(&self) -> ProblemV {
        match self {
            Problem::BadSignature { status, key_id, username } => ProblemV::BadSignature {
                status: status@,
                key_id: key_id@,
                username: username@,
            },
            Problem::Delete { message } => ProblemV::Delete { message: message@ },
            Problem::UnknownKeyword { value } => ProblemV::UnknownKeyword { value: value@ },
            Problem::NoPassphrase { value } => ProblemV::NoPassphrase { value: value@ },
            Problem::InvalidFingerprint { value } => ProblemV::InvalidFingerprint {
                value: value@,
            },
            Problem::BadPassphrase { value } => ProblemV::BadPassphrase { value: value@ },
        }
    }
}

/// The result of one engine invocation.
#[derive(Debug)]
pub struct CmdResult {
    /// Concatenation of everything read from the output and status
    /// streams; `None` until the first append.
    pub raw_data: Option<String>,
    /// The child's exit code, set once after it terminates.
    pub return_code: Option<i32>,
    /// Keyword of the most recent status event (last write wins).
    pub status: Option<String>,
    /// Payload of the most recent status event (last write wins).
    pub status_message: Option<String>,
    /// Which high-level command produced this outcome.
    pub operation: Operation,
    /// Diagnostic lines not recognized as status events.
    pub debug_log: Option<Vec<String>>,
    /// Structured records of adverse status events, in arrival order.
    pub problem: Option<Vec<Problem>>,
    /// The pass/fail classification; `true` until a negative keyword.
    pub success: bool,
}

/// The mathematical value of a `CmdResult`.
pub struct CmdResultV {
    pub raw_data: Option<Seq<char>>,
    pub return_code: Option<int>,
    pub status: Option<Seq<char>>,
    pub status_message: Option<Seq<char>>,
    pub operation: Operation,
    pub debug_log: Option<Seq<Seq<char>>>,
    pub problem: Option<Seq<ProblemV>>,
    pub success: bool,
}

/// The view of an optional string.
pub open spec fn opt_str_view(o: Option<String>) -> Option<Seq<char>> {
    match o {
        Option::None => Option::None,
        Option::Some(s) => Option::Some(s@),
    }
}

/// The view of an optional list of strings.
pub open spec fn opt_strs_view(o: Option<Vec<String>>) -> Option<Seq<Seq<char>>> {
    match o {
        Option::None => Option::None,
        Option::Some(v) => Option::Some(views_of(v@)),
    }
}

/// The view of an optional problem list.
pub open spec fn opt_problems_view(o: Option<Vec<Problem>>) -> Option<Seq<ProblemV>> {
    match o {
        Option::None => Option::None,
        Option::Some(v) => Option::Some(v@.map_values(|p: Problem| p@)),
    }
}

impl View for CmdResult {
    type V = CmdResultV;

    open spec fn view(&self) -> CmdResultV {
        CmdResultV {
            raw_data: opt_str_view(self.raw_data),
            return_code: match self.return_code {
                Option::None => Option::None,
                Option::Some(c) => Option::Some(c as int),
            },
            status: opt_str_view(self.status),
            status_message: opt_str_view(self.status_message),
            operation: self.operation,
            debug_log: opt_strs_view(self.debug_log),
            problem: opt_problems_view(self.problem),
            success: self.success,
        }
    }
}

/// The value of a freshly created outcome for operation `ops`.
pub open spec fn init_result(ops: Operation) -> CmdResultV {
    CmdResultV {
        raw_data: Option::None,
        return_code: Option::None,
        status: Option::None,
        status_message: Option::None,
        operation: ops,
        debug_log: Option::None,
        problem: Option::None,
        success: true,
    }
}

/// Appending drained bytes to the raw output.
pub open spec fn raw_append(pre: CmdResultV, data: Seq<char>) -> CmdResultV {
    CmdResultV {
        raw_data: match pre.raw_data {
            Option::None => Option::Some(data),
            Option::Some(r) => Option::Some(r + data),
        },
        ..pre
    }
}

/// Appending one entry to the diagnostic log.
pub open spec fn debug_append(pre: CmdResultV, entry: Seq<char>) -> CmdResultV {
    CmdResultV {
        debug_log: match pre.debug_log {
            Option::None => Option::Some(seq![entry]),
            Option::Some(d) => Option::Some(d.push(entry)),
        },
        ..pre
    }
}

/// Appending one record to the problem list.
pub open spec fn problems_push(p: Option<Seq<ProblemV>>, x: ProblemV) -> Option<Seq<ProblemV>> {
    match p {
        Option::None => Option::Some(seq![x]),
        Option::Some(ps) => Option::Some(ps.push(x)),
    }
}

/// The length of the raw output accumulated so far.
pub open spec fn raw_len(v: CmdResultV) -> nat {
    match v.raw_data {
        Option::None => 0,
        Option::Some(r) => r.len(),
    }
}

/// The raw output contains `needle` (an absent raw output contains
/// nothing).
pub open spec fn raw_contains(raw: Option<Seq<char>>, needle: Seq<char>) -> bool {
    match raw {
        Option::None => false,
        Option::Some(r) => contains_seq(r, needle),
    }
}

/// The substring of the raw output that announces that a secret-key
/// export produced nothing.
pub open spec fn nothing_exported_marker() -> Seq<char> {
    "WARNING: nothing exported"@
}

/// The substring of the raw output that announces that no valid input
/// data was found.
pub open spec fn no_valid_data_marker() -> Seq<char> {
    "no valid OpenPGP data found"@
}

/// The message recorded for a `DELETE_PROBLEM` payload: the fixed code
/// table for codes 1 to 4, a generic message otherwise.
pub open spec fn delete_problem_of_payload(value: Seq<char>) -> Seq<char> {
    if value == "1"@ {
        "No Such Key"@
    } else if value == "2"@ {
        "Must delete secret key first"@
    } else if value == "3"@ {
        "Ambiguous specification"@
    } else if value == "4"@ {
        "Key is stored on a smartcard."@
    } else {
        "Unknown error: "@ + value
    }
}

/// The success classification after a `FAILURE` keyword: for the
/// secret-key-export operation it is derived from the raw output, for
/// every other operation it is `false`.
pub open spec fn failure_success(op: Operation, raw: Option<Seq<char>>) -> bool {
    if op == Operation::ExportSecretKey {
        !raw_contains(raw, nothing_exported_marker())
    } else {
        false
    }
}

/// The outcome after one status event `(kw, value)`.  The keyword and
/// payload are always recorded as the most recent status; the
/// recognized negative keywords additionally update the success flag
/// and the problem list.
pub open spec fn status_effect(pre: CmdResultV, kw: Seq<char>, value: Seq<char>) -> CmdResultV {
    let base = CmdResultV {
        status: Option::Some(kw),
        status_message: Option::Some(value),
        ..pre
    };
    if kw == "FAILURE"@ {
        CmdResultV { success: failure_success(pre.operation, pre.raw_data), ..base }
    } else if kw == "BADSIG"@ {
        CmdResultV {
            success: false,
            status: Option::Some("bad signature"@),
            problem: problems_push(
                pre.problem,
                ProblemV::BadSignature {
                    status: "bad signature"@,
                    key_id: token_of(value),
                    username: rest_of(value),
                },
            ),
            ..base
        }
    } else if kw == "NODATA"@ {
        CmdResultV {
            success: if raw_contains(pre.raw_data, no_valid_data_marker()) {
                false
            } else {
                pre.success
            },
            ..base
        }
    } else if kw == "DELETE_PROBLEM"@ {
        CmdResultV {
            success: false,
            problem: problems_push(
                pre.problem,
                ProblemV::Delete { message: delete_problem_of_payload(value) },
            ),
            ..base
        }
    } else if kw == "UNKNOWN_KEYWORD"@ {
        CmdResultV {
            success: false,
            problem: problems_push(pre.problem, ProblemV::UnknownKeyword { value }),
            ..base
        }
    } else if kw == "NO_PASSPHRASE"@ {
        CmdResultV {
            success: false,
            problem: problems_push(pre.problem, ProblemV::NoPassphrase { value }),
            ..base
        }
    } else if kw == "INVALID_FINGERPRINT"@ {
        CmdResultV {
            success: false,
            problem: problems_push(pre.problem, ProblemV::InvalidFingerprint { value }),
            ..base
        }
    } else if kw == "BAD_PASSPHRASE"@ {
        CmdResultV {
            success: false,
            problem: problems_push(pre.problem, ProblemV::BadPassphrase { value }),
            ..base
        }
    } else {
        base
    }
}

/// Append one problem record to the (lazily created) problem list.
fn push_problem(slot: &mut Option<Vec<Problem>>, p: Problem)
    ensures
        opt_problems_view(*final(slot)) == problems_push(opt_problems_view(*old(slot)), p@),
{
    let ghost pv = p@;
    match slot.take() {
        Option::None => {
            let mut v: Vec<Problem> = Vec::new();
            v.push(p);
            proof {
                assert(v@.map_values(|q: Problem| q@) =~= seq![pv]);
            }
            *slot = Option::Some(v);
        },
        Option::Some(mut v) => {
            let ghost old_views = v@.map_values(|q: Problem| q@);
            v.push(p);
            proof {
                assert(v@.map_values(|q: Problem| q@) =~= old_views.push(pv));
            }
            *slot = Option::Some(v);
        },
    }
}

/// The fixed prefix that marks a machine-readable status event.
pub open spec fn status_marker() -> Seq<char> {
    "[GNUPG:] "@
}

/// The prefix of the engine's plain diagnostic lines.
pub open spec fn debug_marker() -> Seq<char> {
    "gpg: "@
}

/// The outcome after one line of the status stream: a status event for
/// marker lines, a diagnostic entry for `gpg: ` lines, no change
/// otherwise.
pub open spec fn response_line_effect(pre: CmdResultV, line: Seq<char>) -> CmdResultV {
    if is_prefix_of(status_marker(), line) {
        let rem = line.skip(status_marker().len() as int);
        status_effect(pre, token_of(rem), rest_of(rem))
    } else if is_prefix_of(debug_marker(), line) {
        debug_append(pre, line.skip(debug_marker().len() as int))
    } else {
        pre
    }
}

/// The outcome after a sequence of status-stream lines, oldest first.
pub open spec fn response_lines_effect(pre: CmdResultV, lines: Seq<Seq<char>>) -> CmdResultV
    decreases lines.len(),
{
    if lines.len() == 0 {
        pre
    } else {
        response_lines_effect(response_line_effect(pre, lines[0]), lines.drop_first())
    }
}

/// The outcome after draining the whole status stream `data`: the bytes
/// join the raw output, then every line is decoded in order.
pub open spec fn response_data_effect(pre: CmdResultV, data: Seq<char>) -> CmdResultV {
    response_lines_effect(raw_append(pre, data), split_on(data, '\n'))
}

proof fn lemma_lines_effect_snoc(pre: CmdResultV, lines: Seq<Seq<char>>, i: int)
    requires
        0 <= i < lines.len(),
    ensures
        response_lines_effect(pre, lines.take(i + 1)) == response_line_effect(
            response_lines_effect(pre, lines.take(i)),
            lines[i],
        ),
    decreases i,
{
    if i == 0 {
        let pre1 = response_line_effect(pre, lines[0]);
        let single = seq![lines[0]];
        assert(lines.take(0) =~= Seq::<Seq<char>>::empty());
        assert(lines.take(1) =~= single);
        assert(response_lines_effect(pre, lines.take(0)) == pre);
        assert(single.len() == 1 && single[0] == lines[0]);
        assert(single.drop_first() =~= Seq::<Seq<char>>::empty());
        assert(response_lines_effect(pre, single) == response_lines_effect(
            pre1,
            single.drop_first(),
        ));
        assert(response_lines_effect(pre1, single.drop_first()) == pre1);
    } else {
        let pre1 = response_line_effect(pre, lines[0]);
        let tail = lines.drop_first();
        lemma_lines_effect_snoc(pre1, tail, i - 1);
        assert(response_lines_effect(pre, lines.take(i + 1)) == response_lines_effect(
            pre1,
            tail.take(i),
        )) by {
            assert(lines.take(i + 1)[0] == lines[0]);
            assert(lines.take(i + 1).drop_first() =~= tail.take(i));
        }
        assert(response_lines_effect(pre, lines.take(i)) == response_lines_effect(
            pre1,
            tail.take(i - 1),
        )) by {
            assert(lines.take(i)[0] == lines[0]);
            assert(lines.take(i).drop_first() =~= tail.take(i - 1));
        }
        assert(tail[i - 1] == lines[i]);
    }
}

/// Round trip of the status-channel split: a line assembled as marker,
/// keyword (free of blank characters), one space and a payload decodes
/// back to exactly that keyword and payload.
pub proof fn lemma_status_line_round_trip(pre: CmdResultV, kw: Seq<char>, payload: Seq<char>)
    requires
        forall|j: int| 0 <= j < kw.len() ==> !is_blank_char(kw[j]),
    ensures
        response_line_effect(pre, status_marker() + kw + seq![' '] + payload) == status_effect(
            pre,
            kw,
            payload,
        ),
{
    reveal_strlit("[GNUPG:] ");
    let line = status_marker() + kw + seq![' '] + payload;
    assert(is_prefix_of(status_marker(), line)) by {
        assert(line.subrange(0, 9) =~= status_marker());
    }
    let rem = line.skip(9);
    assert(rem =~= kw + seq![' '] + payload);
    crate::text::lemma_split_point(rem, kw.len() as int);
    assert(rem.subrange(0, kw.len() as int) =~= kw);
    assert(rem.subrange(kw.len() as int + 1, rem.len() as int) =~= payload);
}

/// The `FAILURE` classification rule: outside the secret-key-export
/// operation a `FAILURE` event always forces `success == false`; for
/// that operation the event yields success exactly when the raw output
/// does not announce that nothing was exported.
pub proof fn lemma_failure_rule(pre: CmdResultV, value: Seq<char>)
    ensures
        status_effect(pre, "FAILURE"@, value).success == failure_success(
            pre.operation,
            pre.raw_data,
        ),
        pre.operation != Operation::ExportSecretKey ==> !status_effect(
            pre,
            "FAILURE"@,
            value,
        ).success,
        pre.operation == Operation::ExportSecretKey ==> (status_effect(
            pre,
            "FAILURE"@,
            value,
        ).success <==> !raw_contains(pre.raw_data, nothing_exported_marker())),
{
}

/// Order independence of the concurrent drains: whichever of two
/// drained chunks is appended first, the raw output grows by exactly
/// the sum of their lengths, and no other field changes.
pub proof fn lemma_drain_order_independent(pre: CmdResultV, a: Seq<char>, b: Seq<char>)
    ensures
        raw_len(raw_append(raw_append(pre, a), b)) == raw_len(pre) + a.len() + b.len(),
        raw_len(raw_append(raw_append(pre, b), a)) == raw_len(pre) + a.len() + b.len(),
        raw_append(raw_append(pre, a), b).success == pre.success,
        raw_append(raw_append(pre, b), a).success == pre.success,
{
}

proof fn lemma_status_events_preserve_raw(pre: CmdResultV, lines: Seq<Seq<char>>)
    ensures
        response_lines_effect(pre, lines).raw_data == pre.raw_data,
    decreases lines.len(),
{
    if lines.len() > 0 {
        assert(response_line_effect(pre, lines[0]).raw_data == pre.raw_data);
        lemma_status_events_preserve_raw(response_line_effect(pre, lines[0]), lines.drop_first());
    }
}

/// The drain totals: whether the primary output chunk lands before or
/// after the status stream is decoded, the final raw output holds
/// exactly the output's bytes plus the status stream's bytes on top
/// of what was there — decoding status events adds nothing to it.
pub proof fn lemma_drain_totals(pre: CmdResultV, output: Seq<char>, status_data: Seq<char>)
    ensures
        raw_len(response_data_effect(raw_append(pre, output), status_data)) == raw_len(pre)
            + output.len() + status_data.len(),
        raw_len(raw_append(response_data_effect(pre, status_data), output)) == raw_len(pre)
            + output.len() + status_data.len(),
{
    lemma_status_events_preserve_raw(
        raw_append(raw_append(pre, output), status_data),
        split_on(status_data, '\n'),
    );
    lemma_status_events_preserve_raw(raw_append(pre, status_data), split_on(status_data, '\n'));
}

impl Clone for Problem {
    fn clone(&self) -> (res: Self)
        ensures
            res@ == self@,
    {
        match self {
            Problem::BadSignature { status, key_id, username } => Problem::BadSignature {
                status: status.clone(),
                key_id: key_id.clone(),
                username: username.clone(),
            },
            Problem::Delete { message } => Problem::Delete { message: message.clone() },
            Problem::UnknownKeyword { value } => Problem::UnknownKeyword {
                value: value.clone(),
            },
            Problem::NoPassphrase { value } => Problem::NoPassphrase { value: value.clone() },
            Problem::InvalidFingerprint { value } => Problem::InvalidFingerprint {
                value: value.clone(),
            },
            Problem::BadPassphrase { value } => Problem::BadPassphrase {
                value: value.clone(),
            },
        }
    }
}

/// Copy of an optional string, by view.
fn clone_opt_string(o: &Option<String>) -> (r: Option<String>)
    ensures
        opt_str_view(r) == opt_str_view(*o),
{
    match o {
        Option::None => Option::None,
        Option::Some(s) => Option::Some(s.clone()),
    }
}

/// Copy of a string list, by view.
fn clone_vec_string(v: &Vec<String>) -> (r: Vec<String>)
    ensures
        views_of(r@) == views_of(v@),
{
    let mut r: Vec<String> = Vec::new();
    let mut i: usize = 0;
    while i < v.len()
        invariant
            i <= v@.len(),
            r@.len() == i,
            forall|j: int| 0 <= j < i ==> r@[j]@ == v@[j]@,
        decreases v@.len() - i,
    {
        r.push(v[i].clone());
        i += 1;
    }
    proof {
        assert(views_of(r@) =~= views_of(v@));
    }
    r
}

/// Copy of a problem list, by view.
fn clone_vec_problem(v: &Vec<Problem>) -> (r: Vec<Problem>)
    ensures
        r@.map_values(|p: Problem| p@) == v@.map_values(|p: Problem| p@),
{
    let mut r: Vec<Problem> = Vec::new();
    let mut i: usize = 0;
    while i < v.len()
        invariant
            i <= v@.len(),
            r@.len() == i,
            forall|j: int| 0 <= j < i ==> r@[j]@ == v@[j]@,
        decreases v@.len() - i,
    {
        r.push(v[i].clone());
        i += 1;
    }
    proof {
        assert(r@.map_values(|p: Problem| p@) =~= v@.map_values(|p: Problem| p@));
    }
    r
}

impl Clone for CmdResult {
    fn clone(&self) -> (res: Self)
        ensures
            res@ == self@,
    {
        CmdResult {
            raw_data: clone_opt_string(&self.raw_data),
            return_code: match self.return_code {
                Option::None => Option::None,
                Option::Some(c) => Option::Some(c),
            },
            status: clone_opt_string(&self.status),
            status_message: clone_opt_string(&self.status_message),
            operation: self.operation,
            debug_log: match &self.debug_log {
                Option::None => Option::None,
                Option::Some(v) => Option::Some(clone_vec_string(v)),
            },
            problem: match &self.problem {
                Option::None => Option::None,
                Option::Some(v) => Option::Some(clone_vec_problem(v)),
            },
            success: self.success,
        }
    }
}

/// The delete-problem code table as executable code.
fn delete_problem_text(value: &str) -> (r: String)
    ensures
        r@ == delete_problem_of_payload(value@),
{
    if str_eq(value, "1") {
        String::from_str("No Such Key")
    } else if str_eq(value, "2") {
        String::from_str("Must delete secret key first")
    } else if str_eq(value, "3") {
        String::from_str("Ambiguous specification")
    } else if str_eq(value, "4") {
        String::from_str("Key is stored on a smartcard.")
    } else {
        let mut r = String::from_str("Unknown error: ");
        r.append(value);
        r
    }
}

impl CmdResult {
    /// A fresh, empty outcome for operation `ops`; success defaults to
    /// `true`.
    pub fn init(ops: Operation) -> (r: CmdResult)
        ensures
            r@ == init_result(ops),
    {
        CmdResult {
            raw_data: Option::None,
            return_code: Option::None,
            status: Option::None,
            status_message: Option::None,
            operation: ops,
            debug_log: Option::None,
            problem: Option::None,
            success: true,
        }
    }

    /// Append `raw_data` to the accumulated raw output.
    pub fn set_raw_data(&mut self, raw_data: String)
        ensures
            final(self)@ == raw_append(old(self)@, raw_data@),
    {
        match self.raw_data.take() {
            Option::None => {
                self.raw_data = Option::Some(raw_data);
            },
            Option::Some(mut s) => {
                s.append(raw_data.as_str());
                self.raw_data = Option::Some(s);
            },
        }
    }

    /// A copy of the accumulated raw output.
    pub fn get_raw_data(&self) -> (r: Option<String>)
        ensures
            opt_str_view(r) == self@.raw_data,
    {
        match &self.raw_data {
            Option::None => Option::None,
            Option::Some(s) => Option::Some(s.clone()),
        }
    }

    /// Record the child's exit code.
    pub fn set_return_code(&mut self, return_code: i32)
        ensures
            final(self)@ == (CmdResultV { return_code: Option::Some(return_code as int), ..old(self)@ }),
    {
        self.return_code = Option::Some(return_code);
    }

    /// Record one diagnostic line.
    pub fn capture_debug_log(&mut self, debug_log: String)
        ensures
            final(self)@ == debug_append(old(self)@, debug_log@),
    {
        let ghost pre = self@;
        match self.debug_log.take() {
            Option::None => {
                let mut v: Vec<String> = Vec::new();
                v.push(debug_log);
                proof {
                    assert(views_of(v@) =~= seq![debug_log@]);
                }
                self.debug_log = Option::Some(v);
            },
            Option::Some(mut v) => {
                let ghost old_views = views_of(v@);
                v.push(debug_log);
                proof {
                    assert(views_of(v@) =~= old_views.push(debug_log@));
                }
                self.debug_log = Option::Some(v);
            },
        }
    }

    /// The current pass/fail classification.
    pub fn is_success(&self) -> (r: bool)
        ensures
            r == self@.success,
    {
        self.success
    }

    /// Decode one status event and fold it into this outcome.
    pub fn handle_status(&mut self, keyword: &str, value: String)
        ensures
            final(self)@ == status_effect(old(self)@, keyword@, value@),
    {
        self.status = Option::Some(String::from_str(keyword));
        self.status_message = Option::Some(value.clone());
        if str_eq(keyword, "FAILURE") {
            if self.operation == Operation::ExportSecretKey {
                let has_warning = match &self.raw_data {
                    Option::Some(r) => contains_str(r.as_str(), "WARNING: nothing exported"),
                    Option::None => false,
                };
                self.success = !has_warning;
            } else {
                self.success = false;
            }
        } else if str_eq(keyword, "BADSIG") {
            self.success = false;
            self.status = Option::Some(String::from_str("bad signature"));
            let (key_id, username) = split_first_blank(value.as_str());
            push_problem(
                &mut self.problem,
                Problem::BadSignature {
                    status: String::from_str("bad signature"),
                    key_id,
                    username,
                },
            );
        } else if str_eq(keyword, "NODATA") {
            let has_marker = match &self.raw_data {
                Option::Some(r) => contains_str(r.as_str(), "no valid OpenPGP data found"),
                Option::None => false,
            };
            if has_marker {
                self.success = false;
            }
        } else if str_eq(keyword, "DELETE_PROBLEM") {
            self.success = false;
            let message = delete_problem_text(value.as_str());
            push_problem(&mut self.problem, Problem::Delete { message });
        } else if str_eq(keyword, "UNKNOWN_KEYWORD") {
            self.success = false;
            push_problem(&mut self.problem, Problem::UnknownKeyword { value });
        } else if str_eq(keyword, "NO_PASSPHRASE") {
            self.success = false;
            push_problem(&mut self.problem, Problem::NoPassphrase { value });
        } else if str_eq(keyword, "INVALID_FINGERPRINT") {
            self.success = false;
            push_problem(&mut self.problem, Problem::InvalidFingerprint { value });
        } else if str_eq(keyword, "BAD_PASSPHRASE") {
            self.success = false;
            push_problem(&mut self.problem, Problem::BadPassphrase { value });
        }
    }

    /// Decode a drained status stream: append the bytes to the raw
    /// output, then fold every line's effect into this outcome.
    pub fn process_response_data(&mut self, data: &str)
        ensures
            final(self)@ == response_data_effect(old(self)@, data@),
    {
        self.set_raw_data(String::from_str(data));
        let ghost pre = self@;
        let lines = split_char(data, '\n');
        let ghost lviews = views_of(lines@);
        let mut i: usize = 0;
        proof {
            assert(lviews.take(0) =~= Seq::<Seq<char>>::empty());
        }
        while i < lines.len()
            invariant
                i <= lines.len(),
                lviews == views_of(lines@),
                self@ == response_lines_effect(pre, lviews.take(i as int)),
            decreases lines.len() - i,
        {
            proof {
                lemma_lines_effect_snoc(pre, lviews, i as int);
            }
            let line = &lines[i];
            let n = line.as_str().unicode_len();
            if starts_with(line.as_str(), "[GNUPG:] ") {
                proof {
                    reveal_strlit("[GNUPG:] ");
                }
                let rem = line.as_str().substring_char(9, n);
                proof {
                    assert(rem@ =~= lviews[i as int].skip(9));
                }
                let (kw, rest) = split_first_blank(rem);
                self.handle_status(kw.as_str(), rest);
            } else if starts_with(line.as_str(), "gpg: ") {
                proof {
                    reveal_strlit("gpg: ");
                }
                let dbg = line.as_str().substring_char(5, n);
                proof {
                    assert(dbg@ =~= lviews[i as int].skip(5));
                }
                self.capture_debug_log(String::from_str(dbg));
            }
            i += 1;
        }
        proof {
            assert(lviews.take(lines@.len() as int) =~= lviews);
        }
    }

    /// Copy every field of `cmd_result` into this outcome.
    pub fn clone_cmd_info(&mut self, cmd_result: &CmdResult)
        ensures
            final(self)@ == cmd_result@,
    {
        let copy = cmd_result.clone();
        self.raw_data = copy.raw_data;
        self.return_code = copy.return_code;
        self.status = copy.status;
        self.status_message = copy.status_message;
        self.operation = copy.operation;
        self.debug_log = copy.debug_log;
        self.problem = copy.problem;
        self.success = copy.success;
    }

    /// The payload of the most recent status event, or a fixed label
    /// when none was seen.
    pub fn get_error_message(&mut self) -> (r: String)
        ensures
            *final(self) == *old(self),
            r@ == match old(self)@.status_message {
                Option::Some(m) => m,
                Option::None => "Undefined Error"@,
            },
    {
        match &self.status_message {
            Option::Some(m) => m.clone(),
            Option::None => String::from_str("Undefined Error"),
        }
    }
}

} // verus!
