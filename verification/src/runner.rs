//! Interpretation of what came back from a child process: exit statuses
//! mapped to structured errors, captured output decoded, one log record per
//! non-empty output line, and the rule that the exit-status wait may start
//! only after every attached output stream has reached end of stream.

use vstd::prelude::*;
use vstd::string::StringExecFns;
use vstd::utf8::{decode_utf8, valid_utf8};

use crate::text::{
    bracketed_list, contains_seq, i32_dec, int_rep, lemma_bracketed_list_contains,
    lemma_contains_extend_left, lemma_contains_extend_right, quoted, trim_spec, trim_str, views_of,
};

verus! {

/// How a child ended: its exit code, or nothing when a signal ended it.
#[derive(Clone, Copy, Debug, PartialEq, Eq, Structural)]
pub struct ExitInfo {
    pub code: Option<i32>,
}

impl ExitInfo {
    /// True when the child exited with status zero.
    pub open spec fn is_success(self) -> bool {
        self.code == Some(0i32)
    }

    /// True when the child exited with status zero.
    pub fn success(&self) -> (b: bool)
        ensures
            b == self.is_success(),
    {
        match self.code {
            Some(c) => c == 0,
            None => false,
        }
    }
}

/// What an invocation can fail with, short of the fatal stream-read fault
/// that ends the whole process.
#[derive(Debug)]
pub enum Error {
    /// The child ran and ended without success, in a streaming mode.
    Failed { args: Vec<String>, exit: ExitInfo },
    /// The child ran and ended without success, in capture mode, with its
    /// decoded standard error.
    FailedWithStderr { args: Vec<String>, stderr: String },
    /// Captured output was not valid UTF-8.
    InvalidUtf8 { bytes: Vec<u8> },
    /// A single-line reader saw no non-empty line or more than one.
    UnexpectedLines { tool: String, subject: String, lines: Vec<String> },
}

/// The rendering of how a child ended.
pub open spec fn status_text(exit: ExitInfo) -> Seq<char> {
    match exit.code {
        Some(c) => "exit code "@ + int_rep(c as int),
        None => "terminated by signal"@,
    }
}

/// The text of an error, as `Error::render` produces it.
pub open spec fn error_text(e: Error) -> Seq<char> {
    match e {
        Error::Failed { args, exit } => "exec "@ + bracketed_list(views_of(args@)) + ": failed "@
            + status_text(exit),
        Error::FailedWithStderr { args, stderr } => "exec "@ + bracketed_list(views_of(args@))
            + ": failed "@ + quoted(stderr@),
        Error::InvalidUtf8 { bytes } => "output was not valid UTF-8"@,
        Error::UnexpectedLines { tool, subject, lines } => "unexpected output for "@ + tool@ + " "@
            + subject@ + ": "@ + bracketed_list(views_of(lines@)),
    }
}

fn status_str(exit: &ExitInfo) -> (r: String)
    ensures
        r@ == status_text(*exit),
{
    match exit.code {
        Some(c) => {
            let mut s = String::from_str("exit code ");
            let d = i32_dec(c);
            s.append(d.as_str());
            s
        },
        None => String::from_str("terminated by signal"),
    }
}

impl Error {
    /// The error as text, the argument vector quoted in full.
    pub fn render(&self) -> (r: String)
        ensures
            r@ == error_text(*self),
    {
        match self {
            Error::Failed { args, exit } => {
                let mut s = String::from_str("exec ");
                let list = crate::text::render_list(args);
                s.append(list.as_str());
                s.append(": failed ");
                let st = status_str(exit);
                s.append(st.as_str());
                proof {
                    assert(s@ =~= error_text(*self));
                }
                s
            },
            Error::FailedWithStderr { args, stderr } => {
                let mut s = String::from_str("exec ");
                let list = crate::text::render_list(args);
                s.append(list.as_str());
                s.append(": failed \"");
                s.append(stderr.as_str());
                s.append("\"");
                proof {
                    reveal_strlit(": failed ");
                    reveal_strlit(": failed \"");
                    reveal_strlit("\"");
                    assert(s@ =~= error_text(*self));
                }
                s
            },
            Error::InvalidUtf8 { .. } => String::from_str("output was not valid UTF-8"),
            Error::UnexpectedLines { tool, subject, lines } => {
                let mut s = String::from_str("unexpected output for ");
                s.append(tool.as_str());
                s.append(" ");
                s.append(subject.as_str());
                s.append(": ");
                let list = crate::text::render_list(lines);
                s.append(list.as_str());
                proof {
                    assert(s@ =~= error_text(*self));
                }
                s
            },
        }
    }
}

/// A `Failed` error's text contains every argument of the invocation it
/// reports, quoted as it was given.
pub proof fn lemma_failed_text_has_args(args: Vec<String>, exit: ExitInfo, k: int)
    requires
        0 <= k < args@.len(),
    ensures
        contains_seq(error_text(Error::Failed { args, exit }), args@[k]@),
{
    lemma_bracketed_list_contains(views_of(args@), k);
    lemma_contains_extend_left("exec "@, bracketed_list(views_of(args@)), args@[k]@);
    lemma_contains_extend_right(
        "exec "@ + bracketed_list(views_of(args@)),
        ": failed "@ + status_text(exit),
        args@[k]@,
    );
    assert(error_text(Error::Failed { args, exit }) =~= ("exec "@ + bracketed_list(
        views_of(args@),
    )) + (": failed "@ + status_text(exit)));
}

/// A `FailedWithStderr` error's text contains every argument of the
/// invocation it reports, quoted as it was given.
pub proof fn lemma_failed_stderr_text_has_args(args: Vec<String>, stderr: String, k: int)
    requires
        0 <= k < args@.len(),
    ensures
        contains_seq(error_text(Error::FailedWithStderr { args, stderr }), args@[k]@),
{
    lemma_bracketed_list_contains(views_of(args@), k);
    lemma_contains_extend_left("exec "@, bracketed_list(views_of(args@)), args@[k]@);
    lemma_contains_extend_right(
        "exec "@ + bracketed_list(views_of(args@)),
        ": failed "@ + quoted(stderr@),
        args@[k]@,
    );
    assert(error_text(Error::FailedWithStderr { args, stderr }) =~= ("exec "@ + bracketed_list(
        views_of(args@),
    )) + (": failed "@ + quoted(stderr@)));
}

/// An `UnexpectedLines` error's text contains every line that was observed.
pub proof fn lemma_unexpected_text_has_lines(
    tool: String,
    subject: String,
    lines: Vec<String>,
    k: int,
)
    requires
        0 <= k < lines@.len(),
    ensures
        contains_seq(error_text(Error::UnexpectedLines { tool, subject, lines }), lines@[k]@),
{
    lemma_bracketed_list_contains(views_of(lines@), k);
    lemma_contains_extend_left(
        "unexpected output for "@ + tool@ + " "@ + subject@ + ": "@,
        bracketed_list(views_of(lines@)),
        lines@[k]@,
    );
    assert(error_text(Error::UnexpectedLines { tool, subject, lines }) =~= ("unexpected output for "@
        + tool@ + " "@ + subject@ + ": "@) + bracketed_list(views_of(lines@)));
}

/// The result of a streaming invocation, given the argument vector and how
/// the child ended: success for exit status zero, else a `Failed` error
/// carrying that vector and the status.
pub fn finish_run(args: &Vec<String>, exit: ExitInfo) -> (r: Result<(), Error>)
    ensures
        r is Ok <==> exit.is_success(),
        (r matches Err(e) ==> e matches Error::Failed { args: a, exit: ex } && a@ == args@ && ex
            == exit),
{
    if exit.success() {
        Ok(())
    } else {
        Err(Error::Failed { args: crate::command::clone_strings(args), exit })
    }
}

/// Everything a capture-mode invocation observed of its child.
pub struct CapturedOutput {
    pub exit: ExitInfo,
    pub stdout: Vec<u8>,
    pub stderr: Vec<u8>,
}

/// Relies on String::from_utf8: it returns a string exactly when the bytes
/// are valid UTF-8, and the string then holds those bytes decoded.
#[verifier::external_body]
fn decode_bytes(bytes: &Vec<u8>) -> (r: Option<String>)
    ensures
        r is Some <==> valid_utf8(bytes@),
        (r matches Some(s) ==> s@ == decode_utf8(bytes@)),
{
    String::from_utf8(bytes.clone()).ok()
}

/// The result of a capture-mode invocation: on success the child's whole
/// standard output decoded and unmodified, on a non-zero status an error
/// carrying the argument vector and the decoded standard error, and a decode
/// error when the bytes that were to be decoded are not valid UTF-8.
pub fn capture_outcome(args: &Vec<String>, raw: CapturedOutput) -> (r: Result<String, Error>)
    ensures
        (raw.exit.is_success() && valid_utf8(raw.stdout@)) ==> (r matches Ok(s) && s@ == decode_utf8(
            raw.stdout@,
        )),
        (raw.exit.is_success() && !valid_utf8(raw.stdout@)) ==> r == Err::<String, Error>(
            Error::InvalidUtf8 { bytes: raw.stdout },
        ),
        (!raw.exit.is_success() && valid_utf8(raw.stderr@)) ==> (r matches Err(e) && e matches
            Error::FailedWithStderr { args: a, stderr: st } && a@ == args@ && st@ == decode_utf8(
            raw.stderr@,
        )),
        (!raw.exit.is_success() && !valid_utf8(raw.stderr@)) ==> r == Err::<String, Error>(
            Error::InvalidUtf8 { bytes: raw.stderr },
        ),
{
    if raw.exit.success() {
        match decode_bytes(&raw.stdout) {
            Some(s) => Ok(s),
            None => Err(Error::InvalidUtf8 { bytes: raw.stdout }),
        }
    } else {
        match decode_bytes(&raw.stderr) {
            Some(s) => Err(
                Error::FailedWithStderr { args: crate::command::clone_strings(args), stderr: s },
            ),
            None => Err(Error::InvalidUtf8 { bytes: raw.stderr }),
        }
    }
}

/// What one line read from a child stream becomes in the log: nothing for a
/// line that trims to empty, else the trimmed line under its stream tag.
pub fn reader_record(tag: &str, line: &str) -> (r: Option<String>)
    ensures
        (r is Some <==> trim_spec(line@).len() > 0),
        (r matches Some(rec) ==> rec@ == tag@ + "| "@ + trim_spec(line@)),
{
    let trimmed = trim_str(line);
    if trimmed.as_str().is_empty() {
        None
    } else {
        let mut rec = tag.to_owned();
        rec.append("| ");
        rec.append(trimmed.as_str());
        Some(rec)
    }
}

/// End of stream on one of the child's piped output streams.
pub enum StreamEvent {
    OutEof,
    ErrEof,
}

/// Which output streams of one child are piped, and which of them have
/// reached end of stream.
#[derive(Clone, Copy, Debug, PartialEq, Eq, Structural)]
pub struct DrainState {
    pub out_attached: bool,
    pub err_attached: bool,
    pub out_done: bool,
    pub err_done: bool,
}

impl DrainState {
    /// The exit-status wait may start: every attached stream was drained to
    /// end of stream.
    pub open spec fn spec_ready(self) -> bool {
        (self.out_attached ==> self.out_done) && (self.err_attached ==> self.err_done)
    }
}

/// One end-of-stream event applied to the drain state.
pub open spec fn drain_step(s: DrainState, e: StreamEvent) -> DrainState {
    match e {
        StreamEvent::OutEof => DrainState { out_done: true, ..s },
        StreamEvent::ErrEof => DrainState { err_done: true, ..s },
    }
}

/// A sequence of end-of-stream events applied in order.
pub open spec fn drain_run(s: DrainState, evs: Seq<StreamEvent>) -> DrainState
    decreases evs.len(),
{
    if evs.len() == 0 {
        s
    } else {
        drain_run(drain_step(s, evs[0]), evs.drop_first())
    }
}

/// The drain state right after the child was spawned: no attached stream has
/// reached end of stream yet.
pub fn drain_start(out_attached: bool, err_attached: bool) -> (s: DrainState)
    ensures
        s == (DrainState { out_attached, err_attached, out_done: false, err_done: false }),
{
    DrainState { out_attached, err_attached, out_done: false, err_done: false }
}

/// Record that one attached stream reached end of stream.
pub fn note_eof(s: &mut DrainState, e: StreamEvent)
    ensures
        *final(s) == drain_step(*old(s), e),
{
    match e {
        StreamEvent::OutEof => {
            s.out_done = true;
        },
        StreamEvent::ErrEof => {
            s.err_done = true;
        },
    }
}

/// True when the exit-status wait may start.
pub fn ready_to_wait(s: &DrainState) -> (b: bool)
    ensures
        b == s.spec_ready(),
{
    (!s.out_attached || s.out_done) && (!s.err_attached || s.err_done)
}

proof fn lemma_done_needs_event(s: DrainState, evs: Seq<StreamEvent>)
    ensures
        !s.out_done && drain_run(s, evs).out_done ==> evs.contains(StreamEvent::OutEof),
        !s.err_done && drain_run(s, evs).err_done ==> evs.contains(StreamEvent::ErrEof),
        drain_run(s, evs).out_attached == s.out_attached,
        drain_run(s, evs).err_attached == s.err_attached,
    decreases evs.len(),
{
    if evs.len() > 0 {
        lemma_done_needs_event(drain_step(s, evs[0]), evs.drop_first());
        if !s.out_done && drain_run(s, evs).out_done {
            if evs[0] is OutEof {
                assert(evs.contains(StreamEvent::OutEof)) by {
                    assert(evs[0] == StreamEvent::OutEof);
                }
            } else {
                assert(evs.drop_first().contains(StreamEvent::OutEof));
                let i = choose|i: int|
                    0 <= i < evs.drop_first().len() && evs.drop_first()[i] == StreamEvent::OutEof;
                assert(evs[i + 1] == StreamEvent::OutEof);
            }
        }
        if !s.err_done && drain_run(s, evs).err_done {
            if evs[0] is ErrEof {
                assert(evs.contains(StreamEvent::ErrEof)) by {
                    assert(evs[0] == StreamEvent::ErrEof);
                }
            } else {
                assert(evs.drop_first().contains(StreamEvent::ErrEof));
                let i = choose|i: int|
                    0 <= i < evs.drop_first().len() && evs.drop_first()[i] == StreamEvent::ErrEof;
                assert(evs[i + 1] == StreamEvent::ErrEof);
            }
        }
    }
}

/// The exit-status wait is never reached before both piped streams have
/// reached end of stream: from the spawn state, any event sequence that
/// makes the drain state ready holds an end-of-stream event for every
/// attached stream.
pub proof fn lemma_wait_needs_all_eofs(out_attached: bool, err_attached: bool, evs: Seq<StreamEvent>)
    requires
        drain_run(
            DrainState { out_attached, err_attached, out_done: false, err_done: false },
            evs,
        ).spec_ready(),
    ensures
        out_attached ==> evs.contains(StreamEvent::OutEof),
        err_attached ==> evs.contains(StreamEvent::ErrEof),
{
    let start = DrainState { out_attached, err_attached, out_done: false, err_done: false };
    lemma_done_needs_event(start, evs);
}

} // verus!
