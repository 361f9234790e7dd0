//! Pure logic of the shell-command executor: a fixed-capacity buffer of
//! timestamped output lines with FIFO eviction and line truncation, the
//! rendering of that buffer as a report of millisecond offsets, and the
//! construction of an execution result from either outcome of the run.
//!
//! The process side (spawning the shell, draining stdout and stderr, racing
//! the drain against the timeout, and the graceful-then-forceful kill) is
//! ordinary asynchronous I/O and lives outside the library; it hands lines
//! and timestamps in, and takes the finished result out.

use vstd::prelude::*;
use vstd::string::StrSliceExecFns;
use vstd::string::StringExecFns;

use crate::strutil::{chars_to_string, dec_of_int, push_all, push_dec_i128, push_str_chars};

verus! {

/// Most entries the output buffer holds; pushing onto a full buffer evicts
/// the oldest entry first.
pub const MAX_LINES: usize = 128;

/// Longest stored line, in characters; longer lines are truncated.
pub const MAX_LINE_LEN: usize = 256;

/// Wall-clock bound on a command run, enforced by the caller's event loop.
pub const COMMAND_TIMEOUT_SECS: u64 = 120;

/// How long a politely terminated process is given before the forced kill.
pub const GRACE_SECS: u64 = 1;

/// Exit code reported for a run that was killed on timeout.
pub const KILL_EXIT_CODE: i32 = 137;

/// Which output stream a captured line arrived on.
#[derive(Clone, Copy, PartialEq, Eq, Structural, Debug)]
pub enum StreamKind {
    Stdout,
    Stderr,
}

/// One captured output line with its arrival time, in milliseconds on the
/// caller's clock.
pub struct TimedLine {
    pub at_millis: i64,
    pub kind: StreamKind,
    pub line: String,
}

/// Mathematical image of a buffer entry.
pub ghost struct TimedLineV {
    pub at_millis: int,
    pub kind: StreamKind,
    pub line: Seq<char>,
}

impl View for TimedLine {
    type V = TimedLineV;

    open spec fn view(&self) -> TimedLineV {
        TimedLineV { at_millis: self.at_millis as int, kind: self.kind, line: self.line@ }
    }
}

/// The entries of a buffer, as their mathematical images.
pub open spec fn buf_view(s: Seq<TimedLine>) -> Seq<TimedLineV> {
    s.map_values(|t: TimedLine| t@)
}

/// A line as stored: cut to the first `MAX_LINE_LEN` characters.
pub open spec fn spec_truncated(line: Seq<char>) -> Seq<char> {
    if line.len() > MAX_LINE_LEN {
        line.take(MAX_LINE_LEN as int)
    } else {
        line
    }
}

/// One push onto the buffer: the oldest entry leaves first when the buffer
/// is full.
pub open spec fn spec_push_bounded(buf: Seq<TimedLineV>, e: TimedLineV) -> Seq<TimedLineV> {
    if buf.len() == MAX_LINES {
        buf.drop_first().push(e)
    } else {
        buf.push(e)
    }
}

/// Appends a truncated, timestamped entry, evicting the oldest entry first
/// when the buffer is at capacity.
pub fn push_bounded(buf: &mut Vec<TimedLine>, kind: StreamKind, line: String, at_millis: i64)
    ensures
        buf_view(final(buf)@) == spec_push_bounded(
            buf_view(old(buf)@),
            TimedLineV { at_millis: at_millis as int, kind, line: spec_truncated(line@) },
        ),
{
    let stored = if line.unicode_len() > MAX_LINE_LEN {
        let t = line.as_str().substring_char(0, MAX_LINE_LEN);
        String::from_str(t)
    } else {
        line
    };
    if buf.len() == MAX_LINES {
        buf.remove(0);
        assert(buf@ =~= old(buf)@.drop_first());
    }
    buf.push(TimedLine { at_millis, kind, line: stored });
    proof {
        let e = TimedLineV { at_millis: at_millis as int, kind, line: spec_truncated(line@) };
        if old(buf)@.len() == MAX_LINES {
            assert(buf_view(buf@) =~= buf_view(old(buf)@).drop_first().push(e));
        } else {
            assert(buf_view(buf@) =~= buf_view(old(buf)@).push(e));
        }
    }
}

/// Spaces used to right-align an offset.
pub open spec fn spaces(n: nat) -> Seq<char>
    decreases n,
{
    if n == 0 {
        Seq::empty()
    } else {
        spaces((n - 1) as nat).push(' ')
    }
}

/// A rendered number right-aligned in a field of five characters; wider
/// numbers keep their full width.
pub open spec fn pad_to_five(s: Seq<char>) -> Seq<char> {
    if s.len() >= 5 {
        s
    } else {
        spaces((5 - s.len()) as nat) + s
    }
}

/// One report line: the entry's signed millisecond offset from the origin,
/// right-aligned to five characters, a `| ` separator, then the text.
pub open spec fn spec_render_line(origin: int, l: TimedLineV) -> Seq<char> {
    pad_to_five(dec_of_int(l.at_millis - origin)) + "| "@ + l.line
}

/// The whole report: the rendered lines joined by newlines.
pub open spec fn spec_render(origin: int, ls: Seq<TimedLineV>) -> Seq<char>
    decreases ls.len(),
{
    if ls.len() == 0 {
        Seq::empty()
    } else if ls.len() == 1 {
        spec_render_line(origin, ls[0])
    } else {
        spec_render(origin, ls.drop_last()) + seq!['\n'] + spec_render_line(origin, ls.last())
    }
}

/// Renders the captured lines as a newline-joined report where each line is
/// prefixed with its signed millisecond offset from `started_at_millis`.
pub fn lines_with_offsets(started_at_millis: i64, lines: &Vec<TimedLine>) -> (r: String)
    ensures
        r@ == spec_render(started_at_millis as int, buf_view(lines@)),
{
    let ghost vs = buf_view(lines@);
    let mut out: Vec<char> = Vec::new();
    let mut i: usize = 0;
    while i < lines.len()
        invariant
            i <= lines@.len(),
            vs == buf_view(lines@),
            vs.len() == lines@.len(),
            out@ == spec_render(started_at_millis as int, vs.take(i as int)),
        decreases lines@.len() - i,
    {
        if i > 0 {
            out.push('\n');
        }
        assert(vs[i as int] == lines@[i as int]@);
        let offset: i128 = lines[i].at_millis as i128 - started_at_millis as i128;
        let mut digits: Vec<char> = Vec::new();
        push_dec_i128(&mut digits, offset);
        let mut piece: Vec<char> = Vec::new();
        if digits.len() < 5 {
            let pad = 5 - digits.len();
            let mut k: usize = 0;
            while k < pad
                invariant
                    k <= pad,
                    piece@ == spaces(k as nat),
                decreases pad - k,
            {
                piece.push(' ');
                k = k + 1;
            }
        }
        push_all(&mut piece, &digits);
        assert(piece@ == pad_to_five(dec_of_int(vs[i as int].at_millis - started_at_millis)));
        push_str_chars(&mut piece, "| ");
        push_str_chars(&mut piece, lines[i].line.as_str());
        assert(piece@ == spec_render_line(started_at_millis as int, vs[i as int]));
        push_all(&mut out, &piece);
        proof {
            assert(vs.take(i + 1).drop_last() =~= vs.take(i as int));
            assert(vs.take(i + 1).last() == vs[i as int]);
        }
        i = i + 1;
    }
    assert(vs.take(vs.len() as int) =~= vs);
    chars_to_string(&out)
}

/// Input of the execute tool.
pub struct ExecuteArgs {
    pub command: String,
}

/// Outcome of one command run: the rendered report, whether the timeout
/// fired, and the exit code (a sentinel where the real one is unavailable).
pub struct ExecuteResults {
    pub output: String,
    pub timed_out: bool,
    pub exit_code: i32,
}

/// The command executor. Spawning and draining the process happen outside
/// the library; the functions here decide what result every outcome yields.
pub struct Executor {}

/// The reported exit code of a run that ended before the timeout: the real
/// code of a successful exit, and a failure sentinel otherwise.
pub open spec fn spec_exit_code(success: bool, code: Option<i32>) -> int {
    if success {
        match code {
            Some(c) => c as int,
            None => -1,
        }
    } else {
        -1
    }
}

impl Executor {
    /// The result of a run whose streams both ended before the timeout.
    pub fn finish_completed(
        started_at_millis: i64,
        output: &Vec<TimedLine>,
        success: bool,
        code: Option<i32>,
    ) -> (r: ExecuteResults)
        ensures
            r.output@ == spec_render(started_at_millis as int, buf_view(output@)),
            r.timed_out == false,
            r.exit_code as int == spec_exit_code(success, code),
    {
        let exit_code: i32 = if success {
            match code {
                Some(c) => c,
                None => -1,
            }
        } else {
            -1
        };
        ExecuteResults {
            output: lines_with_offsets(started_at_millis, output),
            timed_out: false,
            exit_code,
        }
    }

    /// The result of a run cut off by the timeout: the same rendered report,
    /// the timeout flag, and the kill sentinel as exit code.
    pub fn finish_timed_out(started_at_millis: i64, output: &Vec<TimedLine>) -> (r:
        ExecuteResults)
        ensures
            r.output@ == spec_render(started_at_millis as int, buf_view(output@)),
            r.timed_out == true,
            r.exit_code == KILL_EXIT_CODE,
    {
        ExecuteResults {
            output: lines_with_offsets(started_at_millis, output),
            timed_out: true,
            exit_code: KILL_EXIT_CODE,
        }
    }
}

/// The buffer that a sequence of pushes leaves behind, starting empty.
pub open spec fn spec_fold_pushes(entries: Seq<TimedLineV>) -> Seq<TimedLineV>
    decreases entries.len(),
{
    if entries.len() == 0 {
        Seq::empty()
    } else {
        spec_push_bounded(spec_fold_pushes(entries.drop_last()), entries.last())
    }
}

/// After any sequence of pushes, the buffer holds exactly the last
/// `MAX_LINES` entries pushed, in arrival order (all of them when fewer
/// were pushed).
pub proof fn lemma_buffer_retains_last(entries: Seq<TimedLineV>)
    ensures
        spec_fold_pushes(entries) == if entries.len() <= MAX_LINES {
            entries
        } else {
            entries.skip(entries.len() - MAX_LINES as int)
        },
    decreases entries.len(),
{
    if entries.len() == 0 {
        assert(spec_fold_pushes(entries) =~= entries);
    } else {
        let head = entries.drop_last();
        lemma_buffer_retains_last(head);
        if entries.len() <= MAX_LINES {
            assert(spec_fold_pushes(entries) =~= entries);
        } else if entries.len() - 1 == MAX_LINES {
            assert(spec_fold_pushes(entries) =~= entries.skip(1));
        } else {
            assert(spec_fold_pushes(head) == head.skip(head.len() - MAX_LINES as int));
            assert(spec_fold_pushes(entries) =~= entries.skip(
                entries.len() - MAX_LINES as int,
            ));
        }
    }
}

} // verus!
