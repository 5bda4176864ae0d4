//! The process runner's transcript: every complete line read from either
//! output stream is appended, in arrival order, to one merged transcript;
//! the runner is done only when both streams have reached end-of-stream,
//! and only then may the exit status be reaped.

use vstd::prelude::*;

verus! {

#[derive(Clone, Copy, Debug, PartialEq, Eq, Structural)]
pub enum StreamSource {
    Stdout,
    Stderr,
}

/// One observation the drain loop can make.
pub enum RunEvent {
    /// A complete line arrived from the given stream.
    Line(StreamSource, Seq<char>),
    /// The given stream reached end-of-stream.
    Eof(StreamSource),
}

/// The state of a run: the merged transcript so far, and which streams
/// are still open.
pub struct SpecRunner {
    pub lines: Seq<Seq<char>>,
    pub stdout_open: bool,
    pub stderr_open: bool,
}

pub open spec fn runner_init() -> SpecRunner {
    SpecRunner { lines: Seq::empty(), stdout_open: true, stderr_open: true }
}

pub open spec fn runner_step(st: SpecRunner, ev: RunEvent) -> SpecRunner {
    match ev {
        RunEvent::Line(_, text) => SpecRunner {
            lines: st.lines.push(text),
            stdout_open: st.stdout_open,
            stderr_open: st.stderr_open,
        },
        RunEvent::Eof(StreamSource::Stdout) => SpecRunner {
            lines: st.lines,
            stdout_open: false,
            stderr_open: st.stderr_open,
        },
        RunEvent::Eof(StreamSource::Stderr) => SpecRunner {
            lines: st.lines,
            stdout_open: st.stdout_open,
            stderr_open: false,
        },
    }
}

pub open spec fn runner_run(st: SpecRunner, evs: Seq<RunEvent>) -> SpecRunner
    decreases evs.len(),
{
    if evs.len() == 0 {
        st
    } else {
        runner_run(runner_step(st, evs[0]), evs.drop_first())
    }
}

/// The text of the line events, in order.
pub open spec fn lines_of(evs: Seq<RunEvent>) -> Seq<Seq<char>>
    decreases evs.len(),
{
    if evs.len() == 0 {
        Seq::empty()
    } else {
        match evs[0] {
            RunEvent::Line(_, text) => seq![text] + lines_of(evs.drop_first()),
            RunEvent::Eof(_) => lines_of(evs.drop_first()),
        }
    }
}

/// How many line events come from the given stream.
pub open spec fn count_lines_from(evs: Seq<RunEvent>, src: StreamSource) -> nat
    decreases evs.len(),
{
    if evs.len() == 0 {
        0
    } else {
        (match evs[0] {
            RunEvent::Line(s, _) => if s == src {
                1 as nat
            } else {
                0 as nat
            },
            RunEvent::Eof(_) => 0 as nat,
        }) + count_lines_from(evs.drop_first(), src)
    }
}

/// The runner never loses a line: after any sequence of stream events the
/// transcript is exactly the old transcript followed by the text of every
/// line event, in arrival order; in particular its length grows by the
/// number of lines from standard output plus the number from standard
/// error.
pub proof fn lemma_no_line_lost(st: SpecRunner, evs: Seq<RunEvent>)
    ensures
        runner_run(st, evs).lines == st.lines + lines_of(evs),
        lines_of(evs).len() == count_lines_from(evs, StreamSource::Stdout) + count_lines_from(
            evs,
            StreamSource::Stderr,
        ),
    decreases evs.len(),
{
    if evs.len() == 0 {
        assert(st.lines + lines_of(evs) =~= st.lines);
    } else {
        let st1 = runner_step(st, evs[0]);
        lemma_no_line_lost(st1, evs.drop_first());
        match evs[0] {
            RunEvent::Line(_, text) => {
                assert(st1.lines == st.lines.push(text));
                assert(st.lines.push(text) + lines_of(evs.drop_first()) =~= st.lines + (seq![text]
                    + lines_of(evs.drop_first())));
            },
            RunEvent::Eof(_) => {
                assert(st1.lines == st.lines);
            },
        }
    }
}

// ---------------------------------------------------------------------------
// Executable form
// ---------------------------------------------------------------------------

/// The sequences of characters of a list of lines.
pub open spec fn lines_seq(lines: Seq<String>) -> Seq<Seq<char>> {
    Seq::new(lines.len(), |i: int| lines[i]@)
}

/// Builds the merged transcript while the drain loop runs. The loop feeds
/// it one event at a time; each method is one `runner_step`.
pub struct TranscriptBuilder {
    lines: Vec<String>,
    stdout_open: bool,
    stderr_open: bool,
}

impl View for TranscriptBuilder {
    type V = SpecRunner;

    closed spec fn view(&self) -> SpecRunner {
        SpecRunner {
            lines: lines_seq(self.lines@),
            stdout_open: self.stdout_open,
            stderr_open: self.stderr_open,
        }
    }
}

/// What one finished run reports: whether the process exited normally
/// with code zero, the code itself when there was one, and the merged
/// transcript.
#[derive(Debug)]
pub struct ProcessOutcome {
    pub exit_success: bool,
    pub exit_code: Option<i32>,
    pub transcript: Vec<String>,
}

impl TranscriptBuilder {
    pub fn new() -> (r: TranscriptBuilder)
        ensures
            r@ == runner_init(),
    {
        let r = TranscriptBuilder { lines: Vec::new(), stdout_open: true, stderr_open: true };
        proof {
            assert(lines_seq(r.lines@) =~= Seq::<Seq<char>>::empty());
        }
        r
    }

    /// A complete line arrived from `source`.
    pub fn record_line(&mut self, source: StreamSource, line: String)
        ensures
            final(self)@ == runner_step(old(self)@, RunEvent::Line(source, line@)),
    {
        let ghost prev = self.lines@;
        let ghost text = line@;
        self.lines.push(line);
        proof {
            assert(lines_seq(self.lines@) =~= lines_seq(prev).push(text));
        }
    }

    /// `source` reached end-of-stream.
    pub fn record_eof(&mut self, source: StreamSource)
        ensures
            final(self)@ == runner_step(old(self)@, RunEvent::Eof(source)),
    {
        match source {
            StreamSource::Stdout => {
                self.stdout_open = false;
            },
            StreamSource::Stderr => {
                self.stderr_open = false;
            },
        }
    }

    /// Have both streams reached end-of-stream?
    pub fn drained(&self) -> (r: bool)
        ensures
            r == (!self@.stdout_open && !self@.stderr_open),
    {
        !self.stdout_open && !self.stderr_open
    }

    pub fn line_count(&self) -> (r: usize)
        ensures
            r == self@.lines.len(),
    {
        self.lines.len()
    }

    /// Close the run once both streams are drained. `exit_code` is the
    /// process's exit code, `None` when it was terminated by a signal;
    /// success means a normal exit with code zero.
    pub fn finish(self, exit_code: Option<i32>) -> (r: ProcessOutcome)
        requires
            !self@.stdout_open,
            !self@.stderr_open,
        ensures
            lines_seq(r.transcript@) == self@.lines,
            r.exit_code == exit_code,
            r.exit_success == (exit_code == Some(0i32)),
    {
        let ok = match exit_code {
            Some(c) => c == 0,
            None => false,
        };
        ProcessOutcome { exit_success: ok, exit_code, transcript: self.lines }
    }
}

} // verus!
