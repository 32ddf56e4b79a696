use vstd::prelude::*;
use crate::text::{contains, first_index, contains_str, find, starts_with, trim_start, trimmed_starts_with, views};

verus! {

/// The substring that identifies the application's own log lines.
pub const APP_ID: &'static str = "miscomp";

/// The substring that marks a test print.
pub const MARKER: &'static str = "!!:";

/// The payload of a marker that reports a missing value.
pub const NO_VALUE: &'static str = "None";

/// The payload of a marker that reports a present value.
pub const SOME_VALUE: &'static str = "Some(";

/// How long the watchdog waits for a verdict, in seconds.
pub const TIMEOUT_SECS: u64 = 20;

/// The outcome of one device test run.
#[derive(Clone, Copy, Debug, PartialEq, Eq, Structural)]
pub enum Verdict {
    /// Fewer than two markers seen so far.
    Pending,
    /// The second marker reported a present value.
    Pass,
    /// The second marker reported a missing value: the miscompilation recurred.
    Regression,
    /// The second marker reported neither token.
    Malformed,
}

/// The state of the log scanner.
#[derive(Clone, Copy, Debug, PartialEq, Eq, Structural)]
pub struct Harness {
    /// Marker-bearing application lines seen so far.
    pub markers: u8,
    pub verdict: Verdict,
}

/// What the caller does with a line it handed to the scanner.
#[derive(Clone, Copy, Debug, PartialEq, Eq, Structural)]
pub enum LineAction {
    /// Not the application's line, or scanning is over: drop it.
    Discard,
    /// An application line: show it.
    Echo,
}

impl Harness {
    /// A scanner's state is consistent: the count stops at two, where the
    /// verdict is decided.
    pub open spec fn wf(self) -> bool {
        (self.verdict == Verdict::Pending <==> self.markers < 2) && self.markers <= 2
    }

    /// Whether scanning still goes on.
    pub open spec fn is_pending(self) -> bool {
        self.verdict == Verdict::Pending
    }
}

/// The text that follows the first marker of `line`, leading white space removed.
pub open spec fn payload(line: Seq<char>) -> Seq<char> {
    let i = first_index(line, MARKER@);
    trim_start(line.subrange(i + MARKER@.len(), line.len() as int))
}

/// The verdict that a second marker with payload `t` decides.
pub open spec fn decide(t: Seq<char>) -> Verdict {
    if starts_with(t, NO_VALUE@) {
        Verdict::Regression
    } else if starts_with(t, SOME_VALUE@) {
        Verdict::Pass
    } else {
        Verdict::Malformed
    }
}

/// Whether `line` is one that the scanner looks at.
pub open spec fn is_app_line(line: Seq<char>) -> bool {
    contains(line, APP_ID@)
}

/// The scanner's state after it reads `line` in state `h`.
#[verifier::opaque]
pub open spec fn next(h: Harness, line: Seq<char>) -> Harness {
    if !h.is_pending() || !is_app_line(line) || !contains(line, MARKER@) {
        h
    } else if h.markers == 0 {
        Harness { markers: 1, verdict: Verdict::Pending }
    } else {
        Harness { markers: 2, verdict: decide(payload(line)) }
    }
}

/// The scanner's state after it reads `lines` in order, starting in `h`.
pub open spec fn run(h: Harness, lines: Seq<Seq<char>>) -> Harness
    decreases lines.len(),
{
    if lines.len() == 0 {
        h
    } else {
        run(next(h, lines[0]), lines.drop_first())
    }
}

impl Harness {
    /// A scanner that has seen nothing.
    pub fn new() -> (r: Harness)
        ensures
            r.markers == 0,
            r.verdict == Verdict::Pending,
            r.wf(),
    {
        Harness { markers: 0, verdict: Verdict::Pending }
    }

    /// Reads one log line. Once a verdict is reached it is never revisited.
    pub fn step(&mut self, line: &str) -> (act: LineAction)
        requires
            old(self).wf(),
        ensures
            *final(self) == next(*old(self), line@),
            final(self).wf(),
            act == (if old(self).is_pending() && is_app_line(line@) {
                LineAction::Echo
            } else {
                LineAction::Discard
            }),
            !is_app_line(line@) ==> *final(self) == *old(self),
            old(self).markers <= final(self).markers,
    {
        proof {
            reveal(next);
        }
        let n = line.unicode_len();
        if self.verdict != Verdict::Pending || !contains_str(line, APP_ID) {
            return LineAction::Discard;
        }
        match find(line, MARKER) {
            None => {},
            Some(i) => {
                if self.markers == 0 {
                    self.markers = 1;
                } else {
                    let from = i + MARKER.unicode_len();
                    let v = if trimmed_starts_with(line, from, NO_VALUE) {
                        Verdict::Regression
                    } else if trimmed_starts_with(line, from, SOME_VALUE) {
                        Verdict::Pass
                    } else {
                        Verdict::Malformed
                    };
                    self.markers = 2;
                    self.verdict = v;
                }
            },
        }
        LineAction::Echo
    }
}

/// Scans `lines` in order from a fresh state and returns the final state;
/// lines after a verdict leave it as it is.
pub fn scan(lines: &Vec<String>) -> (r: Harness)
    ensures
        r == run(Harness { markers: 0, verdict: Verdict::Pending }, views(lines@)),
        r.wf(),
{
    let mut h = Harness::new();
    let mut k: usize = 0;
    proof {
        assert(views(lines@).subrange(0, lines@.len() as int) =~= views(lines@));
    }
    while k < lines.len()
        invariant
            h.wf(),
            k <= lines@.len(),
            run(Harness { markers: 0, verdict: Verdict::Pending }, views(lines@)) == run(
                h,
                views(lines@).subrange(k as int, lines@.len() as int),
            ),
        decreases lines.len() - k,
    {
        let ghost before = h;
        let _ = h.step(lines[k].as_str());
        proof {
            let rest = views(lines@).subrange(k as int, lines@.len() as int);
            assert(rest[0] == lines@[k as int]@);
            assert(rest.drop_first() =~= views(lines@).subrange(k + 1, lines@.len() as int));
        }
        k = k + 1;
    }
    proof {
        assert(views(lines@).subrange(k as int, lines@.len() as int) =~= Seq::<Seq<char>>::empty());
    }
    h
}

/// Log lines that are not the application's leave the scanner's state as it
/// was, whatever else they hold.
pub proof fn lemma_foreign_lines_ignored(h: Harness, lines: Seq<Seq<char>>)
    requires
        forall|k: int| 0 <= k < lines.len() ==> !is_app_line(#[trigger] lines[k]),
    ensures
        run(h, lines) == h,
    decreases lines.len(),
{
    reveal(next);
    if lines.len() > 0 {
        assert(!is_app_line(lines[0]));
        let rest = lines.drop_first();
        assert forall|k: int| 0 <= k < rest.len() implies !is_app_line(#[trigger] rest[k]) by {
            assert(rest[k] == lines[k + 1]);
        }
        lemma_foreign_lines_ignored(h, rest);
    }
}

/// Inserting lines that are not the application's anywhere in a log does not
/// change where scanning ends.
pub proof fn lemma_foreign_line_inserted(
    h: Harness,
    before: Seq<Seq<char>>,
    noise: Seq<char>,
    after: Seq<Seq<char>>,
)
    requires
        !is_app_line(noise),
    ensures
        run(h, before + seq![noise] + after) == run(h, before + after),
    decreases before.len(),
{
    if before.len() == 0 {
        assert((before + seq![noise] + after).drop_first() =~= after);
        assert((before + seq![noise] + after)[0] == noise);
        assert(before + after =~= after);
        assert(next(h, noise) == h) by {
            reveal(next);
        }
    } else {
        assert((before + seq![noise] + after).drop_first() =~= before.drop_first() + seq![noise]
            + after);
        assert((before + after).drop_first() =~= before.drop_first() + after);
        assert((before + seq![noise] + after)[0] == before[0]);
        assert((before + after)[0] == before[0]);
        lemma_foreign_line_inserted(next(h, before[0]), before.drop_first(), noise, after);
    }
}

/// Once a verdict is reached, no further line changes the state.
pub proof fn lemma_verdict_final(h: Harness, lines: Seq<Seq<char>>)
    requires
        !h.is_pending(),
    ensures
        run(h, lines) == h,
    decreases lines.len(),
{
    reveal(next);
    if lines.len() > 0 {
        lemma_verdict_final(h, lines.drop_first());
    }
}

impl Verdict {
    /// The process exit code for this verdict. `Pending` stands for a run
    /// that the watchdog ended.
    pub fn exit_code(&self) -> (r: i32)
        ensures
            r == (if *self == Verdict::Pass { 0i32 } else { 1i32 }),
    {
        match self {
            Verdict::Pass => 0,
            _ => 1,
        }
    }

    /// The diagnostic for this verdict. `Pending` stands for a run that the
    /// watchdog ended.
    pub fn message(&self) -> (r: String)
        ensures
            *self == Verdict::Pass ==> r@ == "test passed"@,
            *self == Verdict::Regression ==> r@ == "miscompilation detected"@,
            *self == Verdict::Malformed ==> r@ == "malformed test print, expected None or Some("@,
            *self == Verdict::Pending ==> r@ == "timeout, no test print on log after 20s"@,
    {
        match self {
            Verdict::Pass => String::from_str("test passed"),
            Verdict::Regression => String::from_str("miscompilation detected"),
            Verdict::Malformed => String::from_str("malformed test print, expected None or Some("),
            Verdict::Pending => String::from_str("timeout, no test print on log after 20s"),
        }
    }
}

} // verus!
