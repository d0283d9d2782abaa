//! Supervised external processes: what the reader of each one records and
//! reports, and the panel that lists them beside an output preview.

use vstd::prelude::*;
use vstd::string::StringExecFns;
use crate::viewport::{last_index, Viewport};

verus! {

/// What the reader of a process observes.
pub enum ReaderInput {
    /// A chunk of output, already decoded.
    Output(String),
    /// The process ended: its exit code, or the signal that ended it.
    Exit { code: Option<i32>, signal: Option<i32>, success: bool },
}

/// A status event for the interface.
#[derive(Clone, Copy, Debug, PartialEq, Eq)]
pub enum ProcEvent {
    /// This many characters of output were read.
    Read(usize),
    /// The process finished with this status.
    Exited { status: i32, success: bool },
}

/// The status recorded for an ended process: its exit code, else the
/// signal that ended it, else -1.
pub open spec fn exit_status(code: Option<i32>, signal: Option<i32>) -> i32 {
    match code {
        Some(c) => c,
        None => match signal {
            Some(s) => s,
            None => -1i32,
        },
    }
}

/// Output, status and success flag of a process.
pub type ProcModel = (Seq<char>, Option<i32>, Option<bool>);

/// What one observation does to a process, and the event it reports.
/// Nothing is recorded or reported once the process has ended.
pub open spec fn reader_step(m: ProcModel, input: ReaderInput) -> (ProcModel, Option<ProcEvent>) {
    if m.1 is Some {
        (m, None)
    } else {
        match input {
            ReaderInput::Output(s) => ((m.0 + s@, m.1, m.2), Some(ProcEvent::Read(s@.len() as usize))),
            ReaderInput::Exit { code, signal, success } => {
                let st = exit_status(code, signal);
                ((m.0, Some(st), Some(success)), Some(ProcEvent::Exited { status: st, success }))
            },
        }
    }
}

/// The state after a run of observations, and the events reported.
pub open spec fn reader_run(m: ProcModel, inputs: Seq<ReaderInput>) -> (ProcModel, Seq<ProcEvent>)
    decreases inputs.len(),
{
    if inputs.len() == 0 {
        (m, Seq::empty())
    } else {
        let (m1, e) = reader_step(m, inputs[0]);
        let (m2, rest) = reader_run(m1, inputs.drop_first());
        (m2, match e {
            Some(ev) => seq![ev] + rest,
            None => rest,
        })
    }
}

/// A process that has ended stays as it is and reports nothing more.
pub proof fn lemma_ended_is_final(m: ProcModel, inputs: Seq<ReaderInput>)
    requires
        m.1 is Some,
    ensures
        reader_run(m, inputs) == (m, Seq::<ProcEvent>::empty()),
    decreases inputs.len(),
{
    if inputs.len() > 0 {
        lemma_ended_is_final(m, inputs.drop_first());
    }
}

/// Whatever a process's reader observes, it reports at most one exit, and
/// reports nothing after it; and if the process is seen to end, the last
/// report is its exit.
pub proof fn lemma_single_exit(m: ProcModel, inputs: Seq<ReaderInput>)
    ensures
        forall|i: int| 0 <= i < reader_run(m, inputs).1.len() - 1 ==> #[trigger] reader_run(m, inputs).1[i] is Read,
        m.1 is None && (exists|j: int| 0 <= j < inputs.len() && #[trigger] inputs[j] is Exit) ==> {
            let evs = reader_run(m, inputs).1;
            evs.len() > 0 && evs.last() is Exited
        },
    decreases inputs.len(),
{
    if inputs.len() > 0 {
        let (m1, e) = reader_step(m, inputs[0]);
        let rest = inputs.drop_first();
        lemma_single_exit(m1, rest);
        if m1.1 is Some {
            lemma_ended_is_final(m1, rest);
        }
        let evs = reader_run(m, inputs).1;
        let tail = reader_run(m1, rest).1;
        match e {
            Some(ev) => {
                assert(evs =~= seq![ev] + tail);
                assert forall|i: int| 0 <= i < evs.len() - 1 implies #[trigger] evs[i] is Read by {
                    if i > 0 {
                        assert(evs[i] == tail[i - 1]);
                    } else if ev is Exited {
                        assert(tail.len() == 0);
                    }
                }
                if m.1 is None && (exists|j: int| 0 <= j < inputs.len() && #[trigger] inputs[j] is Exit) {
                    let j = choose|j: int| 0 <= j < inputs.len() && #[trigger] inputs[j] is Exit;
                    if j > 0 && !(inputs[0] is Exit) {
                        assert(rest[j - 1] is Exit);
                    }
                }
            },
            None => {
                assert(evs == tail);
            },
        }
    }
}

/// One supervised process, as the interface knows it.
#[derive(Clone, Debug)]
pub struct Process {
    pub id: u64,
    pub cmd: String,
    pub pid: u32,
    pub output: String,
    pub status: Option<i32>,
    pub success: Option<bool>,
}

impl Process {
    pub open spec fn model(self) -> ProcModel {
        (self.output@, self.status, self.success)
    }

    /// A process that was just started: no output, no status yet.
    pub fn new(id: u64, cmd: String, pid: u32) -> (r: Process)
        ensures
            r.id == id,
            r.cmd == cmd,
            r.pid == pid,
            r.output@ == Seq::<char>::empty(),
            r.status is None,
            r.success is None,
    {
        Process { id, cmd, pid, output: String::new(), status: None, success: None }
    }

    /// A copy with every field kept.
    pub fn duplicate(&self) -> (r: Process)
        ensures
            r == *self,
    {
        Process {
            id: self.id,
            cmd: self.cmd.clone(),
            pid: self.pid,
            output: self.output.clone(),
            status: self.status,
            success: self.success,
        }
    }

    /// Whether the process still runs.
    pub fn is_running(&self) -> (r: bool)
        ensures
            r == (self.status is None),
    {
        self.status.is_none()
    }

    /// Records one observation of the reader and returns the event to
    /// report, if any.
    pub fn observe(&mut self, input: ReaderInput) -> (r: Option<ProcEvent>)
        ensures
            (final(self).model(), r) == reader_step(old(self).model(), input),
            final(self).id == old(self).id,
            final(self).cmd == old(self).cmd,
            final(self).pid == old(self).pid,
    {
        if self.status.is_some() {
            return None;
        }
        match input {
            ReaderInput::Output(s) => {
                let n: usize = s.unicode_len();
                self.output.append(s.as_str());
                Some(ProcEvent::Read(n))
            },
            ReaderInput::Exit { code, signal, success } => {
                let status: i32 = match code {
                    Some(c) => c,
                    None => match signal {
                        Some(sig) => sig,
                        None => -1,
                    },
                };
                self.status = Some(status);
                self.success = Some(success);
                Some(ProcEvent::Exited { status, success })
            },
        }
    }
}

/// The process panel: the list of processes, the cursor over it, and the
/// row whose output the preview shows.
#[derive(Debug)]
pub struct ProcView {
    pub procs: Vec<Process>,
    pub view: Viewport,
    pub viewing: Option<usize>,
    pub next_id: u64,
}

impl ProcView {
    pub open spec fn wf(self) -> bool {
        self.view.wf(self.procs@.len())
    }

    pub fn new(height: usize) -> (r: ProcView)
        requires
            height >= 1,
        ensures
            r.wf(),
            r.procs@.len() == 0,
            r.view == (Viewport { selection: 0, offset: 0, height }),
            r.viewing is None,
            r.next_id == 0,
    {
        ProcView { procs: Vec::new(), view: Viewport::new(height), viewing: None, next_id: 0 }
    }

    /// Adds a process that was just started, and returns the id its
    /// observations are to be fed under.
    pub fn run_proc(&mut self, cmd: String, pid: u32) -> (r: Option<u64>)
        requires
            old(self).wf(),
        ensures
            final(self).wf(),
            final(self).view == old(self).view,
            final(self).viewing == old(self).viewing,
            old(self).next_id < u64::MAX ==> r == Some(old(self).next_id)
                && final(self).procs@.len() == old(self).procs@.len() + 1
                && final(self).procs@.drop_last() == old(self).procs@
                && final(self).procs@.last().id == old(self).next_id
                && final(self).procs@.last().cmd == cmd
                && final(self).procs@.last().pid == pid
                && final(self).procs@.last().output@.len() == 0
                && final(self).procs@.last().status is None
                && final(self).next_id == old(self).next_id + 1,
            old(self).next_id == u64::MAX ==> r is None && final(self).procs@ == old(self).procs@,
    {
        if self.next_id == u64::MAX {
            return None;
        }
        let id: u64 = self.next_id;
        self.procs.push(Process::new(id, cmd, pid));
        self.next_id = id + 1;
        proof {
            assert(self.procs@.drop_last() =~= old(self).procs@);
        }
        Some(id)
    }

    /// Records an observation of the process with id `id`.
    pub fn feed(&mut self, id: u64, input: ReaderInput) -> (r: Option<ProcEvent>)
        requires
            old(self).wf(),
        ensures
            final(self).wf(),
            final(self).view == old(self).view,
            final(self).viewing == old(self).viewing,
            final(self).procs@.len() == old(self).procs@.len(),
            (forall|k: int| 0 <= k < old(self).procs@.len() ==> #[trigger] old(self).procs@[k].id != id)
                ==> r is None && final(self).procs@ == old(self).procs@,
            forall|k: int| 0 <= k < old(self).procs@.len() && old(self).procs@[k].id == id
                && (forall|j: int| 0 <= j < k ==> #[trigger] old(self).procs@[j].id != id)
                ==> (#[trigger] final(self).procs@[k]).model() == reader_step(old(self).procs@[k].model(), input).0
                    && r == reader_step(old(self).procs@[k].model(), input).1
                    && final(self).procs@ == old(self).procs@.update(k, final(self).procs@[k])
                    && final(self).procs@[k].id == old(self).procs@[k].id
                    && final(self).procs@[k].cmd == old(self).procs@[k].cmd
                    && final(self).procs@[k].pid == old(self).procs@[k].pid,
    {
        let mut k: usize = 0;
        while k < self.procs.len()
            invariant
                k <= self.procs@.len(),
                *self == *old(self),
                old(self).wf(),
                forall|j: int| 0 <= j < k ==> #[trigger] old(self).procs@[j].id != id,
            decreases self.procs@.len() - k,
        {
            if self.procs[k].id == id {
                let mut p = self.procs[k].duplicate();
                let e = p.observe(input);
                self.procs.set(k, p);
                return e;
            }
            k = k + 1;
        }
        None
    }
}

/// Number of processes in `procs` that still run.
pub open spec fn running_in(procs: Seq<Process>) -> nat
    decreases procs.len(),
{
    if procs.len() == 0 {
        0
    } else {
        running_in(procs.drop_last()) + if procs.last().status is None { 1nat } else { 0nat }
    }
}

impl ProcView {
    pub fn len(&self) -> (r: usize)
        ensures
            r == self.procs@.len(),
    {
        self.procs.len()
    }

    pub fn get_selection(&self) -> (r: usize)
        ensures
            r == self.view.selection,
    {
        self.view.selection
    }

    /// The process under the cursor.
    pub fn selected_proc(&self) -> (r: Option<&Process>)
        requires
            self.wf(),
        ensures
            self.procs@.len() == 0 ==> r is None,
            self.procs@.len() > 0 ==> r == Some(&self.procs@[self.view.selection as int]),
    {
        if self.procs.len() == 0 {
            None
        } else {
            Some(&self.procs[self.view.selection])
        }
    }

    /// The pid to send a termination request to: that of the process under
    /// the cursor, while it runs.
    pub fn kill_proc(&self) -> (r: Option<u32>)
        requires
            self.wf(),
        ensures
            r == if self.procs@.len() > 0 && self.procs@[self.view.selection as int].status is None {
                Some(self.procs@[self.view.selection as int].pid)
            } else {
                None::<u32>
            },
    {
        if self.procs.len() == 0 {
            return None;
        }
        let p = &self.procs[self.view.selection];
        if p.is_running() {
            Some(p.pid)
        } else {
            None
        }
    }

    /// Drops the process under the cursor from the panel, whatever became
    /// of the attempt to end it, and clears the preview.
    pub fn remove_proc(&mut self) -> (r: Option<Process>)
        requires
            old(self).wf(),
        ensures
            final(self).wf(),
            old(self).procs@.len() == 0 ==> r is None && *final(self) == *old(self),
            old(self).procs@.len() > 0 ==> r == Some(old(self).procs@[old(self).view.selection as int])
                && final(self).procs@ == old(self).procs@.remove(old(self).view.selection as int)
                && final(self).viewing is None,
    {
        if self.procs.len() == 0 {
            return None;
        }
        let sel: usize = self.view.selection;
        let p = self.procs.remove(sel);
        self.viewing = None;
        let n: usize = self.procs.len();
        if n == 0 {
            self.view.set_selection(0);
        } else if self.view.selection >= n {
            self.view.set_selection(n - 1);
        }
        Some(p)
    }

    /// Swaps the preview to the process under the cursor: returns a copy of
    /// its output so far when the preview showed another row.
    pub fn show_output(&mut self) -> (r: Option<String>)
        requires
            old(self).wf(),
        ensures
            final(self).procs == old(self).procs,
            final(self).view == old(self).view,
            final(self).wf(),
            old(self).procs@.len() == 0 || old(self).viewing == Some(old(self).view.selection)
                ==> r is None && *final(self) == *old(self),
            old(self).procs@.len() > 0 && old(self).viewing != Some(old(self).view.selection)
                ==> (r matches Some(o) && o@ == old(self).procs@[old(self).view.selection as int].output@)
                    && final(self).viewing == Some(old(self).view.selection),
    {
        if self.procs.len() == 0 {
            return None;
        }
        let sel: usize = self.view.selection;
        match self.viewing {
            Some(v) => {
                if v == sel {
                    return None;
                }
            },
            None => {},
        }
        let out = self.procs[sel].output.clone();
        self.viewing = Some(sel);
        Some(out)
    }

    pub fn move_up(&mut self)
        requires
            old(self).wf(),
        ensures
            final(self).wf(),
            final(self).view == old(self).view.up(),
            final(self).procs == old(self).procs,
            final(self).viewing == old(self).viewing,
    {
        proof {
            vstd::std_specs::vec::axiom_spec_len(&self.procs);
            crate::viewport::lemma_step_keeps_wf(self.view, self.procs@.len(), crate::viewport::Nav::Up);
        }
        self.view.move_up();
    }

    pub fn move_down(&mut self)
        requires
            old(self).wf(),
        ensures
            final(self).wf(),
            final(self).view == old(self).view.down(old(self).procs@.len()),
            final(self).procs == old(self).procs,
            final(self).viewing == old(self).viewing,
    {
        let n: usize = self.procs.len();
        proof {
            crate::viewport::lemma_step_keeps_wf(self.view, self.procs@.len(), crate::viewport::Nav::Down);
        }
        self.view.move_down(n);
    }

    /// How many of the processes still run.
    pub fn running_count(&self) -> (r: usize)
        ensures
            r == running_in(self.procs@),
    {
        let mut c: usize = 0;
        let mut i: usize = 0;
        while i < self.procs.len()
            invariant
                i <= self.procs@.len(),
                c == running_in(self.procs@.subrange(0, i as int)),
                c <= i,
            decreases self.procs@.len() - i,
        {
            proof {
                assert(self.procs@.subrange(0, i + 1).drop_last() =~= self.procs@.subrange(0, i as int));
            }
            if self.procs[i].is_running() {
                c = c + 1;
            }
            i = i + 1;
        }
        proof {
            assert(self.procs@.subrange(0, i as int) =~= self.procs@);
        }
        c
    }
}

pub open spec fn digit_char(d: nat) -> char {
    seq!['0', '1', '2', '3', '4', '5', '6', '7', '8', '9'][d as int]
}

/// The decimal digits of `n`, most significant first.
pub open spec fn digits(n: nat) -> Seq<char>
    decreases n,
{
    if n < 10 {
        seq![digit_char(n)]
    } else {
        digits(n / 10).push(digit_char(n % 10))
    }
}

/// `i` written in decimal, with a leading minus when negative.
pub open spec fn decimal(i: int) -> Seq<char> {
    if i < 0 { seq!['-'] + digits((-i) as nat) } else { digits(i as nat) }
}

fn digit_str(d: u64) -> (r: &'static str)
    requires
        d < 10,
    ensures
        r@ == seq![digit_char(d as nat)],
{
    proof {
        reveal_strlit("0");
        reveal_strlit("1");
        reveal_strlit("2");
        reveal_strlit("3");
        reveal_strlit("4");
        reveal_strlit("5");
        reveal_strlit("6");
        reveal_strlit("7");
        reveal_strlit("8");
        reveal_strlit("9");
    }
    let r = match d {
        0 => "0",
        1 => "1",
        2 => "2",
        3 => "3",
        4 => "4",
        5 => "5",
        6 => "6",
        7 => "7",
        8 => "8",
        _ => "9",
    };
    assert(r@ =~= seq![digit_char(d as nat)]);
    r
}

/// Appends the decimal digits of `n` to `out`.
pub fn append_digits(out: &mut String, n: u64)
    ensures
        final(out)@ == old(out)@ + digits(n as nat),
    decreases n,
{
    if n >= 10 {
        append_digits(out, n / 10);
    }
    out.append(digit_str(n % 10));
    proof {
        if n >= 10 {
            assert(old(out)@ + digits(n as nat) =~= old(out)@ + digits((n / 10) as nat) + seq![digit_char((n % 10) as nat)]);
        } else {
            assert(digits(n as nat) == seq![digit_char(n as nat)]);
        }
    }
}

/// The status cell of a row: the exit status once known, else the pid in
/// angle brackets; and whether it is drawn as a failure.
pub fn status_cell(p: &Process) -> (r: (String, bool))
    ensures
        r.0@ == match p.status {
            Some(st) => decimal(st as int),
            None => seq!['<'] + digits(p.pid as nat) + seq!['>'],
        },
        r.1 == (p.success == Some(false)),
{
    proof {
        reveal_strlit("-");
        reveal_strlit("<");
        reveal_strlit(">");
    }
    let mut out = String::new();
    match p.status {
        Some(st) => {
            if st < 0 {
                out.append("-");
                let m: i64 = -(st as i64);
                append_digits(&mut out, m as u64);
            } else {
                append_digits(&mut out, st as u64);
            }
        },
        None => {
            out.append("<");
            append_digits(&mut out, p.pid as u64);
            out.append(">");
        },
    }
    let failed = match p.success {
        Some(b) => !b,
        None => false,
    };
    (out, failed)
}

/// A key action of the process panel.
#[derive(Clone, Copy, Debug, PartialEq, Eq)]
pub enum ProcAction {
    Close,
    Remove,
    Kill,
    Up,
    Down,
    Preview(PreviewOp),
}

/// An operation on the output preview.
#[derive(Clone, Copy, Debug, PartialEq, Eq)]
pub enum PreviewOp {
    ToggleFollow,
    ScrollDown,
    ScrollUp,
    PageDown,
    PageUp,
    ScrollBottom,
    ScrollTop,
}

/// What the caller carries out after a key action.
#[derive(Clone, Copy, Debug, PartialEq, Eq)]
pub enum ProcEffect {
    Nothing,
    /// Close the panel.
    Close,
    /// Send a termination request to this pid.
    Kill(u32),
    /// The row of the process `id` was removed; `kill` names its pid while
    /// it still ran.
    Removed { id: u64, kill: Option<u32> },
    /// Apply this operation to the preview.
    Preview(PreviewOp),
}

impl ProcView {
    /// The pid of the process under the cursor while it runs.
    pub open spec fn kill_target(self) -> Option<u32> {
        if self.procs@.len() > 0 && self.procs@[self.view.selection as int].status is None {
            Some(self.procs@[self.view.selection as int].pid)
        } else {
            None
        }
    }

    /// Carries out a key action on the list and says what is left to do.
    pub fn do_action(&mut self, a: ProcAction) -> (r: ProcEffect)
        requires
            old(self).wf(),
        ensures
            final(self).wf(),
            match a {
                ProcAction::Close => r == ProcEffect::Close && *final(self) == *old(self),
                ProcAction::Kill => *final(self) == *old(self) && r == match old(self).kill_target() {
                    Some(pid) => ProcEffect::Kill(pid),
                    None => ProcEffect::Nothing,
                },
                ProcAction::Remove => if old(self).procs@.len() == 0 {
                    r == ProcEffect::Nothing && *final(self) == *old(self)
                } else {
                    r == (ProcEffect::Removed {
                        id: old(self).procs@[old(self).view.selection as int].id,
                        kill: old(self).kill_target(),
                    }) && final(self).procs@ == old(self).procs@.remove(old(self).view.selection as int)
                        && final(self).viewing is None
                },
                ProcAction::Up => r == ProcEffect::Nothing && final(self).view == old(self).view.up()
                    && final(self).procs == old(self).procs && final(self).viewing == old(self).viewing,
                ProcAction::Down => r == ProcEffect::Nothing && final(self).view == old(self).view.down(old(self).procs@.len())
                    && final(self).procs == old(self).procs && final(self).viewing == old(self).viewing,
                ProcAction::Preview(op) => r == ProcEffect::Preview(op) && *final(self) == *old(self),
            },
    {
        match a {
            ProcAction::Close => ProcEffect::Close,
            ProcAction::Kill => match self.kill_proc() {
                Some(pid) => ProcEffect::Kill(pid),
                None => ProcEffect::Nothing,
            },
            ProcAction::Remove => {
                let kill = self.kill_proc();
                match self.remove_proc() {
                    Some(p) => ProcEffect::Removed { id: p.id, kill },
                    None => ProcEffect::Nothing,
                }
            },
            ProcAction::Up => {
                self.move_up();
                ProcEffect::Nothing
            },
            ProcAction::Down => {
                self.move_down();
                ProcEffect::Nothing
            },
            ProcAction::Preview(op) => ProcEffect::Preview(op),
        }
    }
}

} // verus!
