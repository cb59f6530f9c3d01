use vstd::prelude::*;
use crate::command::{control_room, is_named_move, parse_control_line, ControlCommand};

verus! {

/// Guard that lets the control-channel listener start once per process.
#[derive(Clone, Debug)]
pub struct ListenerState {
    pub running: bool,
}

/// The result of a start request made while the guard reads `running`,
/// and the guard's value afterwards.
pub open spec fn start_step(running: bool) -> (bool, bool) {
    (!running, true)
}

/// The results of `n` start requests in a row, from a guard that reads `running`.
pub open spec fn start_results(running: bool, n: nat) -> Seq<bool>
    decreases n,
{
    if n == 0 {
        Seq::empty()
    } else {
        seq![start_step(running).0] + start_results(start_step(running).1, (n - 1) as nat)
    }
}

impl ListenerState {
    pub fn new() -> (r: ListenerState)
        ensures
            !r.running,
    {
        ListenerState { running: false }
    }

    /// Checks and sets the guard in one step; true when the caller is the one
    /// that must start the listener.
    pub fn try_start(&mut self) -> (r: bool)
        ensures
            (r, final(self).running) == start_step(old(self).running),
    {
        let first = !self.running;
        self.running = true;
        first
    }
}

/// After the first start request the guard stays set.
pub proof fn lemma_started_stays(n: nat)
    ensures
        start_results(true, n) =~= Seq::new(n, |i: int| false),
    decreases n,
{
    if n > 0 {
        lemma_started_stays((n - 1) as nat);
    }
}

/// However many start requests a fresh guard receives, exactly one of them,
/// the first, starts the listener.
pub proof fn lemma_start_once(n: nat)
    requires
        n >= 1,
    ensures
        start_results(false, n).len() == n,
        start_results(false, n)[0],
        forall|i: int| 1 <= i < n ==> !start_results(false, n)[i],
{
    lemma_started_stays((n - 1) as nat);
    assert(start_results(false, n) =~= seq![true] + start_results(true, (n - 1) as nat));
}

/// What the surrounding loop reports back after performing an action.
#[derive(Clone, Debug)]
pub enum ListenerEvent {
    Started,
    ChannelChecked { exists: bool },
    ChannelCreated { ok: bool },
    ChannelOpened { ok: bool },
    LineRead { line: String },
    EndOfStream,
    ReadFailed,
    Dispatched,
    Waited,
}

/// What the surrounding loop is to do next.
#[derive(Clone, Debug)]
pub enum ListenerAction {
    /// Find out whether the control channel exists.
    CheckChannel,
    /// Create the control channel.
    CreateChannel,
    /// Open the control channel for reading.
    OpenChannel,
    /// Read the next line.
    ReadLine,
    /// Execute a command, contain its failure, and report back.
    Dispatch { command: ControlCommand },
    /// Pause before the channel is opened again; `failures` counts the
    /// failed opens in a row.
    Wait { failures: u32 },
}

/// The decisions of the control-channel listener.
#[derive(Clone, Debug)]
pub struct ListenerLoop {
    /// The member that control-channel commands act on.
    pub identity: String,
    /// Failed attempts to open the channel since the last success.
    pub failures: u32,
}

/// The failure count after an event.
pub open spec fn failures_after(failures: u32, e: ListenerEvent) -> u32 {
    match e {
        ListenerEvent::ChannelOpened { ok } => if ok {
            0
        } else if failures < u32::MAX {
            (failures + 1) as u32
        } else {
            failures
        },
        _ => failures,
    }
}

impl ListenerLoop {
    pub fn new(identity: String) -> (r: ListenerLoop)
        ensures
            r.identity@ == identity@,
            r.failures == 0,
    {
        ListenerLoop { identity, failures: 0 }
    }

    /// Decides the next action from the last event. The channel is created
    /// when absent and opened whatever became of the creation; each line that
    /// parses is dispatched and others are skipped; the end of the stream or a
    /// failure leads to a pause and then to a new check of the channel.
    pub fn step(&mut self, event: ListenerEvent) -> (r: ListenerAction)
        ensures
            final(self).identity == old(self).identity,
            final(self).failures == failures_after(old(self).failures, event),
            match event {
                ListenerEvent::Started | ListenerEvent::Waited => r is CheckChannel,
                ListenerEvent::ChannelChecked { exists } => if exists {
                    r is OpenChannel
                } else {
                    r is CreateChannel
                },
                ListenerEvent::ChannelCreated { .. } => r is OpenChannel,
                ListenerEvent::ChannelOpened { ok } => if ok {
                    r is ReadLine
                } else {
                    r == ListenerAction::Wait { failures: final(self).failures }
                },
                ListenerEvent::LineRead { line } => match control_room(line@) {
                    Some(room) => (r matches ListenerAction::Dispatch { command } && is_named_move(
                        command,
                        old(self).identity@,
                        room,
                    )),
                    None => r is ReadLine,
                },
                ListenerEvent::Dispatched => r is ReadLine,
                ListenerEvent::EndOfStream | ListenerEvent::ReadFailed => r == ListenerAction::Wait {
                    failures: old(self).failures,
                },
            },
    {
        match event {
            ListenerEvent::Started | ListenerEvent::Waited => ListenerAction::CheckChannel,
            ListenerEvent::ChannelChecked { exists } => if exists {
                ListenerAction::OpenChannel
            } else {
                ListenerAction::CreateChannel
            },
            ListenerEvent::ChannelCreated { .. } => ListenerAction::OpenChannel,
            ListenerEvent::ChannelOpened { ok } => {
                if ok {
                    self.failures = 0;
                    ListenerAction::ReadLine
                } else {
                    if self.failures < u32::MAX {
                        self.failures = self.failures + 1;
                    }
                    ListenerAction::Wait { failures: self.failures }
                }
            },
            ListenerEvent::LineRead { line } => match parse_control_line(&line, &self.identity) {
                Some(command) => ListenerAction::Dispatch { command },
                None => ListenerAction::ReadLine,
            },
            ListenerEvent::Dispatched => ListenerAction::ReadLine,
            ListenerEvent::EndOfStream | ListenerEvent::ReadFailed => ListenerAction::Wait {
                failures: self.failures,
            },
        }
    }
}

} // verus!
