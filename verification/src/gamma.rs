//! The gamma ramp that goes to the display hardware, and the steps by which
//! it is applied to one monitor.
//!
//! A ramp holds one table of 256 entries three times over, for red, green
//! and blue: the channels are not calibrated apart. Applying a ramp opens a
//! device context for the monitor, pushes the ramp, and closes the context
//! again whether the push was accepted or not.

use crate::monitor::MonitorInfo;
use crate::text::{decimal, decimal_string};
use vstd::prelude::*;

verus! {

/// The number of entries of one colour channel.
pub const CHANNEL_ENTRIES: usize = 256;

/// The number of entries of a whole ramp: three channels.
pub const RAMP_ENTRIES: usize = 768;

/// Whether `table` holds one channel three times over: it has 768 entries,
/// and each is the entry of the first channel at the same place.
pub open spec fn replicated(table: Seq<u16>) -> bool {
    &&& table.len() == RAMP_ENTRIES
    &&& forall|i: int| 0 <= i < RAMP_ENTRIES ==> #[trigger] table[i] == table[i % 256]
}

/// A ramp for the three colour channels of a display.
#[derive(Debug)]
pub struct GammaRamp {
    table: [u16; 768],
}

impl GammaRamp {
    #[verifier::type_invariant]
    spec fn inv(self) -> bool {
        replicated(self.table@)
    }

    /// The 768 entries of the ramp: red, then green, then blue.
    pub closed spec fn view(&self) -> Seq<u16> {
        self.table@
    }

    /// The ramp that holds `channel` for each of the three colours.
    pub fn from_channel(channel: &[u16; 256]) -> (ramp: Self)
        ensures
            ramp@ == channel@ + channel@ + channel@,
            replicated(ramp@),
    {
        let mut table = [0u16; 768];
        let mut i: usize = 0;
        while i < 256
            invariant
                i <= 256,
                forall|k: int|
                    0 <= k < i ==> table@[k] == channel@[k] && table@[k + 256] == channel@[k]
                        && table@[k + 512] == channel@[k],
            decreases 256 - i,
        {
            let value = channel[i];
            table[i] = value;
            table[i + 256] = value;
            table[i + 512] = value;
            i += 1;
        }
        assert(table@ =~= channel@ + channel@ + channel@);
        GammaRamp { table }
    }

    /// The ramp as the hardware interface takes it. Entry `i`, entry
    /// `i + 256` and entry `i + 512` are the same for every `i` below 256.
    pub fn table(&self) -> (table: &[u16; 768])
        ensures
            table@ == self@,
            replicated(table@),
    {
        proof {
            use_type_invariant(self);
        }
        &self.table
    }
}

/// Why a ramp could not be applied.
#[derive(Debug)]
pub struct GammaError(String);

impl GammaError {
    /// The cause, in words.
    pub closed spec fn reason(&self) -> Seq<char> {
        self.0@
    }

    /// An error with the given cause.
    pub fn new(reason: String) -> (error: Self)
        ensures
            error.reason() == reason@,
    {
        GammaError(reason)
    }

    /// The error as one line of text.
    pub fn to_string(&self) -> (line: String)
        ensures
            line@ == "Gamma control error: "@ + self.reason(),
    {
        "Gamma control error: ".to_string().concat(self.0.as_str())
    }
}

/// Where the application of a ramp stands.
#[derive(Debug, Clone, Copy, PartialEq, Eq, Structural)]
pub enum ApplyPhase {
    /// A device context for the monitor is to be opened.
    Opening,
    /// The context is open; the ramp is to be pushed.
    Pushing,
    /// The ramp was pushed and was accepted or not; the context is to be
    /// closed.
    Closing { accepted: bool },
    /// The context is closed after a rejected push; the system's error code
    /// is to be read.
    Reporting,
    /// Done: the ramp is in effect.
    Applied,
    /// Done: no device context could be had for the monitor.
    NoContext,
    /// Done: the system rejected the ramp, with this error code.
    Rejected { code: u32 },
}

/// What the system answered to the last command.
#[derive(Debug, Clone, Copy, PartialEq, Eq, Structural)]
pub enum ApplyEvent {
    ContextOpened,
    ContextUnavailable,
    RampAccepted,
    RampRejected,
    ContextClosed,
    ErrorCode(u32),
}

/// What is to be done next.
#[derive(Debug)]
pub enum ApplyCommand {
    /// Open a device context for the monitor's device name.
    OpenContext,
    /// Push the ramp through the open context.
    PushRamp,
    /// Close the context.
    CloseContext,
    /// Read the system's last error code.
    ReadErrorCode,
    /// Nothing is left to do; this is the result.
    Finish(Result<(), GammaError>),
}

/// An `ApplyCommand` with the cause of a failure as a character sequence.
pub enum CommandView {
    OpenContext,
    PushRamp,
    CloseContext,
    ReadErrorCode,
    Succeed,
    Fail(Seq<char>),
}

impl View for ApplyCommand {
    type V = CommandView;

    open spec fn view(&self) -> CommandView {
        match self {
            ApplyCommand::OpenContext => CommandView::OpenContext,
            ApplyCommand::PushRamp => CommandView::PushRamp,
            ApplyCommand::CloseContext => CommandView::CloseContext,
            ApplyCommand::ReadErrorCode => CommandView::ReadErrorCode,
            ApplyCommand::Finish(Ok(_)) => CommandView::Succeed,
            ApplyCommand::Finish(Err(error)) => CommandView::Fail(error.reason()),
        }
    }
}

/// The phase that follows `phase` when the system answers `event`. An answer
/// that the phase does not wait for changes nothing.
pub open spec fn next_phase(phase: ApplyPhase, event: ApplyEvent) -> ApplyPhase {
    match (phase, event) {
        (ApplyPhase::Opening, ApplyEvent::ContextOpened) => ApplyPhase::Pushing,
        (ApplyPhase::Opening, ApplyEvent::ContextUnavailable) => ApplyPhase::NoContext,
        (ApplyPhase::Pushing, ApplyEvent::RampAccepted) => ApplyPhase::Closing { accepted: true },
        (ApplyPhase::Pushing, ApplyEvent::RampRejected) => ApplyPhase::Closing { accepted: false },
        (ApplyPhase::Closing { accepted: true }, ApplyEvent::ContextClosed) => ApplyPhase::Applied,
        (ApplyPhase::Closing { accepted: false }, ApplyEvent::ContextClosed) => ApplyPhase::Reporting,
        (ApplyPhase::Reporting, ApplyEvent::ErrorCode(code)) => ApplyPhase::Rejected { code },
        _ => phase,
    }
}

/// The command that `phase` calls for, for the monitor labelled `name`.
pub open spec fn command_of(phase: ApplyPhase, name: Seq<char>) -> CommandView {
    match phase {
        ApplyPhase::Opening => CommandView::OpenContext,
        ApplyPhase::Pushing => CommandView::PushRamp,
        ApplyPhase::Closing { .. } => CommandView::CloseContext,
        ApplyPhase::Reporting => CommandView::ReadErrorCode,
        ApplyPhase::Applied => CommandView::Succeed,
        ApplyPhase::NoContext => CommandView::Fail("Failed to create DC for monitor: "@ + name),
        ApplyPhase::Rejected { code } => CommandView::Fail(
            "Failed to set gamma ramp for "@ + name + ": WIN32_ERROR("@ + decimal(code as nat)
                + ")"@,
        ),
    }
}

/// Whether a device context is open in `phase`.
pub open spec fn holds_context(phase: ApplyPhase) -> bool {
    phase is Pushing || phase is Closing
}

/// Whether `phase` is one of the three in which nothing is left to do.
pub open spec fn is_done(phase: ApplyPhase) -> bool {
    phase is Applied || phase is NoContext || phase is Rejected
}

/// An open device context is given up only by closing it: whatever the
/// system answers, a phase with an open context is followed by one with an
/// open context, unless the answer is that the context was closed.
pub proof fn lemma_context_closed_on_every_path(phase: ApplyPhase, event: ApplyEvent)
    requires
        holds_context(phase),
        !holds_context(next_phase(phase, event)),
    ensures
        event == ApplyEvent::ContextClosed,
        phase is Closing,
{
}

/// Once done, an application stays as it is.
pub proof fn lemma_done_is_final(phase: ApplyPhase, event: ApplyEvent)
    requires
        is_done(phase),
    ensures
        next_phase(phase, event) == phase,
{
}

/// One application of a ramp to one monitor.
#[derive(Debug)]
pub struct ApplySession {
    phase: ApplyPhase,
    name: String,
}

impl ApplySession {
    /// The phase the application is in.
    pub closed spec fn phase(&self) -> ApplyPhase {
        self.phase
    }

    /// The label of the monitor, as failures name it.
    pub closed spec fn monitor_name(&self) -> Seq<char> {
        self.name@
    }

    /// An application to `monitor` that has yet to open the device context.
    pub fn begin(monitor: &MonitorInfo) -> (session: Self)
        ensures
            session.phase() == ApplyPhase::Opening,
            session.monitor_name() == monitor.name@,
    {
        ApplySession { phase: ApplyPhase::Opening, name: monitor.name.clone() }
    }

    /// What is to be done now.
    pub fn command(&self) -> (command: ApplyCommand)
        ensures
            command@ == command_of(self.phase(), self.monitor_name()),
    {
        match self.phase {
            ApplyPhase::Opening => ApplyCommand::OpenContext,
            ApplyPhase::Pushing => ApplyCommand::PushRamp,
            ApplyPhase::Closing { .. } => ApplyCommand::CloseContext,
            ApplyPhase::Reporting => ApplyCommand::ReadErrorCode,
            ApplyPhase::Applied => ApplyCommand::Finish(Ok(())),
            ApplyPhase::NoContext => {
                let reason = "Failed to create DC for monitor: ".to_string().concat(
                    self.name.as_str(),
                );
                ApplyCommand::Finish(Err(GammaError::new(reason)))
            },
            ApplyPhase::Rejected { code } => {
                let number = decimal_string(code as u128);
                let reason = "Failed to set gamma ramp for ".to_string().concat(
                    self.name.as_str(),
                ).concat(": WIN32_ERROR(").concat(number.as_str()).concat(")");
                ApplyCommand::Finish(Err(GammaError::new(reason)))
            },
        }
    }

    /// Takes the system's answer to the last command and says what is to be
    /// done next.
    pub fn advance(&mut self, event: ApplyEvent) -> (command: ApplyCommand)
        ensures
            final(self).phase() == next_phase(old(self).phase(), event),
            final(self).monitor_name() == old(self).monitor_name(),
            command@ == command_of(final(self).phase(), final(self).monitor_name()),
    {
        let next = match (self.phase, event) {
            (ApplyPhase::Opening, ApplyEvent::ContextOpened) => ApplyPhase::Pushing,
            (ApplyPhase::Opening, ApplyEvent::ContextUnavailable) => ApplyPhase::NoContext,
            (ApplyPhase::Pushing, ApplyEvent::RampAccepted) => ApplyPhase::Closing {
                accepted: true,
            },
            (ApplyPhase::Pushing, ApplyEvent::RampRejected) => ApplyPhase::Closing {
                accepted: false,
            },
            (ApplyPhase::Closing { accepted: true }, ApplyEvent::ContextClosed) => {
                ApplyPhase::Applied
            },
            (ApplyPhase::Closing { accepted: false }, ApplyEvent::ContextClosed) => {
                ApplyPhase::Reporting
            },
            (ApplyPhase::Reporting, ApplyEvent::ErrorCode(code)) => ApplyPhase::Rejected { code },
            (phase, _) => phase,
        };
        self.phase = next;
        self.command()
    }
}

} // verus!
