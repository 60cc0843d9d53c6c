//! The data carried over the message channel: log events, their severities,
//! and the explicit end-of-stream marker.

use vstd::prelude::*;

verus! {

/// Severity of a log event reported by the launched application.
///
/// For exit-code purposes only `Error` is terminal-signaling; `Warning`
/// increments the warning count, and `Print` and `Info` each increment the
/// print count only — none of the three affects the exit code.
#[derive(Clone, Copy, Debug, PartialEq, Eq, Structural)]
pub enum OutputLevel {
    Print,
    Info,
    Warning,
    Error,
}

/// A log event: a severity and a text body, carried verbatim (byte for byte)
/// from the launched application through the bridge to the orchestrator.
#[derive(Clone, Debug)]
pub struct LogEvent {
    pub level: OutputLevel,
    pub body: Vec<u8>,
}

/// Mathematical model of a [`LogEvent`].
pub struct LogEventView {
    pub level: OutputLevel,
    pub body: Seq<u8>,
}

impl View for LogEvent {
    type V = LogEventView;

    open spec fn view(&self) -> LogEventView {
        LogEventView { level: self.level, body: self.body@ }
    }
}

/// Why the stream of events ended.
#[derive(Clone, Copy, Debug, PartialEq, Eq, Structural)]
pub enum EndReason {
    /// The client sent an explicit finish frame.
    Finished,
    /// The client closed the connection without a finish frame; treated as
    /// implicit completion, deliberately lenient.
    Disconnected,
    /// No valid client connected within the startup timeout; fatal.
    NoConnection,
}

/// One item on the message channel: a log event, or the single end marker
/// that concludes the run.
#[derive(Clone, Debug)]
pub enum ChannelItem {
    Event(LogEvent),
    End(EndReason),
}

/// Mathematical model of a [`ChannelItem`].
pub enum ChannelItemView {
    Event(LogEventView),
    End(EndReason),
}

impl View for ChannelItem {
    type V = ChannelItemView;

    open spec fn view(&self) -> ChannelItemView {
        match self {
            ChannelItem::Event(e) => ChannelItemView::Event(e@),
            ChannelItem::End(r) => ChannelItemView::End(*r),
        }
    }
}

} // verus!
