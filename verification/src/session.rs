//! The host/companion session: how each inbound frame moves the session along
//! and what the companion answers.
//!
//! A session starts uninitialised. The host must first send `init`; after it,
//! `settings` and `message` frames are accepted and `shutdown` ends the
//! session. A frame of another protocol version, a frame out of order, or a
//! refresh interval other than `1s`, `2s` or `5s` ends the session with an
//! error frame.

use vstd::prelude::*;

use crate::frame::PROTOCOL_VERSION;
use crate::text::{decimal_string, digit_char, spec_decimal, str_equal};

verus! {

/// Sampling interval, in seconds, before the host has chosen one.
pub const DEFAULT_INTERVAL_SECS: u64 = 1;

/// What the session reads of a frame's layer settings.
#[derive(Debug, Clone)]
pub struct LayerSettings {
    /// The `refreshInterval` entry, when it is present and a string.
    pub refresh_interval: Option<String>,
}

/// A frame sent by the host.
#[derive(Debug, Clone)]
pub enum HostFrame {
    Init { v: u32, layer_settings: LayerSettings },
    Settings { v: u32, layer_settings: LayerSettings },
    Message { v: u32 },
    Shutdown { v: u32 },
}

/// Error classes that end a session.
#[derive(Debug, Clone, Copy, PartialEq, Eq, Structural)]
pub enum ErrorCode {
    /// The host spoke another protocol version.
    ProtocolVersion,
    /// A frame arrived that the session's state does not admit.
    ProtocolState,
    /// The requested refresh interval is missing or unknown.
    SettingsInvalid,
}

/// What the companion does in answer to a frame.
#[derive(Debug, Clone)]
pub enum Directive {
    /// Apply the interval, answer `ready` and start sampling.
    Start { interval_secs: u64 },
    /// Apply the new interval to the running sampler.
    Reconfigure { interval_secs: u64 },
    /// Nothing to do; keep reading frames.
    Continue,
    /// End the session without an answer.
    Shutdown,
    /// Answer with an error frame and end the session.
    Fail { code: ErrorCode, message: String },
}

/// [`Directive`] with its message taken as a character sequence.
pub enum DirectiveView {
    Start { interval_secs: u64 },
    Reconfigure { interval_secs: u64 },
    Continue,
    Shutdown,
    Fail { code: ErrorCode, message: Seq<char> },
}

impl View for Directive {
    type V = DirectiveView;

    open spec fn view(&self) -> DirectiveView {
        match self {
            Directive::Start { interval_secs } => DirectiveView::Start { interval_secs: *interval_secs },
            Directive::Reconfigure { interval_secs } => DirectiveView::Reconfigure {
                interval_secs: *interval_secs,
            },
            Directive::Continue => DirectiveView::Continue,
            Directive::Shutdown => DirectiveView::Shutdown,
            Directive::Fail { code, message } => DirectiveView::Fail { code: *code, message: message@ },
        }
    }
}

/// A frame that the session itself sends to the host.
#[derive(Debug, Clone)]
pub enum ControlFrame {
    Ready { v: u32 },
    Error { v: u32, message: String, code: ErrorCode },
}

/// State of a session.
#[derive(Debug, Clone, Copy, PartialEq, Eq, Structural)]
pub struct Session {
    /// An `init` frame has been accepted.
    pub initialized: bool,
    /// The session has ended; no further frame is read.
    pub ended: bool,
}

/// The protocol version that a host frame carries.
pub open spec fn spec_version(frame: HostFrame) -> u32 {
    match frame {
        HostFrame::Init { v, .. } => v,
        HostFrame::Settings { v, .. } => v,
        HostFrame::Message { v } => v,
        HostFrame::Shutdown { v } => v,
    }
}

/// The interval, in seconds, that a `refreshInterval` entry requests.
pub open spec fn spec_interval(setting: Option<Seq<char>>) -> Option<u64> {
    match setting {
        Some(s) => if s == seq!['1', 's'] {
            Some(1u64)
        } else if s == seq!['2', 's'] {
            Some(2u64)
        } else if s == seq!['5', 's'] {
            Some(5u64)
        } else {
            None
        },
        None => None,
    }
}

/// Text of the protocol-version error for version `v`.
pub open spec fn version_message(v: u32) -> Seq<char> {
    "unsupported protocol version "@ + spec_decimal(v as nat)
}

/// Text of the lifecycle error.
pub open spec fn state_message() -> Seq<char> {
    "invalid companion lifecycle frame"@
}

/// Text of the settings error.
pub open spec fn settings_message() -> Seq<char> {
    "refreshInterval must be 1s, 2s or 5s"@
}

/// The wire name of an error code.
pub open spec fn code_text(code: ErrorCode) -> Seq<char> {
    match code {
        ErrorCode::ProtocolVersion => "protocol-version"@,
        ErrorCode::ProtocolState => "protocol-state"@,
        ErrorCode::SettingsInvalid => "settings-invalid"@,
    }
}

/// The answer to a settings request: the interval, or the settings error.
pub open spec fn settings_directive(settings: LayerSettings, reconfigure: bool) -> DirectiveView {
    match spec_interval(settings.refresh_interval.deep_view()) {
        Some(s) => if reconfigure {
            DirectiveView::Reconfigure { interval_secs: s }
        } else {
            DirectiveView::Start { interval_secs: s }
        },
        None => DirectiveView::Fail { code: ErrorCode::SettingsInvalid, message: settings_message() },
    }
}

/// What a session, initialised or not, answers to `frame`.
pub open spec fn spec_directive(initialized: bool, frame: HostFrame) -> DirectiveView {
    let lifecycle = DirectiveView::Fail { code: ErrorCode::ProtocolState, message: state_message() };
    if spec_version(frame) != PROTOCOL_VERSION {
        DirectiveView::Fail {
            code: ErrorCode::ProtocolVersion,
            message: version_message(spec_version(frame)),
        }
    } else {
        match frame {
            HostFrame::Init { layer_settings, .. } => if !initialized {
                settings_directive(layer_settings, false)
            } else {
                lifecycle
            },
            HostFrame::Settings { layer_settings, .. } => if initialized {
                settings_directive(layer_settings, true)
            } else {
                lifecycle
            },
            HostFrame::Message { .. } => if initialized {
                DirectiveView::Continue
            } else {
                lifecycle
            },
            HostFrame::Shutdown { .. } => DirectiveView::Shutdown,
        }
    }
}

/// The session state after answering with `d`.
pub open spec fn spec_next(s: Session, d: DirectiveView) -> Session {
    Session {
        initialized: s.initialized || d is Start,
        ended: d is Shutdown || d is Fail,
    }
}

/// The interval, in seconds, that a `refreshInterval` entry requests; `None`
/// when the entry is missing or names no known interval.
pub fn refresh_interval_secs(setting: &Option<String>) -> (r: Option<u64>)
    ensures
        r == spec_interval(setting.deep_view()),
{
    proof {
        reveal_strlit("1s");
        reveal_strlit("2s");
        reveal_strlit("5s");
        assert("1s"@ =~= seq!['1', 's']);
        assert("2s"@ =~= seq!['2', 's']);
        assert("5s"@ =~= seq!['5', 's']);
    }
    match setting {
        Some(s) => {
            if str_equal(s.as_str(), "1s") {
                Some(1)
            } else if str_equal(s.as_str(), "2s") {
                Some(2)
            } else if str_equal(s.as_str(), "5s") {
                Some(5)
            } else {
                None
            }
        },
        None => None,
    }
}

impl ErrorCode {
    /// The wire name of the code.
    pub fn text(&self) -> (s: String)
        ensures
            s@ == code_text(*self),
    {
        match self {
            ErrorCode::ProtocolVersion => String::from_str("protocol-version"),
            ErrorCode::ProtocolState => String::from_str("protocol-state"),
            ErrorCode::SettingsInvalid => String::from_str("settings-invalid"),
        }
    }
}

impl HostFrame {
    /// The protocol version that the frame carries.
    pub fn version(&self) -> (v: u32)
        ensures
            v == spec_version(*self),
    {
        match self {
            HostFrame::Init { v, .. } => *v,
            HostFrame::Settings { v, .. } => *v,
            HostFrame::Message { v } => *v,
            HostFrame::Shutdown { v } => *v,
        }
    }
}

/// The answer to a settings request.
fn settings_answer(settings: &LayerSettings, reconfigure: bool) -> (d: Directive)
    ensures
        d@ == settings_directive(*settings, reconfigure),
{
    match refresh_interval_secs(&settings.refresh_interval) {
        Some(s) => if reconfigure {
            Directive::Reconfigure { interval_secs: s }
        } else {
            Directive::Start { interval_secs: s }
        },
        None => Directive::Fail {
            code: ErrorCode::SettingsInvalid,
            message: String::from_str("refreshInterval must be 1s, 2s or 5s"),
        },
    }
}

fn lifecycle_error() -> (d: Directive)
    ensures
        d@ == (DirectiveView::Fail { code: ErrorCode::ProtocolState, message: state_message() }),
{
    Directive::Fail {
        code: ErrorCode::ProtocolState,
        message: String::from_str("invalid companion lifecycle frame"),
    }
}

impl Session {
    /// A session that has not yet received `init`.
    pub fn new() -> (s: Session)
        ensures
            !s.initialized,
            !s.ended,
    {
        Session { initialized: false, ended: false }
    }

    /// Answers one host frame and advances the session.
    pub fn handle(&mut self, frame: &HostFrame) -> (d: Directive)
        requires
            !old(self).ended,
        ensures
            d@ == spec_directive(old(self).initialized, *frame),
            *final(self) == spec_next(*old(self), d@),
            final(self).ended <==> (d@ is Shutdown || d@ is Fail),
            final(self).initialized <==> (old(self).initialized || d@ is Start),
            (d@ is Reconfigure || d@ is Continue) ==> !final(self).ended
                && final(self).initialized,
    {
        let version: u32 = frame.version();
        let d = if version != PROTOCOL_VERSION {
            let mut message = String::from_str("unsupported protocol version ");
            let digits = decimal_string(version);
            message.append(digits.as_str());
            Directive::Fail { code: ErrorCode::ProtocolVersion, message }
        } else {
            match frame {
                HostFrame::Init { layer_settings, .. } => if !self.initialized {
                    settings_answer(layer_settings, false)
                } else {
                    lifecycle_error()
                },
                HostFrame::Settings { layer_settings, .. } => if self.initialized {
                    settings_answer(layer_settings, true)
                } else {
                    lifecycle_error()
                },
                HostFrame::Message { .. } => if self.initialized {
                    Directive::Continue
                } else {
                    lifecycle_error()
                },
                HostFrame::Shutdown { .. } => Directive::Shutdown,
            }
        };
        let started = match &d {
            Directive::Start { .. } => true,
            _ => false,
        };
        let ends = match &d {
            Directive::Shutdown => true,
            Directive::Fail { .. } => true,
            _ => false,
        };
        self.initialized = self.initialized || started;
        self.ended = ends;
        d
    }
}

impl Directive {
    /// The frame that the companion sends to the host in answer, if any:
    /// `ready` when sampling starts, an error frame when the session fails.
    pub fn reply(&self) -> (r: Option<ControlFrame>)
        ensures
            match self@ {
                DirectiveView::Start { .. } => r matches Some(ControlFrame::Ready { v })
                    && v == PROTOCOL_VERSION,
                DirectiveView::Fail { code, message } => r matches Some(
                    ControlFrame::Error { v, message: m, code: c },
                ) && v == PROTOCOL_VERSION && m@ == message && c == code,
                _ => r is None,
            },
    {
        match self {
            Directive::Start { .. } => Some(ControlFrame::Ready { v: PROTOCOL_VERSION }),
            Directive::Fail { code, message } => Some(
                ControlFrame::Error { v: PROTOCOL_VERSION, message: message.clone(), code: *code },
            ),
            _ => None,
        }
    }
}

/// A frame of any other protocol version ends the session with the
/// protocol-version error that names the version, whatever the state.
pub proof fn lemma_version_mismatch_fails(s: Session, frame: HostFrame)
    requires
        spec_version(frame) != PROTOCOL_VERSION,
    ensures
        spec_directive(s.initialized, frame) == (DirectiveView::Fail {
            code: ErrorCode::ProtocolVersion,
            message: version_message(spec_version(frame)),
        }),
        spec_next(s, spec_directive(s.initialized, frame)).ended,
{
}

/// Before `init`, a `settings` or `message` frame ends the session with the
/// lifecycle error.
pub proof fn lemma_init_comes_first(s: Session, frame: HostFrame)
    requires
        !s.initialized,
        spec_version(frame) == PROTOCOL_VERSION,
        frame is Settings || frame is Message,
    ensures
        spec_directive(s.initialized, frame) == (DirectiveView::Fail {
            code: ErrorCode::ProtocolState,
            message: state_message(),
        }),
        spec_next(s, spec_directive(s.initialized, frame)).ended,
{
}

/// Sampling starts at most once: after an accepted `init`, a second `init`
/// ends the session with the lifecycle error.
pub proof fn lemma_init_only_once(s: Session, first: HostFrame, second: HostFrame)
    requires
        spec_directive(s.initialized, first) is Start,
        second is Init,
        spec_version(second) == PROTOCOL_VERSION,
    ensures
        spec_next(s, spec_directive(s.initialized, first)).initialized,
        !spec_next(s, spec_directive(s.initialized, first)).ended,
        spec_directive(spec_next(s, spec_directive(s.initialized, first)).initialized, second)
            == (DirectiveView::Fail { code: ErrorCode::ProtocolState, message: state_message() }),
{
}

/// Once initialised, a session stays initialised.
pub proof fn lemma_initialized_stays(s: Session, frame: HostFrame)
    requires
        s.initialized,
    ensures
        spec_next(s, spec_directive(s.initialized, frame)).initialized,
{
}

/// `shutdown` of the right version ends the session without an answer, in any state.
pub proof fn lemma_shutdown_ends(s: Session, frame: HostFrame)
    requires
        frame is Shutdown,
        spec_version(frame) == PROTOCOL_VERSION,
    ensures
        spec_directive(s.initialized, frame) == DirectiveView::Shutdown,
        spec_next(s, spec_directive(s.initialized, frame)).ended,
{
}

/// Only `1s`, `2s` and `5s` are accepted as refresh intervals; any other or a
/// missing entry ends the session with the settings error, and an accepted
/// interval is passed on unchanged.
pub proof fn lemma_settings_validated(s: Session, frame: HostFrame)
    requires
        spec_version(frame) == PROTOCOL_VERSION,
        (frame is Init && !s.initialized) || (frame is Settings && s.initialized),
    ensures
        ({
            let settings = match frame {
                HostFrame::Init { layer_settings, .. } => layer_settings,
                HostFrame::Settings { layer_settings, .. } => layer_settings,
                _ => LayerSettings { refresh_interval: None },
            };
            let requested = settings.refresh_interval.deep_view();
            match spec_directive(s.initialized, frame) {
                DirectiveView::Start { interval_secs } => frame is Init && requested == Some(
                    decimal_interval(interval_secs),
                ) && (interval_secs == 1 || interval_secs == 2 || interval_secs == 5),
                DirectiveView::Reconfigure { interval_secs } => frame is Settings && requested
                    == Some(decimal_interval(interval_secs)) && (interval_secs == 1
                    || interval_secs == 2 || interval_secs == 5),
                DirectiveView::Fail { code, .. } => code == ErrorCode::SettingsInvalid
                    && spec_interval(requested) is None,
                _ => false,
            }
        }),
{
}

/// The `refreshInterval` text of a whole number of seconds below ten.
pub open spec fn decimal_interval(secs: u64) -> Seq<char> {
    seq![digit_char(secs as nat), 's']
}

/// Only a shutdown or a failure ends a session: an interval change or a
/// message leaves it open, and initialisation is never undone.
pub proof fn lemma_only_shutdown_and_failure_end(s: Session, frame: HostFrame)
    ensures
        ({
            let d = spec_directive(s.initialized, frame);
            let n = spec_next(s, d);
            &&& (d is Reconfigure || d is Continue) ==> !n.ended && n.initialized
                && n.initialized == s.initialized
            &&& (d is Start) ==> !n.ended && n.initialized && !s.initialized
            &&& n.ended <==> (d is Shutdown || d is Fail)
            &&& s.initialized ==> n.initialized
        }),
{
}

/// After sampling started, a valid interval change is applied without a
/// restart: it answers `Reconfigure` with the requested interval, the session
/// stays open and initialised, and a later message is still accepted.
pub proof fn lemma_interval_change_keeps_running(
    s: Session,
    first: HostFrame,
    change: HostFrame,
    later: HostFrame,
    secs: u64,
)
    requires
        !s.ended,
        spec_directive(s.initialized, first) is Start,
        change matches HostFrame::Settings { v, layer_settings } && v == PROTOCOL_VERSION
            && spec_interval(layer_settings.refresh_interval.deep_view()) == Some(secs),
        later matches HostFrame::Message { v } && v == PROTOCOL_VERSION,
    ensures
        ({
            let s1 = spec_next(s, spec_directive(s.initialized, first));
            let d2 = spec_directive(s1.initialized, change);
            let s2 = spec_next(s1, d2);
            &&& s1 == Session { initialized: true, ended: false }
            &&& d2 == DirectiveView::Reconfigure { interval_secs: secs }
            &&& s2 == Session { initialized: true, ended: false }
            &&& spec_directive(s2.initialized, later) == DirectiveView::Continue
            &&& spec_next(s2, spec_directive(s2.initialized, later)) == s2
        }),
{
}

} // verus!
