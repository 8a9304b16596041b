//! The task helper's side of a debug run: reading the debug settings that the
//! extension put in its environment, and deciding, while the Java process starts,
//! when its JDWP port is ready.
use vstd::prelude::*;
use crate::text::{decimal, parse_u16, parse_u16_text, lemma_decimal_parses_back, text_eq};

verus! {

/// The port a debug run uses when its setting is missing or not a port number.
pub open spec fn default_debug_port() -> u16 {
    5005
}

/// The debug port that the setting `ZED_JAVA_DEBUG_PORT` names.
pub open spec fn debug_port(setting: Seq<char>) -> u16 {
    match parse_u16(setting) {
        Some(p) => p,
        None => default_debug_port(),
    }
}

/// The debug port named by the setting's text, 5005 when it is not a port number.
pub fn debug_port_from_setting(setting: &str) -> (r: u16)
    ensures
        r == debug_port(setting@),
{
    match parse_u16_text(setting) {
        Some(p) => p,
        None => 5005,
    }
}

/// Whether the setting `ZED_JAVA_DEBUG` asks for a debug run: it is set to `1`, the
/// value the extension gives it.
pub fn debug_requested(setting: Option<&str>) -> (r: bool)
    ensures
        r == (setting matches Some(s) && s@ == "1"@),
{
    match setting {
        Some(s) => text_eq(s, "1"),
        None => false,
    }
}

/// The port the extension writes into the environment is the port the task helper
/// reads back.
pub proof fn lemma_debug_port_round_trip(port: u16)
    ensures
        debug_port(decimal(port as nat)) == port,
{
    lemma_decimal_parses_back(port);
}

/// How long the task helper waits for the JDWP port, in milliseconds.
pub open spec fn jdwp_timeout_ms() -> u64 {
    180_000
}

/// What to do after one look at the JDWP port.
#[derive(PartialEq, Eq, Structural, Clone, Copy, Debug)]
pub enum PollStep {
    /// The port is taken: the debuggee is listening.
    Ready,
    /// The wait has lasted too long: stop waiting.
    TimedOut,
    /// Sleep for the poll interval and look again.
    Wait,
}

/// The decision after trying to bind the JDWP port: a port that cannot be bound is
/// taken by the debuggee; otherwise the wait stops after 180 seconds.
pub fn jdwp_poll_step(port_taken: bool, elapsed_ms: u64) -> (r: PollStep)
    ensures
        port_taken ==> r == PollStep::Ready,
        !port_taken && elapsed_ms >= jdwp_timeout_ms() ==> r == PollStep::TimedOut,
        !port_taken && elapsed_ms < jdwp_timeout_ms() ==> r == PollStep::Wait,
{
    if port_taken {
        PollStep::Ready
    } else if elapsed_ms >= 180_000 {
        PollStep::TimedOut
    } else {
        PollStep::Wait
    }
}

/// The pause between two looks at the port, in milliseconds.
pub fn jdwp_poll_interval_ms() -> (r: u64)
    ensures
        r == 200,
{
    200
}

/// The task helper's exit code for a finished run: the child's, or 0 when the child
/// was ended by a signal.
pub fn run_exit_code(code: Option<i32>) -> (r: i32)
    ensures
        r == match code {
            Some(c) => c,
            None => 0,
        },
{
    match code {
        Some(c) => c,
        None => 0,
    }
}

} // verus!
