//! What a start does with the crash reports that earlier runs left behind.

use vstd::prelude::*;

verus! {

/// How far the user agreed to send crash reports.
#[derive(Clone, Copy, Debug, PartialEq, Eq, Structural)]
pub enum ReportingMode {
    /// Not at all.
    Off,
    /// Each one after a question.
    AskEachTime,
    /// All of them.
    Always,
}

/// What to do with the reports in the spool.
#[derive(Clone, Copy, Debug, PartialEq, Eq, Structural)]
pub enum SpoolStep {
    /// Leave them alone.
    Leave,
    /// Ask about each.
    Ask,
    /// Send them.
    Send,
}

/// What to do with the reports in the spool. Without a directory for the config
/// there is no spool.
pub open spec fn spool_step(has_config_dir: bool, mode: ReportingMode) -> SpoolStep {
    if !has_config_dir {
        SpoolStep::Leave
    } else {
        match mode {
            ReportingMode::Off => SpoolStep::Leave,
            ReportingMode::AskEachTime => SpoolStep::Ask,
            ReportingMode::Always => SpoolStep::Send,
        }
    }
}

/// What to do with the reports in the spool.
pub fn drain_crash_spool(has_config_dir: bool, mode: ReportingMode) -> (r: SpoolStep)
    ensures
        r == spool_step(has_config_dir, mode),
{
    if !has_config_dir {
        return SpoolStep::Leave;
    }
    match mode {
        ReportingMode::Off => SpoolStep::Leave,
        ReportingMode::AskEachTime => SpoolStep::Ask,
        ReportingMode::Always => SpoolStep::Send,
    }
}

/// Nothing is sent without a question unless the user agreed to all of it.
pub proof fn nothing_is_sent_unasked(has_config_dir: bool, mode: ReportingMode)
    ensures
        spool_step(has_config_dir, mode) is Send ==> mode is Always,
        mode is Off ==> spool_step(has_config_dir, mode) is Leave,
{
}

/// Where there is a spool, its reports are sent, asked about or left, as the user
/// agreed; without one there is nothing to do.
pub proof fn reports_go_as_far_as_agreed(mode: ReportingMode)
    ensures
        spool_step(false, mode) == SpoolStep::Leave,
        spool_step(true, ReportingMode::Off) == SpoolStep::Leave,
        spool_step(true, ReportingMode::AskEachTime) == SpoolStep::Ask,
        spool_step(true, ReportingMode::Always) == SpoolStep::Send,
{
}

} // verus!
