//! The `launch <tool id>` mode, run from a context menu item.
//!
//! The program is started by the caller; this module decides what to start
//! and, when starting fails, drives the offer to remove the entry from the
//! menu: ask, remove from the tools file and save, reinstall the menu, report.
use vstd::prelude::*;

use crate::i18n::Strings;
use crate::text::{concatenate, replace_all, replace_all_spec, split_whitespace, views, words};
use crate::tools::{position_of, ToolsConfig};

verus! {

/// What `launch <tool id>` runs.
pub enum LaunchPlan {
    /// Start `program` with `args`; `name` is the tool's menu name.
    Run { name: String, program: String, args: Vec<String> },
    /// No tool has that id.
    Missing,
}

/// The tool to start for `tool_id`: the first tool with that id, its path, and
/// its arguments split at whitespace.
pub fn plan_launch(config: &ToolsConfig, tool_id: &str) -> (r: LaunchPlan)
    ensures
        position_of(config.tools@, tool_id@) is None <==> r is Missing,
        position_of(config.tools@, tool_id@) matches Some(i) ==> {
            &&& r matches LaunchPlan::Run { name, program, args }
            &&& name@ == config.tools@[i].name@
            &&& program@ == config.tools@[i].path@
            &&& views(args@) == words(config.tools@[i].args@)
        },
{
    match config.find(tool_id) {
        Some(tool) => LaunchPlan::Run {
            name: tool.name.clone(),
            program: tool.path.clone(),
            args: split_whitespace(tool.args.as_str()),
        },
        None => LaunchPlan::Missing,
    }
}

/// Name shown for a tool that is no longer in the tools file.
pub const UNKNOWN_TOOL_NAME: &'static str = "(이름 없음)";

/// `template` with `{name}` and then `{detail}` filled in.
pub open spec fn failure_prompt(s: Strings, name: Seq<char>, detail: Seq<char>) -> Seq<char> {
    replace_all_spec(
        replace_all_spec(s.launch_failed_template@, "{name}"@, name),
        "{detail}"@,
        detail,
    )
}

/// The details for a program that could not be started: its path and why.
pub open spec fn start_failure_detail(s: Strings, path: Seq<char>, reason: Seq<char>) -> Seq<char> {
    replace_all_spec(
        replace_all_spec(s.launch_path_reason_template@, "{path}"@, path),
        "{reason}"@,
        reason,
    )
}

/// The details shown when starting `path` failed with `reason`.
pub fn start_failure_text(s: &Strings, path: &str, reason: &str) -> (r: String)
    ensures
        r@ == start_failure_detail(*s, path@, reason@),
{
    proof {
        reveal_strlit("{path}");
        reveal_strlit("{reason}");
    }
    let a = replace_all(s.launch_path_reason_template, "{path}", path);
    replace_all(a.as_str(), "{reason}", reason)
}

/// Where the removal offer stands.
#[derive(Clone, Copy, PartialEq, Eq, Debug, Structural)]
pub enum CleanupStage {
    /// The question has been shown; waiting for the answer.
    AwaitingAnswer,
    /// The entry is being removed from the tools file and the file saved.
    AwaitingSave,
    /// The menu is being reinstalled.
    AwaitingInstall,
    /// Nothing more to do.
    Finished,
}

/// What the caller reports back.
pub enum CleanupEvent {
    /// The user answered the question (yes: `true`).
    Answered(bool),
    /// Saving the tools file finished, with the error text if it failed.
    Saved(Option<String>),
    /// Reinstalling the menu finished, with the error text if it failed.
    Installed(Option<String>),
}

/// What the caller does next.
pub enum CleanupAction {
    /// Remove the tool with this id from the tools file (reloaded from disk)
    /// and save it.
    RemoveAndSave(String),
    /// Reinstall the context menu.
    Reinstall,
    /// Show an information message.
    Inform(String),
    /// Show an error message.
    ReportError(String),
    /// Stop.
    Stop,
}

/// The offer to remove a menu entry whose program could not be started.
pub struct CleanupFlow {
    pub tool_id: String,
    pub stage: CleanupStage,
}

impl CleanupFlow {
    /// Starts the offer: returns the flow, waiting for an answer, and the
    /// question to ask.
    pub fn start(s: &Strings, tool_id: &str, tool_name: &str, detail: &str) -> (r: (
        CleanupFlow,
        String,
    ))
        ensures
            r.0.tool_id@ == tool_id@,
            r.0.stage == CleanupStage::AwaitingAnswer,
            r.1@ == failure_prompt(*s, tool_name@, detail@),
    {
        proof {
            reveal_strlit("{name}");
            reveal_strlit("{detail}");
        }
        let a = replace_all(s.launch_failed_template, "{name}", tool_name);
        let prompt = replace_all(a.as_str(), "{detail}", detail);
        (CleanupFlow { tool_id: String::from_str(tool_id), stage: CleanupStage::AwaitingAnswer }, prompt)
    }

    /// Advances the offer with what the caller reports.
    ///
    /// A "no" ends it; a "yes" asks for the removal. A failed save is reported
    /// with the config save error prefix and ends it; a successful save asks for the
    /// menu to be reinstalled. The outcome of reinstalling is reported and ends
    /// it. An event that does not fit the stage ends it without action.
    pub fn step(&mut self, s: &Strings, event: CleanupEvent) -> (r: CleanupAction)
        ensures
            final(self).tool_id == old(self).tool_id,
            match (old(self).stage, event) {
                (CleanupStage::AwaitingAnswer, CleanupEvent::Answered(true)) => {
                    &&& final(self).stage == CleanupStage::AwaitingSave
                    &&& r matches CleanupAction::RemoveAndSave(id)
                    &&& id@ == old(self).tool_id@
                },
                (CleanupStage::AwaitingSave, CleanupEvent::Saved(None)) => {
                    &&& final(self).stage == CleanupStage::AwaitingInstall
                    &&& r is Reinstall
                },
                (CleanupStage::AwaitingSave, CleanupEvent::Saved(Some(e))) => {
                    &&& final(self).stage == CleanupStage::Finished
                    &&& r matches CleanupAction::ReportError(m)
                    &&& m@ == s.launch_config_save_error_prefix@ + e@
                },
                (CleanupStage::AwaitingInstall, CleanupEvent::Installed(None)) => {
                    &&& final(self).stage == CleanupStage::Finished
                    &&& r matches CleanupAction::Inform(m)
                    &&& m@ == s.launch_remove_success@
                },
                (CleanupStage::AwaitingInstall, CleanupEvent::Installed(Some(e))) => {
                    &&& final(self).stage == CleanupStage::Finished
                    &&& r matches CleanupAction::ReportError(m)
                    &&& m@ == s.launch_remove_partial_error_prefix@ + e@
                },
                _ => final(self).stage == CleanupStage::Finished && r is Stop,
            },
    {
        match (self.stage, event) {
            (CleanupStage::AwaitingAnswer, CleanupEvent::Answered(true)) => {
                self.stage = CleanupStage::AwaitingSave;
                CleanupAction::RemoveAndSave(self.tool_id.clone())
            },
            (CleanupStage::AwaitingSave, CleanupEvent::Saved(None)) => {
                self.stage = CleanupStage::AwaitingInstall;
                CleanupAction::Reinstall
            },
            (CleanupStage::AwaitingSave, CleanupEvent::Saved(Some(e))) => {
                self.stage = CleanupStage::Finished;
                CleanupAction::ReportError(concatenate(s.launch_config_save_error_prefix, e.as_str()))
            },
            (CleanupStage::AwaitingInstall, CleanupEvent::Installed(None)) => {
                self.stage = CleanupStage::Finished;
                CleanupAction::Inform(String::from_str(s.launch_remove_success))
            },
            (CleanupStage::AwaitingInstall, CleanupEvent::Installed(Some(e))) => {
                self.stage = CleanupStage::Finished;
                CleanupAction::ReportError(concatenate(s.launch_remove_partial_error_prefix, e.as_str()))
            },
            _ => {
                self.stage = CleanupStage::Finished;
                CleanupAction::Stop
            },
        }
    }
}

/// Starts the removal offer for `launch <tool_id>` when the tool is missing
/// from the tools file.
pub fn offer_cleanup_missing(s: &Strings, tool_id: &str) -> (r: (CleanupFlow, String))
    ensures
        r.0.tool_id@ == tool_id@,
        r.0.stage == CleanupStage::AwaitingAnswer,
        r.1@ == failure_prompt(*s, UNKNOWN_TOOL_NAME@, s.launch_id_not_found@),
{
    CleanupFlow::start(s, tool_id, UNKNOWN_TOOL_NAME, s.launch_id_not_found)
}

/// Starts the removal offer for `launch <tool_id>` when starting the program
/// failed with `reason`.
pub fn offer_cleanup_failed(s: &Strings, tool_id: &str, name: &str, path: &str, reason: &str) -> (r: (
    CleanupFlow,
    String,
))
    ensures
        r.0.tool_id@ == tool_id@,
        r.0.stage == CleanupStage::AwaitingAnswer,
        r.1@ == failure_prompt(*s, name@, start_failure_detail(*s, path@, reason@)),
{
    let detail = start_failure_text(s, path, reason);
    CleanupFlow::start(s, tool_id, name, detail.as_str())
}

} // verus!
