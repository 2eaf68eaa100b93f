//! Opening a project that may hold edits from a session that did not end well.
use crate::status::Notice;
use crate::text::{decimal, push_decimal};
use vstd::prelude::*;

verus! {

/// What to do with the recovery records of an earlier session.
#[derive(Clone, Copy, Debug, PartialEq, Eq, Structural)]
pub enum RecoveryPolicy {
    Recover,
    Discard,
    Abort,
}

impl Default for RecoveryPolicy {
    fn default() -> (policy: Self)
        ensures
            policy == RecoveryPolicy::Recover,
    {
        RecoveryPolicy::Recover
    }
}

/// How a project is opened.
#[derive(Clone, Copy, Debug, PartialEq, Eq, Structural)]
pub struct StartupPlan {
    /// Delete the recovery records before the project is loaded.
    pub clear_recovery: bool,
    /// Records that loading will replay.
    pub recovered: u64,
    /// Records that are deleted.
    pub discarded: u64,
}

/// The refusal to open a project that holds `pending` records.
pub open spec fn pending_refusal(pending: nat) -> Seq<char> {
    "project has "@ + decimal(pending)
        + " recovery record(s); reopen with --recovery recover or --recovery discard"@
}

/// The plan for a project that holds `pending` records.
pub open spec fn planned(pending: u64, policy: RecoveryPolicy) -> StartupPlan {
    StartupPlan {
        clear_recovery: policy == RecoveryPolicy::Discard && pending > 0,
        recovered: if policy == RecoveryPolicy::Recover {
            pending
        } else {
            0
        },
        discarded: if policy == RecoveryPolicy::Discard {
            pending
        } else {
            0
        },
    }
}

/// Decides how to open a project that holds `pending` recovery records. Only
/// [`RecoveryPolicy::Abort`] refuses, and only where there are any.
pub fn plan_startup(pending: u64, policy: RecoveryPolicy) -> (plan: Result<StartupPlan, String>)
    ensures
        plan is Err <==> policy == RecoveryPolicy::Abort && pending > 0,
        plan is Err ==> plan->Err_0@ == pending_refusal(pending as nat),
        plan is Ok ==> plan->Ok_0 == planned(pending, policy),
{
    match policy {
        RecoveryPolicy::Abort => {
            if pending > 0 {
                let mut text = String::from_str("project has ");
                push_decimal(&mut text, pending);
                text.append(
                    " recovery record(s); reopen with --recovery recover or --recovery discard",
                );
                return Err(text);
            }
            Ok(StartupPlan { clear_recovery: false, recovered: 0, discarded: 0 })
        },
        RecoveryPolicy::Recover => Ok(
            StartupPlan { clear_recovery: false, recovered: pending, discarded: 0 },
        ),
        RecoveryPolicy::Discard => Ok(
            StartupPlan { clear_recovery: pending > 0, recovered: 0, discarded: pending },
        ),
    }
}

/// Every record is accounted for: replayed or deleted, and never both.
pub proof fn no_record_is_lost(pending: u64, policy: RecoveryPolicy)
    requires
        policy != RecoveryPolicy::Abort,
    ensures
        planned(pending, policy).recovered + planned(pending, policy).discarded == pending,
        planned(pending, policy).recovered == 0 || planned(pending, policy).discarded == 0,
        planned(pending, policy).clear_recovery <==> planned(pending, policy).discarded > 0,
{
}

/// An opened project, with its storage session and what became of its records.
#[derive(Debug)]
pub struct NativeStartup<P, S> {
    pub project: P,
    pub session: S,
    pub recovered: u64,
    pub discarded: u64,
}

impl<P, S> NativeStartup<P, S> {
    /// A project that was opened under `plan`.
    pub fn opened(project: P, session: S, plan: StartupPlan) -> (startup: Self)
        ensures
            startup.project == project,
            startup.session == session,
            startup.recovered == plan.recovered,
            startup.discarded == plan.discarded,
    {
        NativeStartup { project, session, recovered: plan.recovered, discarded: plan.discarded }
    }

    /// The opened project.
    pub fn project(&self) -> (project: &P)
        ensures
            *project == self.project,
    {
        &self.project
    }

    /// What the status line says first.
    pub fn notice(&self) -> (notice: Option<Notice>)
        ensures
            notice == (if self.recovered > 0 {
                Some(Notice::Recovered(self.recovered))
            } else if self.discarded > 0 {
                Some(Notice::Discarded(self.discarded))
            } else {
                None
            }),
    {
        if self.recovered > 0 {
            Some(Notice::Recovered(self.recovered))
        } else if self.discarded > 0 {
            Some(Notice::Discarded(self.discarded))
        } else {
            None
        }
    }
}

/// The records of a project are replayed, deleted, or left, as was asked; they are deleted only
/// where there are any.
pub proof fn records_are_treated_as_asked(pending: u64)
    ensures
        planned(pending, RecoveryPolicy::Recover) == (StartupPlan {
            clear_recovery: false,
            recovered: pending,
            discarded: 0,
        }),
        pending > 0 ==> planned(pending, RecoveryPolicy::Discard) == (StartupPlan {
            clear_recovery: true,
            recovered: 0,
            discarded: pending,
        }),
        !planned(0, RecoveryPolicy::Discard).clear_recovery,
        !planned(pending, RecoveryPolicy::Abort).clear_recovery,
        planned(pending, RecoveryPolicy::Abort).recovered == 0,
        planned(pending, RecoveryPolicy::Abort).discarded == 0,
{
}

} // verus!
