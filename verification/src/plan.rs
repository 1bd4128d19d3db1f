//! Plans: what a warmup is to start.

use vstd::prelude::*;

use crate::text::opt_text;

verus! {

/// Why a warmup is sent.
#[derive(Clone, Copy, Debug, PartialEq, Eq, Structural)]
pub enum WarmReason {
    WeeklyReset,
    Scheduled,
    SafeGap,
    Manual,
}

impl WarmReason {
    /// The reason in words.
    pub open spec fn words(self) -> Seq<char> {
        match self {
            WarmReason::WeeklyReset => "weekly reset"@,
            WarmReason::Scheduled => "scheduled warmup"@,
            WarmReason::SafeGap => "safe gap"@,
            WarmReason::Manual => "manual warmup"@,
        }
    }

    /// Names the reason.
    pub fn to_string(&self) -> (text: String)
        ensures
            text@ == self.words(),
    {
        match self {
            WarmReason::WeeklyReset => "weekly reset".to_owned(),
            WarmReason::Scheduled => "scheduled warmup".to_owned(),
            WarmReason::SafeGap => "safe gap".to_owned(),
            WarmReason::Manual => "manual warmup".to_owned(),
        }
    }
}

/// The windows and the slot that a warmup is to start.
#[derive(Clone, Debug, Default, PartialEq, Eq)]
pub struct WarmPlan {
    pub session_key: Option<String>,
    pub weekly_key: Option<String>,
    pub schedule_key: Option<String>,
}

/// The contents of a [`WarmPlan`].
#[verifier::ext_equal]
pub struct PlanModel {
    pub session_key: Option<Seq<char>>,
    pub weekly_key: Option<Seq<char>>,
    pub schedule_key: Option<Seq<char>>,
}

impl View for WarmPlan {
    type V = PlanModel;

    open spec fn view(&self) -> PlanModel {
        PlanModel {
            session_key: opt_text(self.session_key),
            weekly_key: opt_text(self.weekly_key),
            schedule_key: opt_text(self.schedule_key),
        }
    }
}

impl PlanModel {
    pub open spec fn empty() -> PlanModel {
        PlanModel { session_key: None, weekly_key: None, schedule_key: None }
    }

    /// A weekly window comes before a slot, a slot before a burst window.
    pub open spec fn reason(self) -> WarmReason {
        if self.weekly_key is Some {
            WarmReason::WeeklyReset
        } else if self.schedule_key is Some {
            WarmReason::Scheduled
        } else {
            WarmReason::SafeGap
        }
    }
}

impl WarmPlan {
    /// Whether there is nothing to start.
    pub fn is_empty(&self) -> (empty: bool)
        ensures
            empty == (self@ == PlanModel::empty()),
    {
        self.session_key.is_none() && self.weekly_key.is_none() && self.schedule_key.is_none()
    }

    /// The reason that weighs most.
    pub fn reason(&self) -> (reason: WarmReason)
        ensures
            reason == self@.reason(),
    {
        if self.weekly_key.is_some() {
            WarmReason::WeeklyReset
        } else if self.schedule_key.is_some() {
            WarmReason::Scheduled
        } else {
            WarmReason::SafeGap
        }
    }
}

} // verus!
