//! What a provider tells about an account.

use vstd::prelude::*;

use crate::text::{copy_text, opt_text};
use crate::window::UsageWindows;

verus! {

/// An account as its provider sees it: who it belongs to and how much of its
/// limits is used.
#[derive(Debug, Default)]
pub struct AccountSnapshot {
    pub email: Option<String>,
    pub plan: Option<String>,
    pub limits: UsageWindows,
}

/// The contents of an [`AccountSnapshot`].
#[verifier::ext_equal]
pub struct SnapshotModel {
    pub email: Option<Seq<char>>,
    pub plan: Option<Seq<char>>,
    pub limits: UsageWindows,
}

impl View for AccountSnapshot {
    type V = SnapshotModel;

    open spec fn view(&self) -> SnapshotModel {
        SnapshotModel {
            email: opt_text(self.email),
            plan: opt_text(self.plan),
            limits: self.limits,
        }
    }
}

impl Clone for AccountSnapshot {
    fn clone(&self) -> (copy: Self)
        ensures
            copy@ == self@,
    {
        AccountSnapshot {
            email: copy_text(&self.email),
            plan: copy_text(&self.plan),
            limits: self.limits,
        }
    }
}

/// What came of a warmup: the account afterwards, or why it could not be read.
#[derive(Debug, Default)]
pub struct WarmupOutcome {
    pub snapshot: Option<AccountSnapshot>,
    pub refresh_error: Option<String>,
}

/// The contents of a [`WarmupOutcome`].
#[verifier::ext_equal]
pub struct OutcomeModel {
    pub snapshot: Option<SnapshotModel>,
    pub refresh_error: Option<Seq<char>>,
}

impl View for WarmupOutcome {
    type V = OutcomeModel;

    open spec fn view(&self) -> OutcomeModel {
        OutcomeModel {
            snapshot: match self.snapshot {
                Some(snapshot) => Some(snapshot@),
                None => None,
            },
            refresh_error: opt_text(self.refresh_error),
        }
    }
}

impl WarmupOutcome {
    /// The outcome of a warmup that went well, given the attempt to read the
    /// account afterwards.
    pub fn from_refresh(refresh: Result<AccountSnapshot, String>) -> (outcome: Self)
        ensures
            match refresh {
                Ok(snapshot) => outcome@ == (OutcomeModel {
                    snapshot: Some(snapshot@),
                    refresh_error: None,
                }),
                Err(error) => outcome@ == (OutcomeModel {
                    snapshot: None,
                    refresh_error: Some(error@),
                }),
            },
    {
        match refresh {
            Ok(snapshot) => WarmupOutcome { snapshot: Some(snapshot), refresh_error: None },
            Err(error) => WarmupOutcome { snapshot: None, refresh_error: Some(error) },
        }
    }
}

} // verus!
