//! Loading and saving the record: which record a launch starts from, and the
//! file operations of an atomic replace, one after the other.

use crate::config::{AppConfig, AppConfigView};
use crate::validator::{lemma_settled_record_is_fixed, sanitize_config, sanitize_spec};
use vstd::prelude::*;

verus! {

/// The record that a launch starts from: what was read from disk, or the
/// defaults where nothing could be read; sanitized either way.
pub open spec fn loaded_spec(parsed: Option<AppConfigView>) -> AppConfigView {
    match parsed {
        Some(c) => sanitize_spec(c),
        None => sanitize_spec(AppConfigView::initial()),
    }
}

/// `Option<AppConfig>` as a mathematical value.
pub open spec fn parsed_view(parsed: Option<AppConfig>) -> Option<AppConfigView> {
    match parsed {
        Some(c) => Some(c@),
        None => None,
    }
}

/// The record that a launch starts from. `parsed` is what the host read and
/// decoded from the configuration file, `None` where the file is missing,
/// unreadable or malformed. A record that was stored sanitized, with settled
/// addresses, comes back as it was stored; and what comes back is stable
/// under sanitizing again exactly when its addresses are settled.
pub fn load_config(parsed: Option<AppConfig>) -> (res: AppConfig)
    ensures
        res@ == loaded_spec(parsed_view(parsed)),
        res@.is_sanitized(),
        sanitize_spec(res@) == res@ <==> res@.addresses_settled(),
        parsed matches Some(c) ==> (c@.is_sanitized() && c@.addresses_settled() ==> res@ == c@),
{
    match parsed {
        Some(config) => {
            proof {
                if config@.is_sanitized() && config@.addresses_settled() {
                    lemma_settled_record_is_fixed(config@);
                }
            }
            sanitize_config(config)
        },
        None => sanitize_config(AppConfig::default()),
    }
}

/// A file operation of a save.
#[derive(Clone, Copy, Debug, PartialEq, Eq, Structural)]
pub enum SaveStep {
    /// Write the record to the temporary sibling file.
    WriteTemp,
    /// Rename the temporary file over the target.
    Rename,
    /// Remove the target, which stood in the way of the rename.
    RemoveTarget,
    /// Rename once more.
    RenameAgain,
    /// Remove the temporary file that could not be put in place.
    RemoveTemp,
}

/// What follows a file operation.
#[derive(Clone, Copy, Debug, PartialEq, Eq, Structural)]
pub enum SaveNext {
    /// Carry out this operation.
    Do(SaveStep),
    /// The save is over; `saved` says whether the target holds the record.
    Finished { saved: bool },
}

/// What follows `step`, given whether it succeeded.
pub open spec fn after_step(step: SaveStep, succeeded: bool) -> SaveNext {
    match step {
        SaveStep::WriteTemp => if succeeded {
            SaveNext::Do(SaveStep::Rename)
        } else {
            SaveNext::Finished { saved: false }
        },
        SaveStep::Rename => if succeeded {
            SaveNext::Finished { saved: true }
        } else {
            SaveNext::Do(SaveStep::RemoveTarget)
        },
        SaveStep::RemoveTarget => SaveNext::Do(SaveStep::RenameAgain),
        SaveStep::RenameAgain => if succeeded {
            SaveNext::Finished { saved: true }
        } else {
            SaveNext::Do(SaveStep::RemoveTemp)
        },
        SaveStep::RemoveTemp => SaveNext::Finished { saved: false },
    }
}

/// How far `step` is from the end of a save, at most.
pub open spec fn steps_left(step: SaveStep) -> nat {
    match step {
        SaveStep::WriteTemp => 5,
        SaveStep::Rename => 4,
        SaveStep::RemoveTarget => 3,
        SaveStep::RenameAgain => 2,
        SaveStep::RemoveTemp => 1,
    }
}

/// The operation that a save begins with.
pub fn first_save_step() -> (res: SaveStep)
    ensures
        res == SaveStep::WriteTemp,
{
    SaveStep::WriteTemp
}

/// What follows `step`, given whether it succeeded: the record is written to
/// a temporary file and renamed over the target; if the rename fails the
/// target is removed and the rename tried once more; if that fails too the
/// temporary file is removed. Whether removing succeeded does not matter.
pub fn next_save_step(step: SaveStep, succeeded: bool) -> (res: SaveNext)
    ensures
        res == after_step(step, succeeded),
        res matches SaveNext::Do(next) ==> steps_left(next) < steps_left(step),
        res matches SaveNext::Finished { saved } ==> saved == (succeeded && (step
            == SaveStep::Rename || step == SaveStep::RenameAgain)),
{
    match step {
        SaveStep::WriteTemp => if succeeded {
            SaveNext::Do(SaveStep::Rename)
        } else {
            SaveNext::Finished { saved: false }
        },
        SaveStep::Rename => if succeeded {
            SaveNext::Finished { saved: true }
        } else {
            SaveNext::Do(SaveStep::RemoveTarget)
        },
        SaveStep::RemoveTarget => SaveNext::Do(SaveStep::RenameAgain),
        SaveStep::RenameAgain => if succeeded {
            SaveNext::Finished { saved: true }
        } else {
            SaveNext::Do(SaveStep::RemoveTemp)
        },
        SaveStep::RemoveTemp => SaveNext::Finished { saved: false },
    }
}

/// How a save that begins at `step` ends when its operations succeed or fail
/// as `outcomes` says, one entry for each operation; failure where the
/// entries run out.
pub open spec fn save_result(step: SaveStep, outcomes: Seq<bool>) -> bool
    decreases steps_left(step),
{
    if outcomes.len() == 0 {
        false
    } else {
        match after_step(step, outcomes.first()) {
            SaveNext::Do(next) => save_result(next, outcomes.drop_first()),
            SaveNext::Finished { saved } => saved,
        }
    }
}

/// A save puts the record in place exactly when the temporary file was
/// written and one of the two renames succeeded; the second rename is tried
/// only after the first one failed.
pub proof fn lemma_save_result(outcomes: Seq<bool>)
    requires
        outcomes.len() >= 5,
    ensures
        save_result(SaveStep::WriteTemp, outcomes) == (outcomes[0] && (outcomes[1]
            || outcomes[3])),
{
    reveal_with_fuel(save_result, 6);
    let o1 = outcomes.drop_first();
    let o2 = o1.drop_first();
    let o3 = o2.drop_first();
    let o4 = o3.drop_first();
    assert(o1.first() == outcomes[1]);
    assert(o2.first() == outcomes[2]);
    assert(o3.first() == outcomes[3]);
    assert(o4.first() == outcomes[4]);
}

} // verus!
