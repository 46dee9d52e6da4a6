//! Saving a ledger so that a crash cannot damage what was saved before, and
//! loading it again.
//!
//! This module decides; the caller performs. To save, the caller keeps a
//! `SaveJob`, does to storage what `action` names, and reports with
//! `advance` whether that went well, until `outcome` is known. To load, the
//! caller reads the durable place and hands `load` what it found.

use vstd::prelude::*;
use crate::codec::{decode, decode_snapshot, encode, encode_snapshot, law_decode_encode};
use crate::error::Error;
use crate::ledger::Ledger;
use crate::model::LedgerView;
use crate::snapshot::law_snapshot_roundtrip;

verus! {

/// What loading gives for what was found in the durable place: the empty
/// ledger where nothing was found, the saved ledger where the bytes hold a
/// well-formed snapshot, and `CorruptStore` otherwise.
pub open spec fn load_view(stored: Option<Seq<u8>>) -> Result<LedgerView, Error> {
    match stored {
        None => Ok(LedgerView::empty()),
        Some(bytes) => match decode_snapshot(bytes) {
            Some(snapshot) => if snapshot.well_formed() {
                Ok(snapshot.restored())
            } else {
                Err(Error::CorruptStore)
            },
            None => Err(Error::CorruptStore),
        },
    }
}

/// Loading the bytes of a well-formed ledger's snapshot gives that ledger
/// back: the same users and accounts with every identifier, balance and
/// instant, the same allocator and the same clock.
pub proof fn law_load_save(ledger: LedgerView)
    requires
        ledger.wf(),
        ledger.snapshot().encodable(),
    ensures
        load_view(Some(encode_snapshot(ledger.snapshot()))) == Ok::<LedgerView, Error>(ledger),
{
    law_decode_encode(ledger.snapshot());
    law_snapshot_roundtrip(ledger);
}

/// The bytes to store for a ledger. Loading them gives the ledger back.
pub fn save(ledger: &Ledger) -> (bytes: Vec<u8>)
    requires
        ledger@.wf(),
    ensures
        bytes@ == encode_snapshot(ledger@.snapshot()),
        load_view(Some(bytes@)) == Ok::<LedgerView, Error>(ledger@),
{
    let bytes = encode(&ledger.snapshot());
    proof {
        law_load_save(ledger@);
    }
    bytes
}

/// The ledger for what was found in the durable place: `None` where
/// nothing was found there, which is a first start and no error.
pub fn load(stored: Option<&[u8]>) -> (r: Result<Ledger, Error>)
    ensures
        match load_view(
            match stored {
                Some(bytes) => Some(bytes@),
                None => None,
            },
        ) {
            Ok(ledger) => r is Ok && r->Ok_0@ == ledger && ledger.wf(),
            Err(e) => r is Err && r->Err_0 == e,
        },
{
    match stored {
        None => Ok(Ledger::new()),
        Some(bytes) => {
            match decode(bytes) {
                Ok(snapshot) => Ledger::restore(snapshot),
                Err(e) => Err(e),
            }
        },
    }
}

/// One thing to do to storage.
#[derive(Clone, Copy, Debug, PartialEq, Eq, Structural)]
pub enum SaveAction {
    /// Write the job's bytes to the staging place, replacing what is there.
    WriteStaging,
    /// Make what was written to the staging place durable.
    SyncStaging,
    /// Put the staging copy in the durable place, in one indivisible step.
    Publish,
    /// Remove the staging copy.
    DiscardStaging,
    /// Nothing: the job has ended.
    Stop,
}

/// How far a save has come.
#[derive(Clone, Copy, Debug, PartialEq, Eq, Structural)]
pub enum SaveStage {
    Writing,
    Syncing,
    Publishing,
    Discarding,
    Saved,
    Failed,
}

impl SaveStage {
    /// What is to be done at this stage.
    pub open spec fn action(self) -> SaveAction {
        match self {
            SaveStage::Writing => SaveAction::WriteStaging,
            SaveStage::Syncing => SaveAction::SyncStaging,
            SaveStage::Publishing => SaveAction::Publish,
            SaveStage::Discarding => SaveAction::DiscardStaging,
            SaveStage::Saved => SaveAction::Stop,
            SaveStage::Failed => SaveAction::Stop,
        }
    }

    /// The stage that follows once the action of this stage was tried.
    /// Whatever fails, the staging copy is discarded next and the save has
    /// failed.
    pub open spec fn next(self, succeeded: bool) -> SaveStage {
        match self {
            SaveStage::Writing => if succeeded {
                SaveStage::Syncing
            } else {
                SaveStage::Discarding
            },
            SaveStage::Syncing => if succeeded {
                SaveStage::Publishing
            } else {
                SaveStage::Discarding
            },
            SaveStage::Publishing => if succeeded {
                SaveStage::Saved
            } else {
                SaveStage::Discarding
            },
            SaveStage::Discarding => SaveStage::Failed,
            SaveStage::Saved => SaveStage::Saved,
            SaveStage::Failed => SaveStage::Failed,
        }
    }

    /// The save has ended.
    pub open spec fn ended(self) -> bool {
        self == SaveStage::Saved || self == SaveStage::Failed
    }

    /// The largest number of actions still to come.
    pub open spec fn steps_left(self) -> nat {
        match self {
            SaveStage::Writing => 4,
            SaveStage::Syncing => 3,
            SaveStage::Publishing => 2,
            SaveStage::Discarding => 1,
            SaveStage::Saved => 0,
            SaveStage::Failed => 0,
        }
    }
}

/// What the two places of storage hold; `None` for a place that holds
/// nothing.
pub struct Storage {
    pub durable: Option<Seq<u8>>,
    pub staging: Option<Seq<u8>>,
}

/// What storage is taken to do: `after` is what it may hold once `action`
/// was tried on `before` with `bytes` to write.
///
/// Writing and discarding touch the staging place only, and a write that
/// fails may leave anything there. Syncing changes nothing that can be
/// read. Publishing moves the staging copy to the durable place or, where
/// it fails, changes nothing.
pub open spec fn performed(
    before: Storage,
    action: SaveAction,
    succeeded: bool,
    bytes: Seq<u8>,
    after: Storage,
) -> bool {
    match action {
        SaveAction::WriteStaging => after.durable == before.durable && (succeeded
            ==> after.staging == Some(bytes)),
        SaveAction::SyncStaging => after == before,
        SaveAction::Publish => if succeeded {
            after.durable == before.staging && after.staging is None
        } else {
            after == before
        },
        SaveAction::DiscardStaging => after.durable == before.durable && (succeeded
            ==> after.staging is None),
        SaveAction::Stop => after == before,
    }
}

/// What holds of storage at each stage of saving `bytes` over `previous`:
/// the durable place holds what it held before until the save has
/// succeeded, and the new bytes from then on; the staging place holds the
/// new bytes while they wait to be published.
pub open spec fn consistent(
    stage: SaveStage,
    storage: Storage,
    previous: Option<Seq<u8>>,
    bytes: Seq<u8>,
) -> bool {
    match stage {
        SaveStage::Writing => storage.durable == previous,
        SaveStage::Syncing => storage.durable == previous && storage.staging == Some(bytes),
        SaveStage::Publishing => storage.durable == previous && storage.staging == Some(bytes),
        SaveStage::Discarding => storage.durable == previous,
        SaveStage::Saved => storage.durable == Some(bytes),
        SaveStage::Failed => storage.durable == previous,
    }
}

/// Every step of a save keeps storage consistent. So the durable place
/// never holds anything but the previous snapshot or the whole new one,
/// whenever the save is cut short; it holds the new one where the save
/// succeeded and the previous one where it failed.
pub proof fn law_save_is_atomic(
    stage: SaveStage,
    succeeded: bool,
    before: Storage,
    after: Storage,
    previous: Option<Seq<u8>>,
    bytes: Seq<u8>,
)
    requires
        consistent(stage, before, previous, bytes),
        performed(before, stage.action(), succeeded, bytes, after),
    ensures
        consistent(stage.next(succeeded), after, previous, bytes),
        after.durable == previous || after.durable == Some(bytes),
        stage.next(succeeded) == SaveStage::Saved ==> after.durable == Some(bytes),
        stage.next(succeeded) == SaveStage::Failed ==> after.durable == previous,
{
}

impl SaveStage {
    /// The stage reached from this one once the actions went as `results`
    /// say, one after the other.
    pub open spec fn after_all(self, results: Seq<bool>) -> SaveStage
        decreases results.len(),
    {
        if results.len() == 0 {
            self
        } else {
            self.after_all(results.drop_last()).next(results.last())
        }
    }
}

/// A save ends within four actions, however they go; and it ends well
/// exactly where writing, syncing and publishing all went well.
pub proof fn law_save_ends(results: Seq<bool>)
    requires
        results.len() >= 4,
    ensures
        SaveStage::Writing.after_all(results).ended(),
        SaveStage::Writing.after_all(results) == SaveStage::Saved <==> results[0] && results[1]
            && results[2],
    decreases results.len(),
{
    let start = SaveStage::Writing;
    if results.len() == 4 {
        let three = results.drop_last();
        let two = three.drop_last();
        let one = two.drop_last();
        assert(one.drop_last().len() == 0);
        assert(start.after_all(one.drop_last()) == start);
        assert(one.last() == results[0] && two.last() == results[1] && three.last() == results[2]);
        assert(start.after_all(one) == start.next(results[0]));
        assert(start.after_all(two) == start.after_all(one).next(results[1]));
        assert(start.after_all(three) == start.after_all(two).next(results[2]));
    } else {
        law_save_ends(results.drop_last());
    }
}

/// A save under way: the bytes to store and the stage reached.
pub struct SaveJob {
    bytes: Vec<u8>,
    stage: SaveStage,
}

impl SaveJob {
    /// The bytes that the job stores.
    pub closed spec fn bytes(&self) -> Seq<u8> {
        self.bytes@
    }

    /// The stage that the job has reached.
    pub closed spec fn stage(&self) -> SaveStage {
        self.stage
    }

    /// Begins to save `ledger`: the job holds the ledger's bytes, and
    /// nothing has been done to storage yet.
    pub fn begin(ledger: &Ledger) -> (job: SaveJob)
        requires
            ledger@.wf(),
        ensures
            job.bytes() == encode_snapshot(ledger@.snapshot()),
            load_view(Some(job.bytes())) == Ok::<LedgerView, Error>(ledger@),
            job.stage() == SaveStage::Writing,
    {
        SaveJob { bytes: save(ledger), stage: SaveStage::Writing }
    }

    /// The bytes to write to the staging place.
    pub fn payload(&self) -> (bytes: &Vec<u8>)
        ensures
            bytes@ == self.bytes(),
    {
        &self.bytes
    }

    /// What to do to storage next.
    pub fn action(&self) -> (action: SaveAction)
        ensures
            action == self.stage().action(),
    {
        match self.stage {
            SaveStage::Writing => SaveAction::WriteStaging,
            SaveStage::Syncing => SaveAction::SyncStaging,
            SaveStage::Publishing => SaveAction::Publish,
            SaveStage::Discarding => SaveAction::DiscardStaging,
            SaveStage::Saved => SaveAction::Stop,
            SaveStage::Failed => SaveAction::Stop,
        }
    }

    /// Takes note of how the action went and moves to the next stage.
    pub fn advance(&mut self, succeeded: bool)
        ensures
            final(self).stage() == old(self).stage().next(succeeded),
            final(self).bytes() == old(self).bytes(),
            !old(self).stage().ended() ==> final(self).stage().steps_left() < old(
                self,
            ).stage().steps_left(),
    {
        self.stage = match self.stage {
            SaveStage::Writing => if succeeded {
                SaveStage::Syncing
            } else {
                SaveStage::Discarding
            },
            SaveStage::Syncing => if succeeded {
                SaveStage::Publishing
            } else {
                SaveStage::Discarding
            },
            SaveStage::Publishing => if succeeded {
                SaveStage::Saved
            } else {
                SaveStage::Discarding
            },
            SaveStage::Discarding => SaveStage::Failed,
            SaveStage::Saved => SaveStage::Saved,
            SaveStage::Failed => SaveStage::Failed,
        };
    }

    /// How the save ended: `None` while it is under way, `PersistenceError`
    /// where an action failed.
    pub fn outcome(&self) -> (r: Option<Result<(), Error>>)
        ensures
            r is Some <==> self.stage().ended(),
            self.stage() == SaveStage::Saved ==> r == Some(Ok::<(), Error>(())),
            self.stage() == SaveStage::Failed ==> r == Some(
                Err::<(), Error>(Error::PersistenceError),
            ),
    {
        match self.stage {
            SaveStage::Saved => Some(Ok(())),
            SaveStage::Failed => Some(Err(Error::PersistenceError)),
            _ => None,
        }
    }
}

} // verus!
