use vstd::prelude::*;
use std::path::PathBuf;

verus! {

/// Relies on `std::path::PathBuf` as an opaque value: a checkpoint
/// destination that this library only carries.
#[verifier::external_type_specification]
#[verifier::external_body]
pub struct ExPathBuf(PathBuf);

/// How a training session runs.
pub struct TrainingConfig {
    /// How many epochs to run.
    pub epochs: u32,
    /// Write a checkpoint after every epoch that is a multiple of this.
    pub checkpoint_interval: Option<u32>,
    /// Where checkpoints go.
    pub checkpoint_path: Option<PathBuf>,
    /// Report progress on the way.
    pub verbose: bool,
    /// The example recorded in checkpoints.
    pub example_name: Option<String>,
}

/// What to do once an epoch's updates and loss are done.
#[derive(Clone, Copy, Debug, PartialEq, Eq, Structural)]
pub struct EpochActions {
    /// Report the epoch's loss.
    pub log: bool,
    /// Write a checkpoint of the network.
    pub checkpoint: bool,
}

/// The example name used in checkpoints when none is configured.
pub open spec fn default_example_name() -> Seq<char> {
    "training"@
}

impl TrainingConfig {
    /// The configuration can be run: a checkpoint interval that is in use is
    /// not zero.
    pub open spec fn runnable(&self) -> bool {
        self.checkpoint_path is Some ==> self.checkpoint_interval != Some(0u32)
    }

    /// Progress is reported on every epoch of a run shorter than a hundred
    /// epochs, else on every hundredth part of it.
    pub open spec fn log_due(&self, epoch: u32) -> bool {
        self.verbose && (self.epochs < 100 || epoch % (self.epochs / 100) == 0)
    }

    /// A checkpoint is written after every epoch that is a multiple of the
    /// interval, when both an interval and a destination are set.
    pub open spec fn checkpoint_due(&self, epoch: u32) -> bool {
        match (self.checkpoint_interval, self.checkpoint_path) {
            (Some(interval), Some(_)) => epoch % interval == 0,
            _ => false,
        }
    }

    /// The example name written into checkpoints.
    pub open spec fn spec_example(&self) -> Seq<char> {
        match self.example_name {
            Some(name) => name@,
            None => default_example_name(),
        }
    }

    /// The actions that follow epoch `epoch` of this session.
    pub fn epoch_actions(&self, epoch: u32) -> (r: EpochActions)
        requires
            self.runnable(),
        ensures
            r.log == self.log_due(epoch),
            r.checkpoint == self.checkpoint_due(epoch),
    {
        let log = self.verbose && (self.epochs < 100 || epoch % (self.epochs / 100) == 0);
        let checkpoint = match (self.checkpoint_interval, &self.checkpoint_path) {
            (Some(interval), Some(_)) => epoch % interval == 0,
            _ => false,
        };
        EpochActions { log, checkpoint }
    }

    /// The example name written into checkpoints of this session.
    pub fn checkpoint_example(&self) -> (r: String)
        ensures
            r@ == self.spec_example(),
    {
        match &self.example_name {
            Some(name) => name.clone(),
            None => "training".to_owned(),
        }
    }
}

} // verus!
