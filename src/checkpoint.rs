use vstd::prelude::*;
use crate::activations::{activation_name, Activation};
use crate::layers::{shapes_fit, valid_layers};
use crate::matrix::Matrix;
use crate::network::{Network, NetworkError};
use crate::scalar::{deterministic, ScalarOp};
use crate::text::same_text;

verus! {

/// The checkpoint format version that this library writes and reads.
pub const CHECKPOINT_VERSION: &'static str = "1.0";

/// Metadata about a training checkpoint.
#[derive(Clone, Debug)]
pub struct CheckpointMetadata<T> {
    /// Checkpoint format version.
    pub version: String,
    /// Name of the example being trained.
    pub example: String,
    /// How many epochs training had completed.
    pub epoch: u32,
    /// How many epochs the session was set to run.
    pub total_epochs: u32,
    /// Learning rate used during training.
    pub learning_rate: T,
    /// RFC 3339 time at which the checkpoint was made.
    pub timestamp: String,
}

/// A network together with the metadata of its training session.
#[derive(Clone, Debug)]
pub struct Checkpoint<T> {
    pub metadata: CheckpointMetadata<T>,
    pub network: Network<T>,
}

/// Why a checkpoint could not be written or read back.
#[derive(Clone, Debug, PartialEq, Eq)]
pub enum CheckpointError {
    /// The checkpoint declares a format version other than the supported one.
    UnsupportedVersion { found: String },
    /// The file could not be read, written, or its directory created.
    Io { message: String },
    /// The file's content is not a checkpoint document.
    Parse { message: String },
}

impl<T: Copy> Network<T> {
    /// A checkpoint holding a copy of this network.
    pub fn to_checkpoint(&self, metadata: CheckpointMetadata<T>) -> (r: Checkpoint<T>)
        ensures
            r.metadata == metadata,
            r.network.same_as(self),
    {
        Checkpoint { metadata, network: self.deep_copy() }
    }
}

impl<T> Network<T> {
    /// The network of `checkpoint`, provided its format version is the
    /// supported one, whatever the network holds.
    pub fn from_checkpoint(checkpoint: Checkpoint<T>) -> (r: Result<Network<T>, CheckpointError>)
        ensures
            r is Ok <==> checkpoint.metadata.version@ == CHECKPOINT_VERSION@,
            r matches Ok(n) ==> n == checkpoint.network,
            r matches Err(e) ==> e matches CheckpointError::UnsupportedVersion { found }
                && found@ == checkpoint.metadata.version@,
    {
        if same_text(checkpoint.metadata.version.as_str(), CHECKPOINT_VERSION) {
            Ok(checkpoint.network)
        } else {
            Err(CheckpointError::UnsupportedVersion { found: checkpoint.metadata.version })
        }
    }
}

/// A network taken back out of a checkpoint made from it predicts exactly as
/// the network itself, for every input, whenever the scalar operations give
/// one result per operands.
pub proof fn lemma_checkpoint_keeps_predictions<T, F: Fn(ScalarOp, T, T) -> T>(
    net: Network<T>,
    checkpoint: Checkpoint<T>,
    restored: Network<T>,
    f: F,
    zero: T,
    input: Seq<T>,
    before: Matrix<T>,
    after: Matrix<T>,
)
    requires
        deterministic(f),
        checkpoint.network.same_as(&net),
        restored == checkpoint.network,
        net.is_output(f, zero, input, before),
        restored.is_output(f, zero, input, after),
    ensures
        before.same_as(&after),
{
    assert(net.weight_cells() =~= restored.weight_cells());
    assert(net.bias_cells() =~= restored.bias_cells());
}

/// The parts of a checkpoint document describe a network: a known
/// activation, valid layers, and weights and biases that fit them.
pub open spec fn document_fits<T>(
    layers: Seq<usize>,
    weights: Seq<Matrix<T>>,
    biases: Seq<Matrix<T>>,
    activation: Seq<char>,
) -> bool {
    &&& activation == activation_name(Activation::Sigmoid)
    &&& valid_layers(layers)
    &&& shapes_fit(layers, weights, biases)
}

/// The network and metadata of a decoded checkpoint document. The format
/// version is checked first, before anything of the network.
pub fn restore_checkpoint<T>(
    metadata: CheckpointMetadata<T>,
    layers: Vec<usize>,
    weights: Vec<Matrix<T>>,
    biases: Vec<Matrix<T>>,
    activation: &str,
    learning_rate: T,
) -> (r: Result<(Network<T>, CheckpointMetadata<T>), CheckpointError>)
    ensures
        r is Ok <==> metadata.version@ == CHECKPOINT_VERSION@ && document_fits(
            layers@,
            weights@,
            biases@,
            activation@,
        ),
        metadata.version@ != CHECKPOINT_VERSION@ ==> (r matches Err(
            CheckpointError::UnsupportedVersion { found },
        ) && found@ == metadata.version@),
        metadata.version@ == CHECKPOINT_VERSION@ && !document_fits(layers@, weights@, biases@, activation@)
            ==> r matches Err(CheckpointError::Parse { .. }),
        r matches Ok((n, m)) ==> {
            &&& m == metadata
            &&& n.wf()
            &&& n.layers == layers
            &&& n.weights == weights
            &&& n.biases == biases
            &&& activation_name(n.activation) == activation@
            &&& n.learning_rate == learning_rate
        },
{
    if !same_text(metadata.version.as_str(), CHECKPOINT_VERSION) {
        return Err(CheckpointError::UnsupportedVersion { found: metadata.version.clone() });
    }
    let activation = match Activation::from_name(activation) {
        Ok(a) => a,
        Err(_) => {
            return Err(CheckpointError::Parse { message: "unknown activation function".to_owned() });
        },
    };
    match Network::from_parts(layers, weights, biases, activation, learning_rate) {
        Ok(n) => Ok((n, metadata)),
        Err(NetworkError::InvalidLayers) => Err(
            CheckpointError::Parse { message: "a network needs at least two non-empty layers".to_owned() },
        ),
        Err(_) => Err(
            CheckpointError::Parse { message: "weights and biases do not fit the layers".to_owned() },
        ),
    }
}

} // verus!
