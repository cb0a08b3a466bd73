use neural_network::activations::{Activation, SIGMOID};
use neural_network::checkpoint::{
    restore_checkpoint, CheckpointError, CheckpointMetadata, CHECKPOINT_VERSION,
};
use neural_network::matrix::Matrix;
use neural_network::network::Network;

fn draw() -> f64 {
    0.25
}

fn metadata(version: &str) -> CheckpointMetadata<f64> {
    CheckpointMetadata {
        version: version.to_string(),
        example: "xor".to_string(),
        epoch: 100,
        total_epochs: 1000,
        learning_rate: 0.5,
        timestamp: "2025-10-13T12:00:00Z".to_string(),
    }
}

fn zeros(rows: usize, cols: usize) -> Matrix<f64> {
    Matrix::new(rows, cols, vec![0.0; rows * cols]).unwrap()
}

#[test]
fn test_checkpoint_version_constant() {
    assert_eq!(CHECKPOINT_VERSION, "1.0");
}

#[test]
fn test_checkpoint_metadata_creation() {
    let metadata = CheckpointMetadata {
        version: "1.0".to_string(),
        example: "test".to_string(),
        epoch: 50,
        total_epochs: 100,
        learning_rate: 0.5,
        timestamp: "2025-10-13T12:00:00Z".to_string(),
    };

    assert_eq!(metadata.version, "1.0");
    assert_eq!(metadata.epoch, 50);
}

#[test]
fn test_to_checkpoint() {
    let network = Network::new(vec![2, 3, 1], SIGMOID, 0.5, draw).unwrap();
    let metadata = CheckpointMetadata {
        version: "1.0".to_string(),
        example: "xor".to_string(),
        epoch: 100,
        total_epochs: 1000,
        learning_rate: 0.5,
        timestamp: "2025-10-13T12:00:00Z".to_string(),
    };

    let checkpoint = network.to_checkpoint(metadata);

    assert_eq!(checkpoint.metadata.epoch, 100);
    assert_eq!(checkpoint.network.layers, vec![2, 3, 1]);
}

#[test]
fn test_from_checkpoint_valid_version() {
    let network = Network::new(vec![2, 3, 1], SIGMOID, 0.5, draw).unwrap();
    let metadata = CheckpointMetadata {
        version: "1.0".to_string(),
        example: "xor".to_string(),
        epoch: 100,
        total_epochs: 1000,
        learning_rate: 0.5,
        timestamp: "2025-10-13T12:00:00Z".to_string(),
    };

    let checkpoint = network.to_checkpoint(metadata);
    let restored = Network::from_checkpoint(checkpoint).expect("Should succeed");

    assert_eq!(restored.layers, vec![2, 3, 1]);
}

#[test]
fn test_from_checkpoint_invalid_version() {
    let network = Network::new(vec![2, 3, 1], SIGMOID, 0.5, draw).unwrap();
    let metadata = CheckpointMetadata {
        version: "999.0".to_string(),
        example: "xor".to_string(),
        epoch: 100,
        total_epochs: 1000,
        learning_rate: 0.5,
        timestamp: "2025-10-13T12:00:00Z".to_string(),
    };

    let checkpoint = network.to_checkpoint(metadata);
    let result = Network::from_checkpoint(checkpoint);

    assert!(result.is_err());
}

#[test]
fn test_create_checkpoint() {
    let network = Network::new(vec![2, 3, 1], SIGMOID, 0.5, draw).unwrap();
    let metadata = CheckpointMetadata {
        version: "1.0".to_string(),
        example: "xor".to_string(),
        epoch: 1000,
        total_epochs: 10000,
        learning_rate: 0.5,
        timestamp: "2025-10-13T12:00:00Z".to_string(),
    };

    let checkpoint = network.to_checkpoint(metadata.clone());

    assert_eq!(checkpoint.metadata.epoch, 1000);
    assert_eq!(checkpoint.metadata.example, "xor");
    assert_eq!(checkpoint.metadata.version, "1.0");
}

#[test]
fn test_checkpoint_metadata_fields() {
    let metadata = CheckpointMetadata {
        version: "1.0".to_string(),
        example: "xor".to_string(),
        epoch: 5000,
        total_epochs: 10000,
        learning_rate: 0.5,
        timestamp: "2025-10-13T12:34:56Z".to_string(),
    };

    // All fields should be accessible
    assert_eq!(metadata.version, "1.0");
    assert_eq!(metadata.example, "xor");
    assert_eq!(metadata.epoch, 5000);
    assert_eq!(metadata.total_epochs, 10000);
    assert_eq!(metadata.learning_rate, 0.5);
    assert!(!metadata.timestamp.is_empty());
}

#[test]
fn checkpoint_copies_the_whole_network() {
    let network = Network::new(vec![2, 3, 1], SIGMOID, 0.5, draw).unwrap();
    let checkpoint = network.to_checkpoint(metadata("1.0"));
    let restored = Network::from_checkpoint(checkpoint).unwrap();
    assert_eq!(restored.layers, network.layers);
    assert_eq!(restored.activation, network.activation);
    assert_eq!(restored.learning_rate, network.learning_rate);
    for (a, b) in restored.weights.iter().zip(network.weights.iter()) {
        assert_eq!((a.rows, a.cols, &a.data), (b.rows, b.cols, &b.data));
    }
    for (a, b) in restored.biases.iter().zip(network.biases.iter()) {
        assert_eq!((a.rows, a.cols, &a.data), (b.rows, b.cols, &b.data));
    }
}

#[test]
fn from_checkpoint_rejects_other_versions_whatever_the_network() {
    let broken = Network {
        layers: vec![2, 3, 1],
        weights: vec![],
        biases: vec![],
        activation: Activation::Sigmoid,
        learning_rate: 0.5,
    };
    for version in ["999.0", "", "1.0.0", "1", " 1.0"] {
        let checkpoint = broken.to_checkpoint(metadata(version));
        match Network::from_checkpoint(checkpoint) {
            Err(e) => assert_eq!(e, CheckpointError::UnsupportedVersion { found: version.to_string() }),
            Ok(_) => panic!("version {:?} accepted", version),
        }
    }
    assert!(Network::from_checkpoint(broken.to_checkpoint(metadata("1.0"))).is_ok());
}

#[test]
fn restore_checks_the_version_first() {
    let result = restore_checkpoint(metadata("999.0"), vec![2, 3, 1], vec![], vec![], "sigmoid", 0.5);
    match result {
        Err(e) => assert_eq!(e, CheckpointError::UnsupportedVersion { found: "999.0".to_string() }),
        Ok(_) => panic!("unsupported version accepted"),
    }
}

#[test]
fn restore_rejects_documents_that_describe_no_network() {
    let unknown = restore_checkpoint(
        metadata("1.0"),
        vec![2, 1],
        vec![zeros(1, 2)],
        vec![zeros(1, 1)],
        "tanh",
        0.5,
    );
    assert!(matches!(unknown, Err(CheckpointError::Parse { .. })));

    let misshapen = restore_checkpoint(metadata("1.0"), vec![2, 3, 1], vec![], vec![], "sigmoid", 0.5);
    assert!(matches!(misshapen, Err(CheckpointError::Parse { .. })));

    let one_layer = restore_checkpoint(metadata("1.0"), vec![2], vec![], vec![], "sigmoid", 0.5);
    assert!(matches!(one_layer, Err(CheckpointError::Parse { .. })));
}

#[test]
fn restore_builds_the_network() {
    let (network, meta) = match restore_checkpoint(
        metadata("1.0"),
        vec![2, 1],
        vec![Matrix::new(1, 2, vec![0.5, -0.5]).unwrap()],
        vec![zeros(1, 1)],
        "sigmoid",
        0.75,
    ) {
        Ok(pair) => pair,
        Err(e) => panic!("valid document refused: {:?}", e),
    };
    assert_eq!(network.layers, vec![2, 1]);
    assert_eq!(network.weights[0].data, vec![0.5, -0.5]);
    assert_eq!(network.activation, Activation::Sigmoid);
    assert_eq!(network.learning_rate, 0.75);
    assert_eq!(meta.example, "xor");
    assert_eq!(meta.epoch, 100);
}
