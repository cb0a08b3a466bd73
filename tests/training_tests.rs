use neural_network::training::{EpochActions, TrainingConfig};
use std::path::PathBuf;

fn config(epochs: u32, interval: Option<u32>, path: Option<&str>, verbose: bool) -> TrainingConfig {
    TrainingConfig {
        epochs,
        checkpoint_interval: interval,
        checkpoint_path: path.map(PathBuf::from),
        verbose,
        example_name: None,
    }
}

#[test]
fn test_training_config_defaults() {
    let config = TrainingConfig {
        epochs: 1000,
        checkpoint_interval: None,
        checkpoint_path: None,
        verbose: false,
        example_name: None,
    };

    assert_eq!(config.epochs, 1000);
    assert!(config.checkpoint_interval.is_none());
    assert!(config.checkpoint_path.is_none());
    assert!(!config.verbose);
}

#[test]
fn single_checkpoint_at_final_epoch() {
    let cfg = config(50, Some(50), Some("final_checkpoint.json"), false);
    let due: Vec<u32> = (1..=cfg.epochs)
        .filter(|&e| cfg.epoch_actions(e).checkpoint)
        .collect();
    assert_eq!(due, vec![50]);
}

#[test]
fn checkpoints_every_interval() {
    let cfg = config(100, Some(25), Some("auto_checkpoint.json"), false);
    let due: Vec<u32> = (1..=cfg.epochs)
        .filter(|&e| cfg.epoch_actions(e).checkpoint)
        .collect();
    assert_eq!(due, vec![25, 50, 75, 100]);
}

#[test]
fn no_checkpoint_without_path_or_interval() {
    let no_path = config(10, Some(1), None, false);
    let no_interval = config(10, None, Some("x.json"), false);
    for e in 1..=10 {
        assert!(!no_path.epoch_actions(e).checkpoint);
        assert!(!no_interval.epoch_actions(e).checkpoint);
    }
}

#[test]
fn verbose_short_run_logs_every_epoch() {
    let cfg = config(10, None, None, true);
    for e in 1..=10 {
        assert_eq!(cfg.epoch_actions(e), EpochActions { log: true, checkpoint: false });
    }
}

#[test]
fn verbose_long_run_logs_each_hundredth() {
    let cfg = config(1000, None, None, true);
    let logged: Vec<u32> = (1..=cfg.epochs).filter(|&e| cfg.epoch_actions(e).log).collect();
    assert_eq!(logged.len(), 100);
    assert_eq!(logged[0], 10);
    assert_eq!(logged[99], 1000);
    assert!(!cfg.epoch_actions(15).log);
}

#[test]
fn quiet_run_never_logs() {
    let cfg = config(10, None, None, false);
    assert!((1..=10).all(|e| !cfg.epoch_actions(e).log));
}

#[test]
fn checkpoint_example_name() {
    let mut cfg = config(10, None, None, false);
    assert_eq!(cfg.checkpoint_example(), "training");
    cfg.example_name = Some("xor".to_string());
    assert_eq!(cfg.checkpoint_example(), "xor");
}
