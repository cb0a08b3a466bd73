use neural_network::activations::{Activation, UnknownActivation, SIGMOID};

#[test]
fn sigmoid_name_round_trips() {
    assert_eq!(SIGMOID.name(), "sigmoid");
    assert_eq!(Activation::from_name(SIGMOID.name()), Ok(Activation::Sigmoid));
}

#[test]
fn unknown_activation_name_is_rejected() {
    assert_eq!(
        Activation::from_name("relu"),
        Err(UnknownActivation { name: "relu".to_string() })
    );
    assert!(Activation::from_name("Sigmoid").is_err());
    assert!(Activation::from_name("").is_err());
}
