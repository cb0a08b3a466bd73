use neural_network::examples::list_examples;

#[test]
fn examples_tests_test_list_examples() {
    let examples = list_examples();
    assert_eq!(examples.len(), 3);
    assert!(examples.contains(&"and"));
    assert!(examples.contains(&"or"));
    assert!(examples.contains(&"xor"));
}
