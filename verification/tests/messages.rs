use arith_demo::greet;
use arith_demo::test_module;

#[test]
fn greet_builds_the_greeting() {
    assert_eq!(greet("Rustacean"), "Hello, Rustacean!");
    assert_eq!(greet(""), "Hello, !");
}

#[test]
fn test1_message() {
    assert_eq!(test_module::test1(), "Inside test_module::test1");
}

#[test]
fn test2_message() {
    assert_eq!(test_module::test2(), "Inside test_module::test2");
}

#[test]
fn run_tests_emits_three_lines_in_order() {
    let lines = test_module::run_tests();
    assert_eq!(lines.len(), 3);
    assert_eq!(lines[0], "Inside test_module::helper");
    assert_eq!(lines[1], "Inside test_module::test1");
    assert_eq!(lines[2], "Inside test_module::test2");
}
