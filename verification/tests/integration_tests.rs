use allure_core::models::Parameter;
use allure_core::{
    add_attachment, end_step, end_test, start_step, start_step_with_params, start_test,
    Outcome, Status, TestContext,
};

fn helper_step(ctx: &mut TestContext, value: i32) -> i32 {
    start_step_with_params(
        ctx,
        "Helper step function",
        vec![Parameter {
            name: "value".to_string(),
            value: format!("{:?}", value),
        }],
    );
    let result = value * 2;
    end_step(ctx, &Outcome::Passed);
    result
}

#[test]
fn test_basic_integration() {
    let mut ctx = TestContext::new();
    start_test(&mut ctx, "Integration test - basic functionality");

    let result = helper_step(&mut ctx, 21);
    assert_eq!(result, 42);

    let document = end_test(
        ctx,
        "Integration test - basic functionality",
        &Outcome::Passed,
    );
    assert_eq!(document.steps.len(), 1);
}

#[test]
fn test_with_inline_steps() {
    let mut ctx = TestContext::new();
    start_test(&mut ctx, "Integration test - with inline steps");

    start_step(&mut ctx, "Step 1: Initialize");
    let x = 10;
    assert_eq!(x, 10);
    end_step(&mut ctx, &Outcome::Passed);

    start_step(&mut ctx, "Step 2: Process");
    let y = 20;
    assert_eq!(y, 20);
    end_step(&mut ctx, &Outcome::Passed);

    start_step(&mut ctx, "Step 3: Verify");
    assert!(true);
    end_step(&mut ctx, &Outcome::Passed);

    let document = end_test(ctx, "Integration test - with inline steps", &Outcome::Passed);
    assert_eq!(document.steps.len(), 3);
}

#[test]
fn test_with_attachments() {
    let mut ctx = TestContext::new();
    start_test(&mut ctx, "Integration test - with attachments");

    add_attachment(&mut ctx, "text_data", "Sample text");

    let mut object = serde_json::Map::new();
    object.insert(
        "test".to_string(),
        serde_json::Value::String("integration".to_string()),
    );
    object.insert(
        "status".to_string(),
        serde_json::Value::String("running".to_string()),
    );
    add_attachment(&mut ctx, "json_data", serde_json::Value::Object(object));

    assert!(true);

    let document = end_test(ctx, "Integration test - with attachments", &Outcome::Passed);
    assert_eq!(document.attachments.len(), 2);
}

#[test]
fn test_nested_steps_integration() {
    let mut ctx = TestContext::new();
    start_test(&mut ctx, "Integration test - nested steps");

    start_step(&mut ctx, "Outer step");
    let outer_value = 100;

    start_step(&mut ctx, "Inner step 1");
    assert!(outer_value > 0);
    end_step(&mut ctx, &Outcome::Passed);

    start_step(&mut ctx, "Inner step 2");
    assert_eq!(outer_value, 100);
    end_step(&mut ctx, &Outcome::Passed);

    end_step(&mut ctx, &Outcome::Passed);

    let document = end_test(ctx, "Integration test - nested steps", &Outcome::Passed);
    assert_eq!(document.steps.len(), 1);
    assert_eq!(document.steps[0].steps.len(), 2);
}

#[test]
fn test_function_steps_with_params() {
    let mut ctx = TestContext::new();
    start_test(&mut ctx, "Integration test - function steps with parameters");

    let a = 10;
    let b = 20;
    start_step_with_params(
        &mut ctx,
        "Calculate sum",
        vec![
            Parameter {
                name: "a".to_string(),
                value: format!("{:?}", a),
            },
            Parameter {
                name: "b".to_string(),
                value: format!("{:?}", b),
            },
        ],
    );
    let result = a + b;
    end_step(&mut ctx, &Outcome::Passed);

    let expected = 30;
    start_step_with_params(
        &mut ctx,
        "Verify result",
        vec![
            Parameter {
                name: "actual".to_string(),
                value: format!("{:?}", result),
            },
            Parameter {
                name: "expected".to_string(),
                value: format!("{:?}", expected),
            },
        ],
    );
    assert_eq!(result, expected);
    end_step(&mut ctx, &Outcome::Passed);

    let document = end_test(
        ctx,
        "Integration test - function steps with parameters",
        &Outcome::Passed,
    );
    assert_eq!(document.steps.len(), 2);
}

#[test]
fn test_mixed_functionality() {
    let mut ctx = TestContext::new();
    start_test(&mut ctx, "Integration test - mixed steps and attachments");

    start_step(&mut ctx, "Setup phase");
    add_attachment(&mut ctx, "setup_info", "Initializing test data");
    let data = vec![1, 2, 3, 4, 5];
    assert_eq!(data.len(), 5);
    end_step(&mut ctx, &Outcome::Passed);

    start_step(&mut ctx, "Execution phase");
    let result = helper_step(&mut ctx, 5);
    let mut object = serde_json::Map::new();
    object.insert(
        "input".to_string(),
        serde_json::Value::Number(serde_json::Number::from(5)),
    );
    object.insert(
        "output".to_string(),
        serde_json::Value::Number(serde_json::Number::from(result)),
    );
    add_attachment(
        &mut ctx,
        "execution_result",
        serde_json::Value::Object(object),
    );
    assert_eq!(result, 10);
    end_step(&mut ctx, &Outcome::Passed);

    start_step(&mut ctx, "Verification phase");
    add_attachment(&mut ctx, "verification_status", "All checks passed");
    assert!(true);
    end_step(&mut ctx, &Outcome::Passed);

    let document = end_test(
        ctx,
        "Integration test - mixed steps and attachments",
        &Outcome::Passed,
    );
    assert_eq!(document.steps.len(), 3);
}

#[test]
fn test_error_handling() {
    let mut ctx = TestContext::new();
    start_test(&mut ctx, "Integration test - error handling");

    start_step(&mut ctx, "Step 1");
    add_attachment(&mut ctx, "info", "First step completed");
    assert!(true);
    end_step(&mut ctx, &Outcome::Passed);

    start_step(&mut ctx, "Step 2");
    add_attachment(&mut ctx, "info", "Second step completed");
    assert_eq!(1 + 1, 2);
    end_step(&mut ctx, &Outcome::Passed);

    let document = end_test(ctx, "Integration test - error handling", &Outcome::Passed);
    assert!(matches!(document.status, Status::Passed));
}

#[test]
fn test_multiple_function_steps() {
    let mut ctx = TestContext::new();
    start_test(&mut ctx, "Integration test - multiple function steps");

    start_step(&mut ctx, "Step 1");
    let val1 = 42;
    end_step(&mut ctx, &Outcome::Passed);

    start_step_with_params(
        &mut ctx,
        "Step 2",
        vec![Parameter {
            name: "value".to_string(),
            value: format!("{:?}", val1),
        }],
    );
    let val2 = val1 + 10;
    end_step(&mut ctx, &Outcome::Passed);

    start_step_with_params(
        &mut ctx,
        "Step 3",
        vec![Parameter {
            name: "value".to_string(),
            value: format!("{:?}", val2),
        }],
    );
    let result = format!("Result: {}", val2);
    end_step(&mut ctx, &Outcome::Passed);

    assert_eq!(result, "Result: 52");

    let document = end_test(
        ctx,
        "Integration test - multiple function steps",
        &Outcome::Passed,
    );
    assert_eq!(document.steps.len(), 3);
}

#[test]
fn test_complex_nested_structure() {
    let mut ctx = TestContext::new();
    start_test(&mut ctx, "Integration test - complex nested structure");

    start_step(&mut ctx, "Level 1");
    add_attachment(&mut ctx, "level1_info", "Starting level 1");

    start_step(&mut ctx, "Level 2a");
    add_attachment(&mut ctx, "level2a_info", "In level 2a");

    start_step(&mut ctx, "Level 3");
    assert!(true);
    end_step(&mut ctx, &Outcome::Passed);

    end_step(&mut ctx, &Outcome::Passed);

    start_step(&mut ctx, "Level 2b");
    add_attachment(&mut ctx, "level2b_info", "In level 2b");
    assert_eq!(1 + 1, 2);
    end_step(&mut ctx, &Outcome::Passed);

    end_step(&mut ctx, &Outcome::Passed);

    let document = end_test(
        ctx,
        "Integration test - complex nested structure",
        &Outcome::Passed,
    );
    assert_eq!(document.steps.len(), 1);
    let level1 = &document.steps[0];
    assert_eq!(level1.steps.len(), 2);
    assert_eq!(level1.steps[0].name, "Level 2a");
    assert_eq!(level1.steps[0].steps.len(), 1);
    assert_eq!(level1.steps[0].steps[0].name, "Level 3");
    assert_eq!(level1.steps[1].name, "Level 2b");
}

#[test]
fn test_data_driven() {
    let mut ctx = TestContext::new();
    start_test(&mut ctx, "Integration test - data-driven");

    let test_cases = vec![(2, 4), (5, 10), (10, 20), (100, 200)];

    for (input, expected) in test_cases {
        start_step(&mut ctx, "Execute test case");
        let result = helper_step(&mut ctx, input);
        let mut object = serde_json::Map::new();
        object.insert(
            "input".to_string(),
            serde_json::Value::Number(serde_json::Number::from(input)),
        );
        object.insert(
            "expected".to_string(),
            serde_json::Value::Number(serde_json::Number::from(expected)),
        );
        object.insert(
            "actual".to_string(),
            serde_json::Value::Number(serde_json::Number::from(result)),
        );
        add_attachment(
            &mut ctx,
            "test_case_result",
            serde_json::Value::Object(object),
        );
        assert_eq!(result, expected);
        end_step(&mut ctx, &Outcome::Passed);
    }

    let document = end_test(ctx, "Integration test - data-driven", &Outcome::Passed);
    assert_eq!(document.steps.len(), 4);
}
