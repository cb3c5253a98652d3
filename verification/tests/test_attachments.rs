use allure_core::{
    add_attachment, add_attachment_with_type, end_test, start_test_with_context,
    AttachmentType, Outcome, TestContext,
};

#[test]
fn test_text_attachments() {
    let mut ctx = TestContext::new();
    start_test_with_context(&mut ctx, "Text attachments", None, Some("test_attachments"));

    add_attachment(&mut ctx, "plain_text", "This is a simple text attachment");

    add_attachment(
        &mut ctx,
        "formatted_text",
        format!("Formatted text with values: {} and {}", 42, "test"),
    );

    add_attachment_with_type(
        &mut ctx,
        "explicit_text",
        "Text with explicit type",
        AttachmentType::Text,
    );

    let document = end_test(ctx, "Text attachments", &Outcome::Passed);
    assert_eq!(document.attachments.len(), 3);
    assert_eq!(document.attachments[0].attachment_type, "text/plain");
    assert_eq!(document.attachments[1].attachment_type, "text/plain");
    assert_eq!(document.attachments[2].attachment_type, "text/plain");
}

#[test]
fn test_json_attachments() {
    let mut ctx = TestContext::new();
    start_test_with_context(&mut ctx, "JSON attachments", None, Some("test_attachments"));

    let mut simple = serde_json::Map::new();
    simple.insert(
        "name".to_string(),
        serde_json::Value::String("Test".to_string()),
    );
    simple.insert(
        "value".to_string(),
        serde_json::Value::Number(serde_json::Number::from(123)),
    );
    simple.insert("active".to_string(), serde_json::Value::Bool(true));
    add_attachment(&mut ctx, "simple_json", serde_json::Value::Object(simple));

    let mut alice = serde_json::Map::new();
    alice.insert(
        "name".to_string(),
        serde_json::Value::String("Alice".to_string()),
    );
    alice.insert(
        "age".to_string(),
        serde_json::Value::Number(serde_json::Number::from(30)),
    );
    let mut bob = serde_json::Map::new();
    bob.insert(
        "name".to_string(),
        serde_json::Value::String("Bob".to_string()),
    );
    bob.insert(
        "age".to_string(),
        serde_json::Value::Number(serde_json::Number::from(25)),
    );
    let mut metadata = serde_json::Map::new();
    metadata.insert(
        "version".to_string(),
        serde_json::Value::String("1.0".to_string()),
    );
    metadata.insert(
        "timestamp".to_string(),
        serde_json::Value::Number(serde_json::Number::from(1234567890)),
    );
    let mut complex = serde_json::Map::new();
    complex.insert(
        "users".to_string(),
        serde_json::Value::Array(vec![
            serde_json::Value::Object(alice),
            serde_json::Value::Object(bob),
        ]),
    );
    complex.insert("metadata".to_string(), serde_json::Value::Object(metadata));
    add_attachment(&mut ctx, "complex_json", serde_json::Value::Object(complex));

    let document = end_test(ctx, "JSON attachments", &Outcome::Passed);
    assert_eq!(document.attachments.len(), 2);
    assert_eq!(document.attachments[0].attachment_type, "application/json");
    assert_eq!(document.attachments[1].attachment_type, "application/json");
}

#[test]
fn test_html_attachments() {
    let mut ctx = TestContext::new();
    start_test_with_context(&mut ctx, "HTML attachments", None, Some("test_attachments"));

    add_attachment_with_type(
        &mut ctx,
        "simple_html",
        "<html><body><h1>Test Report</h1><p>Status: Passed</p></body></html>",
        AttachmentType::Html,
    );

    add_attachment_with_type(
        &mut ctx,
        "styled_html",
        r#"<html>
<head><style>body { font-family: Arial; } h1 { color: green; }</style></head>
<body>
    <h1>Test Results</h1>
    <ul>
        <li>Test 1: Passed</li>
        <li>Test 2: Passed</li>
        <li>Test 3: Failed</li>
    </ul>
</body>
</html>"#,
        AttachmentType::Html,
    );

    let document = end_test(ctx, "HTML attachments", &Outcome::Passed);
    assert_eq!(document.attachments.len(), 2);
    assert_eq!(document.attachments[0].attachment_type, "text/html");
}

#[test]
fn test_xml_attachments() {
    let mut ctx = TestContext::new();
    start_test_with_context(&mut ctx, "XML attachments", None, Some("test_attachments"));

    add_attachment_with_type(
        &mut ctx,
        "config_xml",
        r#"<?xml version="1.0" encoding="UTF-8"?>
<configuration>
    <database>
        <host>localhost</host>
        <port>5432</port>
    </database>
    <logging>
        <level>INFO</level>
    </logging>
</configuration>"#,
        AttachmentType::Xml,
    );

    let document = end_test(ctx, "XML attachments", &Outcome::Passed);
    assert_eq!(document.attachments[0].attachment_type, "application/xml");
}

#[test]
fn test_yaml_attachments() {
    let mut ctx = TestContext::new();
    start_test_with_context(&mut ctx, "YAML attachments", None, Some("test_attachments"));

    add_attachment_with_type(
        &mut ctx,
        "config_yaml",
        r#"database:
  host: localhost
  port: 5432
  name: testdb
logging:
  level: INFO
  format: json
features:
  - authentication
  - authorization
  - logging"#,
        AttachmentType::Yaml,
    );

    let document = end_test(ctx, "YAML attachments", &Outcome::Passed);
    assert_eq!(document.attachments[0].attachment_type, "application/yaml");
}

#[test]
fn test_csv_attachments() {
    let mut ctx = TestContext::new();
    start_test_with_context(&mut ctx, "CSV attachments", None, Some("test_attachments"));

    add_attachment_with_type(
        &mut ctx,
        "users_csv",
        "Name,Age,Email,Active\nAlice,30,alice@example.com,true\nBob,25,bob@example.com,false\nCharlie,35,charlie@example.com,true",
        AttachmentType::Csv,
    );

    add_attachment_with_type(
        &mut ctx,
        "results_csv",
        "Test,Status,Duration\nTest 1,Passed,1.2s\nTest 2,Failed,0.8s\nTest 3,Passed,2.1s",
        AttachmentType::Csv,
    );

    let document = end_test(ctx, "CSV attachments", &Outcome::Passed);
    assert_eq!(document.attachments.len(), 2);
    assert_eq!(document.attachments[0].attachment_type, "text/csv");
}

#[test]
fn test_tsv_attachments() {
    let mut ctx = TestContext::new();
    start_test_with_context(&mut ctx, "TSV attachments", None, Some("test_attachments"));

    add_attachment_with_type(
        &mut ctx,
        "data_tsv",
        "Name\tAge\tScore\nAlice\t30\t95\nBob\t25\t87\nCharlie\t35\t92",
        AttachmentType::Tsv,
    );

    let document = end_test(ctx, "TSV attachments", &Outcome::Passed);
    assert_eq!(
        document.attachments[0].attachment_type,
        "text/tab-separated-values"
    );
}

#[test]
fn test_uri_list_attachments() {
    let mut ctx = TestContext::new();
    start_test_with_context(&mut ctx, "URI list attachments", None, Some("test_attachments"));

    add_attachment_with_type(
        &mut ctx,
        "related_links",
        "https://example.com/test1\nhttps://example.com/test2\nhttps://example.com/test3",
        AttachmentType::UriList,
    );

    let document = end_test(ctx, "URI list attachments", &Outcome::Passed);
    assert_eq!(document.attachments[0].attachment_type, "text/uri-list");
}

#[test]
fn test_image_attachments() {
    let mut ctx = TestContext::new();
    start_test_with_context(&mut ctx, "Image attachments", None, Some("test_attachments"));

    let fake_png = vec![0x89, 0x50, 0x4E, 0x47, 0x0D, 0x0A, 0x1A, 0x0A];

    add_attachment_with_type(&mut ctx, "screenshot_png", fake_png.clone(), AttachmentType::Png);

    add_attachment_with_type(&mut ctx, "photo_jpeg", fake_png.clone(), AttachmentType::Jpeg);

    add_attachment_with_type(&mut ctx, "icon_gif", fake_png.clone(), AttachmentType::Gif);

    add_attachment_with_type(&mut ctx, "bitmap_bmp", fake_png.clone(), AttachmentType::Bmp);

    add_attachment_with_type(&mut ctx, "image_tiff", fake_png, AttachmentType::Tiff);

    let document = end_test(ctx, "Image attachments", &Outcome::Passed);
    assert_eq!(document.attachments.len(), 5);
    assert_eq!(document.attachments[0].attachment_type, "image/png");
    assert_eq!(document.attachments[1].attachment_type, "image/jpeg");
    assert_eq!(document.attachments[2].attachment_type, "image/gif");
    assert_eq!(document.attachments[3].attachment_type, "image/bmp");
    assert_eq!(document.attachments[4].attachment_type, "image/tiff");
}

#[test]
fn test_svg_attachments() {
    let mut ctx = TestContext::new();
    start_test_with_context(&mut ctx, "SVG attachments", None, Some("test_attachments"));

    add_attachment_with_type(
        &mut ctx,
        "chart_svg",
        r#"<svg width="200" height="200" xmlns="http://www.w3.org/2000/svg">
    <circle cx="100" cy="100" r="80" fill="blue" />
    <text x="100" y="105" text-anchor="middle" fill="white" font-size="20">Test</text>
</svg>"#,
        AttachmentType::Svg,
    );

    add_attachment_with_type(
        &mut ctx,
        "graph_svg",
        r#"<svg width="300" height="200">
    <rect x="10" y="10" width="80" height="100" fill="green" />
    <rect x="110" y="50" width="80" height="60" fill="red" />
    <rect x="210" y="30" width="80" height="80" fill="blue" />
</svg>"#,
        AttachmentType::Svg,
    );

    let document = end_test(ctx, "SVG attachments", &Outcome::Passed);
    assert_eq!(document.attachments.len(), 2);
    assert_eq!(document.attachments[0].attachment_type, "image/svg+xml");
    assert!(document.attachments[0].source.ends_with(".svg"));
    assert!(document.attachments[1].source.ends_with(".svg"));
}

#[test]
fn test_image_diff() {
    let mut ctx = TestContext::new();
    start_test_with_context(&mut ctx, "Image diff attachment", None, Some("test_attachments"));

    let fake_diff = vec![0x89, 0x50, 0x4E, 0x47, 0x0D, 0x0A, 0x1A, 0x0A];

    add_attachment_with_type(&mut ctx, "visual_diff", fake_diff, AttachmentType::ImageDiff);

    let document = end_test(ctx, "Image diff attachment", &Outcome::Passed);
    assert_eq!(
        document.attachments[0].attachment_type,
        "application/vnd.allure.image.diff"
    );
    assert!(document.attachments[0].source.ends_with(".diff.png"));
}

#[test]
fn test_mixed_attachments() {
    let mut ctx = TestContext::new();
    start_test_with_context(&mut ctx, "Mixed attachment types", None, Some("test_attachments"));

    add_attachment(&mut ctx, "description", "Test with multiple attachment types");

    let mut object = serde_json::Map::new();
    object.insert(
        "test_id".to_string(),
        serde_json::Value::String("mixed_001".to_string()),
    );
    object.insert(
        "timestamp".to_string(),
        serde_json::Value::Number(serde_json::Number::from(1234567890)),
    );
    add_attachment(&mut ctx, "test_data", serde_json::Value::Object(object));

    add_attachment_with_type(
        &mut ctx,
        "report_html",
        "<html><body><h2>Summary</h2><p>All checks passed</p></body></html>",
        AttachmentType::Html,
    );

    add_attachment_with_type(
        &mut ctx,
        "metrics_csv",
        "Metric,Value\nDuration,1.5s\nMemory,128MB",
        AttachmentType::Csv,
    );

    let screenshot = vec![0x89, 0x50, 0x4E, 0x47, 0x0D, 0x0A, 0x1A, 0x0A];
    add_attachment_with_type(&mut ctx, "final_state", screenshot, AttachmentType::Png);

    let document = end_test(ctx, "Mixed attachment types", &Outcome::Passed);
    assert_eq!(document.attachments.len(), 5);
}

#[test]
fn test_all_types() {
    let mut ctx = TestContext::new();
    start_test_with_context(
        &mut ctx,
        "All supported attachment types",
        None,
        Some("test_attachments"),
    );

    add_attachment(&mut ctx, "text", "Plain text");
    add_attachment_with_type(
        &mut ctx,
        "html",
        "<html><body>HTML</body></html>",
        AttachmentType::Html,
    );
    add_attachment_with_type(
        &mut ctx,
        "xml",
        "<?xml version=\"1.0\"?><root/>",
        AttachmentType::Xml,
    );
    let mut object = serde_json::Map::new();
    object.insert(
        "type".to_string(),
        serde_json::Value::String("json".to_string()),
    );
    add_attachment(&mut ctx, "json", serde_json::Value::Object(object));
    add_attachment_with_type(&mut ctx, "yaml", "key: value", AttachmentType::Yaml);
    add_attachment_with_type(&mut ctx, "csv", "A,B\n1,2", AttachmentType::Csv);
    add_attachment_with_type(&mut ctx, "tsv", "A\tB\n1\t2", AttachmentType::Tsv);
    add_attachment_with_type(&mut ctx, "uri", "https://example.com", AttachmentType::UriList);

    let img = vec![0x89, 0x50, 0x4E, 0x47];
    add_attachment_with_type(&mut ctx, "png", img.clone(), AttachmentType::Png);
    add_attachment_with_type(&mut ctx, "jpeg", img.clone(), AttachmentType::Jpeg);
    add_attachment_with_type(&mut ctx, "gif", img.clone(), AttachmentType::Gif);
    add_attachment_with_type(&mut ctx, "bmp", img.clone(), AttachmentType::Bmp);
    add_attachment_with_type(&mut ctx, "tiff", img.clone(), AttachmentType::Tiff);
    add_attachment_with_type(&mut ctx, "svg", "<svg></svg>", AttachmentType::Svg);
    add_attachment_with_type(&mut ctx, "diff", img, AttachmentType::ImageDiff);

    let document = end_test(ctx, "All supported attachment types", &Outcome::Passed);
    assert_eq!(document.attachments.len(), 15);
}
