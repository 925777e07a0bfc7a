use zk_circuit_fuzzer::reporting::formatter::{OutputFormat, ReportFormatter};

#[test]
fn test_output_format_from_extension() {
    assert_eq!(OutputFormat::from_extension("json"), Some(OutputFormat::Json));
    assert_eq!(OutputFormat::from_extension("csv"), Some(OutputFormat::Csv));
    assert_eq!(OutputFormat::from_extension("md"), Some(OutputFormat::Markdown));
    assert_eq!(OutputFormat::from_extension("html"), Some(OutputFormat::Html));
    assert_eq!(OutputFormat::from_extension("txt"), Some(OutputFormat::Text));
    assert_eq!(OutputFormat::from_extension("unknown"), None);
}

#[test]
fn test_escape_csv() {
    let formatter = ReportFormatter::new(OutputFormat::Csv);
    assert_eq!(formatter.escape_csv("simple"), "simple");
    assert_eq!(formatter.escape_csv("with,comma"), "\"with,comma\"");
    assert_eq!(formatter.escape_csv("with\"quote"), "\"with\"\"quote\"");
}

#[test]
fn test_escape_html() {
    let formatter = ReportFormatter::new(OutputFormat::Html);
    assert_eq!(formatter.escape_html("<script>"), "&lt;script&gt;");
    assert_eq!(formatter.escape_html("A & B"), "A &amp; B");
}

#[test]
fn extension_matching_ignores_letter_case() {
    assert_eq!(OutputFormat::from_extension("JSON"), Some(OutputFormat::Json));
    assert_eq!(OutputFormat::from_extension("Markdown"), Some(OutputFormat::Markdown));
    assert_eq!(OutputFormat::from_extension("TEXT"), Some(OutputFormat::Text));
    assert_eq!(OutputFormat::from_extension("Md"), Some(OutputFormat::Markdown));
    assert_eq!(OutputFormat::from_extension(""), None);
}

#[test]
fn every_format_reads_back_from_its_extension() {
    for f in [
        OutputFormat::Json,
        OutputFormat::Csv,
        OutputFormat::Markdown,
        OutputFormat::Html,
        OutputFormat::Text,
    ] {
        assert_eq!(OutputFormat::from_extension(f.extension()), Some(f));
    }
    assert_eq!(OutputFormat::Markdown.extension(), "md");
    assert_eq!(OutputFormat::Text.extension(), "txt");
}

#[test]
fn formatter_from_extension_keeps_the_format() {
    assert_eq!(ReportFormatter::from_extension("HTML").unwrap().format(), OutputFormat::Html);
    assert!(ReportFormatter::from_extension("pdf").is_none());
}

#[test]
fn csv_escaping_of_line_feeds_and_quotes_only() {
    let formatter = ReportFormatter::new(OutputFormat::Csv);
    assert_eq!(formatter.escape_csv("a\nb"), "\"a\nb\"");
    assert_eq!(formatter.escape_csv("\""), "\"\"\"\"");
    assert_eq!(formatter.escape_csv(""), "");
}

#[test]
fn html_escaping_of_every_special_character() {
    let formatter = ReportFormatter::new(OutputFormat::Html);
    assert_eq!(formatter.escape_html("\"'&<>x"), "&quot;&#39;&amp;&lt;&gt;x");
    assert_eq!(formatter.escape_html("plain"), "plain");
}
