use duck_water::mesh_format::{parse_mesh, MeshError, MeshText, Span};

fn chars(text: &str) -> Vec<char> {
    text.chars().collect()
}

fn parse(text: &str) -> Result<MeshText, MeshError> {
    parse_mesh(&chars(text))
}

fn field(text: &str, sp: Span) -> String {
    chars(text)[sp.start..sp.end].iter().collect()
}

#[test]
fn parses_small_mesh() {
    let text = "2\n0 1 2 0 0 1 0.5 0.25\n-1.5 2e3 3 4 5 6 7 8\n1\n0 1 1\n";
    let m = parse(text).unwrap();
    assert_eq!(m.vertex_count(), 2);
    assert_eq!(m.triangle_count(), 1);
    assert_eq!(m.vertex_fields.len(), 16);
    assert_eq!(field(text, m.vertex_fields[0]), "0");
    assert_eq!(field(text, m.vertex_fields[6]), "0.5");
    assert_eq!(field(text, m.vertex_fields[7]), "0.25");
    assert_eq!(field(text, m.vertex_fields[8]), "-1.5");
    assert_eq!(field(text, m.vertex_fields[9]), "2e3");
    assert_eq!(m.vertex_fields[8], Span { start: 23, end: 27 });
    assert_eq!(m.indices, vec![0, 1, 1]);
}

#[test]
fn accepts_crlf_tabs_and_extra_tokens() {
    let text = "1\r\n\t1 2 3  4 5 6 7 8 9 extra\r\n2\r\n0 0 0 7\r\n4294967295 1 2";
    let m = parse(text).unwrap();
    assert_eq!(m.vertex_count(), 1);
    assert_eq!(field(text, m.vertex_fields[0]), "1");
    assert_eq!(field(text, m.vertex_fields[7]), "8");
    assert_eq!(m.indices, vec![0, 0, 0, 4294967295, 1, 2]);
}

#[test]
fn empty_mesh() {
    let m = parse("0\n0\n").unwrap();
    assert_eq!(m.vertex_count(), 0);
    assert_eq!(m.triangle_count(), 0);
    assert!(m.indices.is_empty());
}

#[test]
fn missing_lines_are_reported() {
    assert_eq!(parse("").err(), Some(MeshError::MissingLine));
    assert_eq!(parse("1\n").err(), Some(MeshError::MissingLine));
    assert_eq!(parse("0\n").err(), Some(MeshError::MissingLine));
    assert_eq!(parse("0\n2\n1 2 3\n").err(), Some(MeshError::MissingLine));
}

#[test]
fn bad_counts_are_reported() {
    assert_eq!(parse("x\n").err(), Some(MeshError::BadCount));
    assert_eq!(parse(" 1\n").err(), Some(MeshError::BadCount));
    assert_eq!(parse("1 \n").err(), Some(MeshError::BadCount));
    assert_eq!(parse("\n").err(), Some(MeshError::BadCount));
    assert_eq!(parse("99999999999999999999999\n").err(), Some(MeshError::BadCount));
    assert_eq!(parse("0\n-1\n").err(), Some(MeshError::BadCount));
}

#[test]
fn short_lines_are_reported() {
    assert_eq!(parse("1\n1 2 3 4 5 6 7\n0\n").err(), Some(MeshError::MissingField));
    assert_eq!(parse("0\n1\n1 2\n").err(), Some(MeshError::MissingField));
    assert_eq!(parse("1\n\n0\n").err(), Some(MeshError::MissingField));
}

#[test]
fn bad_indices_are_reported() {
    assert_eq!(parse("0\n1\n1 2 x\n").err(), Some(MeshError::BadIndex));
    assert_eq!(parse("0\n1\n1 -2 3\n").err(), Some(MeshError::BadIndex));
    assert_eq!(parse("0\n1\n4294967296 0 0\n").err(), Some(MeshError::BadIndex));
}

#[test]
fn accepts_leading_plus_like_rust_parsing() {
    let m = parse("+1\n1 2 3 4 5 6 7 8\n+1\n+0 0 +0\n").unwrap();
    assert_eq!(m.vertex_count(), 1);
    assert_eq!(m.indices, vec![0, 0, 0]);
    assert_eq!(parse("+\n").err(), Some(MeshError::BadCount));
    assert_eq!(parse("0\n1\n+ 1 2\n").err(), Some(MeshError::BadIndex));
    assert_eq!(parse("0\n1\n++1 1 2\n").err(), Some(MeshError::BadIndex));
}

#[test]
fn splits_on_unicode_whitespace() {
    let text = "1\n1\u{a0}2\u{3000}3\u{2003}4 5 6 7\u{85}8\n1\n0\u{2028}0\u{a0}0\n";
    let m = parse(text).unwrap();
    assert_eq!(field(text, m.vertex_fields[0]), "1");
    assert_eq!(field(text, m.vertex_fields[3]), "4");
    assert_eq!(field(text, m.vertex_fields[7]), "8");
    assert_eq!(m.indices, vec![0, 0, 0]);
    let words: Vec<&str> = "1\u{a0}2\u{3000}3\u{2003}4 5 6 7\u{85}8".split_whitespace().collect();
    assert_eq!(words.len(), 8);
}

#[test]
fn carriage_return_only_dropped_before_newline() {
    assert_eq!(parse("0\n0\r").err(), Some(MeshError::BadCount));
    assert!(parse("0\n0\r\n").is_ok());
    assert!(parse("0\n0").is_ok());
}
