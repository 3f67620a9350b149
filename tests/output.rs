use mixrand::output::{format_output, OutputFormat};

fn format_to_string(bytes: &[u8], fmt: &OutputFormat) -> String {
    String::from_utf8(format_output(bytes, *fmt)).unwrap()
}

#[test]
fn test_hex() {
    let out = format_to_string(&[0xde, 0xad, 0xbe, 0xef], &OutputFormat::Hex);
    assert_eq!(out, "deadbeef\n");
}

#[test]
fn test_hex_upper() {
    let out = format_to_string(&[0xde, 0xad, 0xbe, 0xef], &OutputFormat::HexUpper);
    assert_eq!(out, "DEADBEEF\n");
}

#[test]
fn test_raw() {
    let data = vec![0x01, 0x02, 0x03];
    let buf = format_output(&data, OutputFormat::Raw);
    assert_eq!(buf, data);
}

#[test]
fn test_base64() {
    let out = format_to_string(&[0x00, 0x01, 0x02], &OutputFormat::Base64);
    assert_eq!(out, "AAEC\n");
}

#[test]
fn test_base64url() {
    // Bytes that produce '+' and '/' in standard base64
    let out = format_to_string(&[0xfb, 0xff, 0xfe], &OutputFormat::Base64url);
    // base64url should not contain + or /
    assert!(!out.contains('+'));
    assert!(!out.contains('/'));
    assert!(out.trim().len() > 0);
}

#[test]
fn test_octal() {
    let out = format_to_string(&[0o377, 0o001], &OutputFormat::Octal);
    assert_eq!(out, "377 001\n");
}

#[test]
fn test_binary() {
    let out = format_to_string(&[0b10101010, 0b00001111], &OutputFormat::Binary);
    assert_eq!(out, "10101010 00001111\n");
}

#[test]
fn test_text() {
    let out = format_to_string(&[0, 93, 94], &OutputFormat::Text);
    // Each byte maps to (b % 94) + 33
    // 0 → 33 = '!', 93 → 126 = '~', 94 → 33 = '!'
    assert_eq!(out, "!~!\n");
}

#[test]
fn test_uuencode() {
    let out = format_to_string(&[0x43, 0x61, 0x74], &OutputFormat::Uuencode);
    assert!(out.starts_with("begin 644 data\n"));
    assert!(out.ends_with("`\nend\n"));
}

#[test]
fn uuencode_exact_line() {
    let out = format_to_string(&[0x43, 0x61, 0x74], &OutputFormat::Uuencode);
    assert_eq!(out, "begin 644 data\n#0V%T\n`\nend\n");
}

#[test]
fn uuencode_splits_lines_at_45_bytes() {
    let out = format_to_string(&[0u8; 46], &OutputFormat::Uuencode);
    let lines: Vec<&str> = out.lines().collect();
    assert_eq!(lines.len(), 5);
    assert_eq!(lines[1].len(), 61);
    assert!(lines[1].starts_with('M'));
    assert_eq!(lines[2], "!    ");
}

#[test]
fn base64_url_exact_and_padding() {
    assert_eq!(format_to_string(&[0xfb, 0xff, 0xfe], &OutputFormat::Base64url), "-__-\n");
    assert_eq!(format_to_string(&[0xfb, 0xff, 0xfe], &OutputFormat::Base64), "+//+\n");
    assert_eq!(format_to_string(&[0x61], &OutputFormat::Base64), "YQ==\n");
    assert_eq!(format_to_string(&[0x61], &OutputFormat::Base64url), "YQ\n");
    assert_eq!(format_to_string(&[0xfb, 0xff], &OutputFormat::Base64), "+/8=\n");
    assert_eq!(format_to_string(&[0xfb, 0xff], &OutputFormat::Base64url), "-_8\n");
    assert_eq!(format_to_string(b"Man is", &OutputFormat::Base64), "TWFuIGlz\n");
}

#[test]
fn empty_input_formats() {
    assert_eq!(format_to_string(&[], &OutputFormat::Hex), "\n");
    assert_eq!(format_to_string(&[], &OutputFormat::Octal), "\n");
    assert_eq!(format_to_string(&[], &OutputFormat::Uuencode), "begin 644 data\n`\nend\n");
    assert!(format_output(&[], OutputFormat::Raw).is_empty());
}

#[test]
fn hex_round_trips() {
    let data: Vec<u8> = (0..=255u8).collect();
    let out = format_to_string(&data, &OutputFormat::Hex);
    let text = out.trim_end();
    let decoded: Vec<u8> = (0..text.len())
        .step_by(2)
        .map(|i| u8::from_str_radix(&text[i..i + 2], 16).unwrap())
        .collect();
    assert_eq!(decoded, data);
}
