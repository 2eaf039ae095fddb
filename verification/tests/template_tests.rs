use latexcompile::template::{TemplateDict, TemplateProcessor, substitute};

#[test]
fn test_empty_templating() {
    let templating = TemplateProcessor::new();
    assert!(templating.is_ok());
    let map = TemplateDict::new();
    let buf = b"\\documentclass{article}\n\\begin{document}\nHello World\n\\end{document}\n";
    let res = templating.unwrap().process_placeholders(buf, &map);
    assert!(res.is_ok());
    assert_eq!(res.unwrap(), buf.to_vec());
}

#[test]
fn plain_text_round_trips_with_empty_dict() {
    let dict = TemplateDict::new();
    let out = substitute(b"plain text", &dict);
    assert_eq!(out, b"plain text".to_vec());
}

#[test]
fn known_key_is_substituted() {
    let mut dict = TemplateDict::new();
    dict.insert(b"test".to_vec(), b"Minimal".to_vec());
    let out = substitute(b"##test##", &dict);
    assert_eq!(out, b"Minimal".to_vec());
}

#[test]
fn unknown_key_is_deleted() {
    let dict = TemplateDict::new();
    let out = substitute(b"a##missing##b", &dict);
    assert_eq!(out, b"ab".to_vec());
}

#[test]
fn unknown_key_is_deleted_with_nonempty_dict() {
    let mut dict = TemplateDict::new();
    dict.insert(b"present".to_vec(), b"value".to_vec());
    let out = substitute(b"x##absent##y", &dict);
    assert_eq!(out, b"xy".to_vec());
}

#[test]
fn binary_bytes_pass_through() {
    let dict = TemplateDict::new();
    let buf: Vec<u8> = vec![0, 255, 147, 10, 35, 1, 35, 0, 200];
    let out = substitute(&buf, &dict);
    assert_eq!(out, buf);
}

#[test]
fn binary_bytes_around_token_are_kept() {
    let mut dict = TemplateDict::new();
    dict.insert(b"test".to_vec(), b"X".to_vec());
    let out = substitute(&[255, 35, 35, b't', b'e', b's', b't', 35, 35, 254], &dict);
    assert_eq!(out, vec![255, b'X', 254]);
}

#[test]
fn extra_leading_delimiter_is_kept() {
    let dict = TemplateDict::new();
    let out = substitute(b"###a##", &dict);
    assert_eq!(out, b"#".to_vec());
    let mut dict2 = TemplateDict::new();
    dict2.insert(b"a".to_vec(), b"X".to_vec());
    let out2 = substitute(b"###a##", &dict2);
    assert_eq!(out2, b"#X".to_vec());
}

#[test]
fn empty_key_is_no_token() {
    let dict = TemplateDict::new();
    let out = substitute(b"####", &dict);
    assert_eq!(out, b"####".to_vec());
}

#[test]
fn broken_token_is_kept() {
    let dict = TemplateDict::new();
    let out = substitute(b"##a#b##", &dict);
    assert_eq!(out, b"##a#b##".to_vec());
}

#[test]
fn key_charset_includes_dash_underscore_digits() {
    let mut dict = TemplateDict::new();
    dict.insert(b"a-b_c9".to_vec(), b"ok".to_vec());
    let out = substitute(b"<##a-b_c9##>", &dict);
    assert_eq!(out, b"<ok>".to_vec());
}

#[test]
fn matches_do_not_overlap() {
    let mut dict = TemplateDict::new();
    dict.insert(b"a".to_vec(), b"1".to_vec());
    dict.insert(b"b".to_vec(), b"2".to_vec());
    let out = substitute(b"##a####b##", &dict);
    assert_eq!(out, b"12".to_vec());
}

#[test]
fn later_insert_wins() {
    let mut dict = TemplateDict::new();
    dict.insert(b"k".to_vec(), b"first".to_vec());
    dict.insert(b"k".to_vec(), b"second".to_vec());
    let out = substitute(b"##k##", &dict);
    assert_eq!(out, b"second".to_vec());
}

#[test]
fn consecutive_substitutions_in_one_buffer() {
    let mut dict = TemplateDict::new();
    dict.insert(b"name".to_vec(), b"World".to_vec());
    let out = substitute(b"Hello ##name##, bye ##name##!", &dict);
    assert_eq!(out, b"Hello World, bye World!".to_vec());
}
