use latexcompile::input::LatexInput;

#[test]
fn test_latex_input() {
    let name = "name.tex";
    let buf = "test".as_bytes();
    let expected = LatexInput { input: vec![("name.tex".into(), "test".as_bytes().to_vec())] };
    let mut input = LatexInput::new();
    input.add(name, buf.to_vec());
    assert_eq!(input, expected);
}

#[test]
fn add_keeps_contents_byte_for_byte() {
    let mut input = LatexInput::new();
    let logo: Vec<u8> = vec![137, 80, 78, 71, 13, 10, 26, 10, 0, 0];
    input.add("assets/logo.png", logo.clone());
    input.add("assets/main.tex", b"\\input{card}".to_vec());
    assert_eq!(input.len(), 2);
    assert_eq!(input.input[0], ("assets/logo.png".to_string(), logo));
    assert_eq!(input.input[1], ("assets/main.tex".to_string(), b"\\input{card}".to_vec()));
}

#[test]
fn duplicate_paths_are_kept_in_order() {
    let mut input = LatexInput::new();
    input.add("main.tex", b"first".to_vec());
    input.add("main.tex", b"second".to_vec());
    assert_eq!(input.len(), 2);
    assert_eq!(input.input[1].1, b"second".to_vec());
}
