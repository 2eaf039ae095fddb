use latexcompile::compiler::{extract_artifact, ArtifactOutcome, LatexCompiler};
use latexcompile::error::LatexError;
use latexcompile::input::LatexInput;
use latexcompile::paths::{artifact_name, check_path, resolve};
use latexcompile::template::TemplateDict;

#[test]
fn empty_input_fails_fast_with_no_input() {
    let compiler = LatexCompiler::new(TemplateDict::new());
    let result = compiler.prepare("main.tex", &LatexInput::new());
    assert!(matches!(result, Err(LatexError::NoInput)));
}

#[test]
fn no_input_error_is_recognised() {
    assert!(LatexError::NoInput.is_no_input());
    assert!(!LatexError::Compilation.is_no_input());
    assert!(!LatexError::ProcessInvocation("pdflatex: not found".to_string()).is_no_input());
}

#[test]
fn traversal_path_is_rejected() {
    let compiler = LatexCompiler::new(TemplateDict::new());
    let mut input = LatexInput::new();
    input.add("../escape.txt", b"gotcha".to_vec());
    match compiler.prepare("main.tex", &input) {
        Err(LatexError::BadPath(p)) => assert_eq!(p, "../escape.txt"),
        _ => panic!("expected a path rejection"),
    }
}

#[test]
fn nested_traversal_and_absolute_paths_are_rejected() {
    assert!(!check_path("a/../b.tex"));
    assert!(!check_path("/etc/passwd"));
    assert!(!check_path(".."));
    assert!(!check_path(""));
    assert!(check_path("a/b/c.tex"));
    assert!(check_path("..a/b.."));
    assert!(check_path("a.b/...c"));
}

#[test]
fn resolve_stays_under_the_root() {
    assert_eq!(resolve("/tmp/ws", "assets/main.tex"), Some("/tmp/ws/assets/main.tex".to_string()));
    assert_eq!(resolve("/tmp/ws", "../escape.txt"), None);
    assert_eq!(resolve("/tmp/ws", "a/../../escape.txt"), None);
}

#[test]
fn artifact_name_replaces_the_extension() {
    assert_eq!(artifact_name("test.tex"), "test.pdf");
    assert_eq!(artifact_name("dir/sub/a.b.tex"), "a.b.pdf");
    assert_eq!(artifact_name("noext"), "noext.pdf");
    assert_eq!(artifact_name(".hidden"), ".hidden.pdf");
}

#[test]
fn builder_calls_shape_the_command_line() {
    let compiler = LatexCompiler::new(TemplateDict::new());
    assert_eq!(compiler.cmd.0, "pdflatex");
    assert_eq!(compiler.cmd.1, vec!["-interaction=nonstopmode".to_string()]);
    let compiler = compiler.with_cmd("latexmk").with_args("arg1").add_arg("arg2");
    assert_eq!(compiler.cmd.0, "latexmk");
    assert_eq!(compiler.cmd.1, vec!["arg1".to_string(), "arg2".to_string()]);
}

#[test]
fn prepare_stages_substituted_files_and_command() {
    let mut dict = TemplateDict::new();
    dict.insert(b"test".to_vec(), b"Minimal".to_vec());
    let compiler = LatexCompiler::new(dict);
    let mut input = LatexInput::new();
    input.add("test.tex", b"\\begin{document}##test##\\end{document}".to_vec());
    let plan = compiler.prepare("test.tex", &input).unwrap();
    assert_eq!(plan.files.len(), 1);
    assert_eq!(plan.files[0].0, "test.tex");
    assert_eq!(plan.files[0].1, b"\\begin{document}Minimal\\end{document}".to_vec());
    assert_eq!(plan.program, "pdflatex");
    assert_eq!(plan.args, vec!["-interaction=nonstopmode".to_string(), "test.tex".to_string()]);
    assert_eq!(plan.artifact, "test.pdf");
    assert_eq!(plan.passes, 2);
}

#[test]
fn staging_order_keeps_later_duplicates_last() {
    let compiler = LatexCompiler::new(TemplateDict::new());
    let mut input = LatexInput::new();
    input.add("main.tex", b"first".to_vec());
    input.add("main.tex", b"second".to_vec());
    let plan = compiler.prepare("main.tex", &input).unwrap();
    assert_eq!(plan.files.len(), 2);
    assert_eq!(plan.files[1].1, b"second".to_vec());
}

#[test]
fn found_artifact_bytes_are_returned() {
    let pdf = b"%PDF-1.5 minimal".to_vec();
    let result = extract_artifact(ArtifactOutcome::Found(pdf.clone()));
    let bytes = result.unwrap();
    assert!(!bytes.is_empty());
    assert!(bytes.starts_with(b"%PDF"));
    assert_eq!(bytes, pdf);
}

#[test]
fn missing_artifact_is_a_compilation_error() {
    let result = extract_artifact(ArtifactOutcome::Missing);
    assert!(matches!(result, Err(LatexError::Compilation)));
}

#[test]
fn unreadable_artifact_is_an_io_error() {
    let result = extract_artifact(ArtifactOutcome::Unreadable("permission denied".to_string()));
    match result {
        Err(LatexError::Io(msg)) => assert_eq!(msg, "permission denied"),
        _ => panic!("expected an io error"),
    }
}
