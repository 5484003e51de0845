use shellcore::parse::{parse, parse_line, Pipeline, RedirMode};

fn words(ws: &[&str]) -> Vec<String> {
    ws.iter().map(|w| w.to_string()).collect()
}

fn parsed(line: &str) -> Pipeline {
    parse_line(line).expect("line should parse to a pipeline")
}

#[test]
fn single_word_line_single_stage() {
    let p = parsed("ls\n");
    assert_eq!(p.stages.len(), 1);
    assert_eq!(p.stages[0].command, "ls");
    assert!(p.stages[0].arguments.is_empty());
    assert!(p.redirection.is_none());
}

#[test]
fn plain_line_collects_arguments() {
    let p = parsed("echo one two three");
    assert_eq!(p.stages.len(), 1);
    assert_eq!(p.stages[0].command, "echo");
    assert_eq!(p.stages[0].arguments, words(&["one", "two", "three"]));
    assert!(p.redirection.is_none());
}

#[test]
fn quoted_pipe_does_not_split() {
    let p = parsed("echo \"a b\" 'c|d' 1>out.txt");
    assert_eq!(p.stages.len(), 1);
    assert_eq!(p.stages[0].command, "echo");
    assert_eq!(p.stages[0].arguments, words(&["a b", "c|d"]));
    let rd = p.redirection.expect("redirection should be kept");
    assert_eq!(rd.mode, RedirMode::OverwriteStdout);
    assert_eq!(rd.target, "out.txt");
}

#[test]
fn three_stage_pipeline_in_order() {
    let p = parsed("cmd1 | cmd2 | cmd3");
    assert_eq!(p.stages.len(), 3);
    assert_eq!(p.stages[0].command, "cmd1");
    assert_eq!(p.stages[1].command, "cmd2");
    assert_eq!(p.stages[2].command, "cmd3");
    assert!(p.redirection.is_none());
}

#[test]
fn overwrite_stdout_modes() {
    for op in [">", "1>"] {
        let p = parsed(&format!("a {} f", op));
        let rd = p.redirection.expect("redirection should be kept");
        assert_eq!(rd.mode, RedirMode::OverwriteStdout);
        assert_eq!(rd.target, "f");
    }
}

#[test]
fn append_stdout_modes() {
    for op in [">>", "1>>"] {
        let p = parsed(&format!("a {} f", op));
        let rd = p.redirection.expect("redirection should be kept");
        assert_eq!(rd.mode, RedirMode::AppendStdout);
        assert_eq!(rd.target, "f");
    }
}

#[test]
fn stderr_modes() {
    let p = parsed("a 2> f");
    assert_eq!(p.redirection.unwrap().mode, RedirMode::OverwriteStderr);
    let p = parsed("a 2>> f");
    assert_eq!(p.redirection.unwrap().mode, RedirMode::AppendStderr);
}

#[test]
fn redirection_without_target_dropped() {
    let p = parsed("a x >");
    assert_eq!(p.stages.len(), 1);
    assert_eq!(p.stages[0].arguments, words(&["x"]));
    assert!(p.redirection.is_none());
}

#[test]
fn attached_redirection_target() {
    let p = parsed("a x >f");
    assert_eq!(p.stages[0].arguments, words(&["x"]));
    let rd = p.redirection.expect("redirection should be kept");
    assert_eq!(rd.mode, RedirMode::OverwriteStdout);
    assert_eq!(rd.target, "f");

    let p = parsed("a 2>>log.txt");
    let rd = p.redirection.expect("redirection should be kept");
    assert_eq!(rd.mode, RedirMode::AppendStderr);
    assert_eq!(rd.target, "log.txt");
}

#[test]
fn redirection_ends_argument_scan() {
    let p = parsed("a x > f y");
    assert_eq!(p.stages[0].arguments, words(&["x"]));
    let rd = p.redirection.expect("redirection should be kept");
    assert_eq!(rd.target, "f");
}

#[test]
fn earlier_stage_redirection_discarded() {
    let p = parsed("a x > f | b");
    assert_eq!(p.stages.len(), 2);
    assert_eq!(p.stages[0].command, "a");
    assert_eq!(p.stages[0].arguments, words(&["x"]));
    assert_eq!(p.stages[1].command, "b");
    assert!(p.redirection.is_none());
}

#[test]
fn empty_groups_dropped() {
    let p = parsed("| a | | b |");
    assert_eq!(p.stages.len(), 2);
    assert_eq!(p.stages[0].command, "a");
    assert_eq!(p.stages[1].command, "b");
}

#[test]
fn unquoted_pipe_char_in_word_is_no_separator() {
    let p = parsed("a|b");
    assert_eq!(p.stages.len(), 1);
    assert_eq!(p.stages[0].command, "a|b");
}

#[test]
fn unterminated_quote_is_error() {
    assert!(parse_line("echo 'abc").is_none());
}

#[test]
fn empty_line_has_no_pipeline() {
    assert!(parse_line("").is_none());
    assert!(parse_line("   \n").is_none());
    assert!(parse_line("|").is_none());
    assert!(parse_line(" | | ").is_none());
}

#[test]
fn parse_words_directly() {
    let p = parse(&words(&["x", "|", "y", "arg"])).expect("two stages");
    assert_eq!(p.stages.len(), 2);
    assert_eq!(p.stages[0].command, "x");
    assert!(p.stages[0].arguments.is_empty());
    assert_eq!(p.stages[1].command, "y");
    assert_eq!(p.stages[1].arguments, words(&["arg"]));
    assert!(parse(&words(&[])).is_none());
    assert!(parse(&words(&["|", "|"])).is_none());
}
