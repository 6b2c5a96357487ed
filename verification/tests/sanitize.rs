use llmwrap::sanitize::sanitize_command;

#[test]
fn strips_wrapping_backticks() {
    assert_eq!(sanitize_command("`ls -la`"), "ls -la");
}

#[test]
fn leaves_plain_command_unchanged() {
    assert_eq!(sanitize_command("ls -la"), "ls -la");
}

#[test]
fn takes_only_the_first_line() {
    assert_eq!(sanitize_command("cmd1\ncmd2"), sanitize_command("cmd1"));
    assert_eq!(sanitize_command("cmd1\ncmd2"), "cmd1");
}

#[test]
fn first_line_may_be_empty() {
    assert_eq!(sanitize_command("\nls"), "");
    assert_eq!(sanitize_command(""), "");
    assert_eq!(sanitize_command("\n"), "");
}

#[test]
fn carriage_return_before_line_feed_is_trimmed() {
    assert_eq!(sanitize_command("ls -la\r\nrm -rf /"), "ls -la");
    assert_eq!(sanitize_command("ls -la\r"), "ls -la");
}

#[test]
fn trims_whitespace_outside_and_inside_backticks() {
    assert_eq!(sanitize_command("  \t` ls -la `  "), "ls -la");
    assert_eq!(sanitize_command("   "), "");
    assert_eq!(sanitize_command(" ` ` "), "");
}

#[test]
fn trims_unicode_whitespace() {
    assert_eq!(sanitize_command("\u{a0}\u{3000}ls\u{2003}"), "ls");
    assert_eq!(sanitize_command("\u{200b}ls"), "\u{200b}ls");
}

#[test]
fn removes_a_whole_run_of_backticks() {
    assert_eq!(sanitize_command("```ls```"), "ls");
    assert_eq!(sanitize_command("``"), "");
    assert_eq!(sanitize_command("`ls"), "ls");
    assert_eq!(sanitize_command("ls`"), "ls");
}

#[test]
fn keeps_backticks_inside_the_command() {
    assert_eq!(sanitize_command("echo `date`"), "echo `date");
    assert_eq!(sanitize_command("echo `date` now"), "echo `date` now");
}

#[test]
fn removes_one_layer_of_backticks_only() {
    assert_eq!(sanitize_command("` `ls` `"), "`ls`");
    assert_eq!(sanitize_command("`ls`"), "ls");
}

#[test]
fn sanitizing_twice_changes_nothing() {
    let inputs = [
        "ls -la",
        "`ls -la`",
        "  `git status`  \nexplanation",
        "",
        "   ",
        "echo `date` now",
        "find . -name '*.rs' | xargs wc -l\n",
    ];
    for input in inputs {
        let once = sanitize_command(input);
        assert_eq!(sanitize_command(&once), once);
    }
}

#[test]
fn keeps_multibyte_characters() {
    assert_eq!(sanitize_command(" `echo héllo wörld` \nmore"), "echo héllo wörld");
}
