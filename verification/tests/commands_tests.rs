use ssh_gateway::commands::{
    find_common_prefix, get_command_name, is_interactive_command, transform_interactive_command,
};

#[test]
fn command_name_is_first_token() {
    assert_eq!(get_command_name("  ls -la /tmp"), "ls");
    assert_eq!(get_command_name(""), "");
    assert_eq!(get_command_name("   \t "), "");
    assert_eq!(get_command_name("vim\tfile"), "vim");
}

#[test]
fn interactive_commands_are_recognised() {
    for name in ["top", "htop", "vim", "vi", "nano", "emacs", "less", "more", "man", "tmux", "screen"] {
        assert!(is_interactive_command(name));
        let with_args = format!("  {} some args", name);
        assert!(is_interactive_command(&with_args));
    }
    assert!(!is_interactive_command("ls -la"));
    assert!(!is_interactive_command(""));
    assert!(!is_interactive_command("topper"));
    assert!(!is_interactive_command("echo top"));
}

#[test]
fn top_and_htop_become_batch_top() {
    assert_eq!(transform_interactive_command("top"), "top -bn1");
    assert_eq!(transform_interactive_command("  top  "), "top -bn1");
    assert_eq!(transform_interactive_command("htop"), "top -bn1");
    assert_eq!(transform_interactive_command("htop -d 5"), "top -bn1");
    assert_eq!(transform_interactive_command("top -d 5"), "top -bn1");
}

#[test]
fn other_commands_are_kept() {
    assert_eq!(transform_interactive_command("ls -la"), "ls -la");
    assert_eq!(transform_interactive_command("  echo hi "), "  echo hi ");
    assert_eq!(transform_interactive_command("topper"), "topper");
    assert_eq!(transform_interactive_command("htopx"), "htopx");
    assert_eq!(transform_interactive_command(""), "");
}

#[test]
fn common_prefix_of_completions() {
    let none: Vec<String> = Vec::new();
    assert_eq!(find_common_prefix(&none), None);
    let one = vec!["echo".to_string()];
    assert_eq!(find_common_prefix(&one), Some("echo".to_string()));
    let two = vec!["echo".to_string(), "ecryptfs".to_string()];
    assert_eq!(find_common_prefix(&two), Some("ec".to_string()));
    let disjoint = vec!["abc".to_string(), "xyz".to_string()];
    assert_eq!(find_common_prefix(&disjoint), None);
    let first_is_prefix = vec!["ab".to_string(), "abc".to_string()];
    assert_eq!(find_common_prefix(&first_is_prefix), None);
    let second_is_prefix = vec!["abc".to_string(), "ab".to_string()];
    assert_eq!(find_common_prefix(&second_is_prefix), Some("ab".to_string()));
    let unicode = vec!["héllo".to_string(), "hélas".to_string()];
    assert_eq!(find_common_prefix(&unicode), Some("hél".to_string()));
}
