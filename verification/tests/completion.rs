use controlpath_cli::commands::completion::{parse_shell, ShellKind};

#[test]
fn test_completion_options_shell_validation() {
    let valid_shells = vec!["bash", "BASH", "Bash", "zsh", "ZSH", "Zsh", "fish", "FISH", "Fish"];
    for shell in valid_shells {
        assert!(parse_shell(shell).is_ok(), "Shell '{}' should be valid", shell);
    }
    assert_eq!(parse_shell("Zsh").unwrap(), ShellKind::Zsh);
}

#[test]
fn test_completion_options_invalid_shell() {
    let err = parse_shell("powershell").unwrap_err();
    let msg = err.message();
    assert!(msg.contains("Unsupported shell"));
    assert!(msg.contains("powershell"));
}

#[test]
fn test_completion_options_empty_shell() {
    let err = parse_shell("").unwrap_err();
    assert!(err.message().contains("Shell name is required"));
}
