use mcp_host::validation::{check_rate_limit, validate_command_arg, validate_path, ValidationError};

#[test]
fn test_path_validation() {
    // Should pass
    assert!(validate_path("file.txt", false).is_ok());
    assert!(validate_path("dir/file.txt", false).is_ok());
    assert!(validate_path("/etc/passwd", true).is_ok());

    // Should fail
    assert!(validate_path("../etc/passwd", false).is_err());
    assert!(validate_path("/etc/passwd", false).is_err());
    assert!(validate_path("~/ssh/config", false).is_err());
    assert!(validate_path("file\0.txt", false).is_err());
}

#[test]
fn test_command_validation() {
    // Should pass (suspicious but harmless without a shell)
    assert!(validate_command_arg("hello world").is_ok());
    assert!(validate_command_arg("--flag=value").is_ok());
    assert!(validate_command_arg("test; ls").is_ok());
    assert!(validate_command_arg("$(whoami)").is_ok());

    // Should fail
    assert!(validate_command_arg("test\0null").is_err());
}

#[test]
fn path_errors_are_checked_in_order() {
    assert_eq!(validate_path("../a\0", false), Err(ValidationError::PathNullByte));
    assert_eq!(validate_path("/a/../b", false), Err(ValidationError::PathTraversal));
    assert_eq!(validate_path("~/x", false), Err(ValidationError::AbsolutePath));
    assert_eq!(validate_path("", false), Ok(()));
    assert_eq!(
        ValidationError::PathTraversal.message(),
        "Path traversal detected: '..' not allowed"
    );
    assert_eq!(validate_command_arg("a\0"), Err(ValidationError::ArgumentNullByte));
    assert_eq!(ValidationError::ArgumentNullByte.message(), "Argument contains null byte");
}

#[test]
fn rate_limit_hook_always_passes() {
    assert!(check_rate_limit("any_tool", 60_000).is_ok());
}
