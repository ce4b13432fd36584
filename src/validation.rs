use vstd::prelude::*;
use vstd::string::*;

verus! {

/// Why an argument supplied by the model was rejected.
#[derive(PartialEq, Eq, Structural, Clone, Copy, Debug)]
pub enum ValidationError {
    /// A path holds a NUL char.
    PathNullByte,
    /// A path holds `..`.
    PathTraversal,
    /// A path starts with `/` or `~` where absolute paths are not allowed.
    AbsolutePath,
    /// A command argument holds a NUL char.
    ArgumentNullByte,
}

impl ValidationError {
    /// A sentence describing the error.
    pub fn message(&self) -> (r: String)
        ensures
            r@ == self.message_view(),
    {
        match self {
            ValidationError::PathNullByte => String::from_str("Path contains null byte"),
            ValidationError::PathTraversal => String::from_str(
                "Path traversal detected: '..' not allowed",
            ),
            ValidationError::AbsolutePath => String::from_str("Absolute paths not allowed"),
            ValidationError::ArgumentNullByte => String::from_str("Argument contains null byte"),
        }
    }

    pub open spec fn message_view(&self) -> Seq<char> {
        match self {
            ValidationError::PathNullByte => "Path contains null byte"@,
            ValidationError::PathTraversal => "Path traversal detected: '..' not allowed"@,
            ValidationError::AbsolutePath => "Absolute paths not allowed"@,
            ValidationError::ArgumentNullByte => "Argument contains null byte"@,
        }
    }
}

pub open spec fn has_null(s: Seq<char>) -> bool {
    exists|i: int| 0 <= i < s.len() && s[i] == '\0'
}

pub open spec fn has_dot_dot(s: Seq<char>) -> bool {
    exists|i: int| 0 <= i && i + 1 < s.len() && s[i] == '.' && #[trigger] s[i + 1] == '.'
}

pub open spec fn looks_absolute(s: Seq<char>) -> bool {
    s.len() > 0 && (s[0] == '/' || s[0] == '~')
}

fn contains_null(s: &str) -> (r: bool)
    ensures
        r == has_null(s@),
{
    let n = s.unicode_len();
    let mut i: usize = 0;
    while i < n
        invariant
            n == s@.len(),
            i <= n,
            forall|j: int| 0 <= j < i ==> s@[j] != '\0',
        decreases n - i,
    {
        if s.get_char(i) == '\0' {
            return true;
        }
        i = i + 1;
    }
    false
}

fn contains_dot_dot(s: &str) -> (r: bool)
    ensures
        r == has_dot_dot(s@),
{
    let n = s.unicode_len();
    if n < 2 {
        return false;
    }
    let mut i: usize = 0;
    while i + 1 < n
        invariant
            n == s@.len(),
            n >= 2,
            i + 1 <= n,
            forall|j: int| 0 <= j < i ==> !(s@[j] == '.' && #[trigger] s@[j + 1] == '.'),
        decreases n - i,
    {
        if s.get_char(i) == '.' && s.get_char(i + 1) == '.' {
            return true;
        }
        i = i + 1;
    }
    false
}

/// Checks a file path from the model: rejects a NUL char, then any `..`,
/// then (unless `allow_absolute`) a leading `/` or `~`.
pub fn validate_path(path: &str, allow_absolute: bool) -> (r: Result<(), ValidationError>)
    ensures
        has_null(path@) ==> r == Err::<(), ValidationError>(ValidationError::PathNullByte),
        !has_null(path@) && has_dot_dot(path@) ==> r == Err::<(), ValidationError>(
            ValidationError::PathTraversal,
        ),
        !has_null(path@) && !has_dot_dot(path@) && !allow_absolute && looks_absolute(path@) ==> r
            == Err::<(), ValidationError>(ValidationError::AbsolutePath),
        r is Ok <==> !has_null(path@) && !has_dot_dot(path@) && (allow_absolute || !looks_absolute(
            path@,
        )),
{
    if contains_null(path) {
        return Err(ValidationError::PathNullByte);
    }
    if contains_dot_dot(path) {
        return Err(ValidationError::PathTraversal);
    }
    if !allow_absolute && path.unicode_len() > 0 {
        let c = path.get_char(0);
        if c == '/' || c == '~' {
            return Err(ValidationError::AbsolutePath);
        }
    }
    Ok(())
}

/// Checks a command argument from the model: only a NUL char is rejected,
/// since arguments are never handed to a shell.
pub fn validate_command_arg(arg: &str) -> (r: Result<(), ValidationError>)
    ensures
        r is Ok <==> !has_null(arg@),
        r is Err ==> r == Err::<(), ValidationError>(ValidationError::ArgumentNullByte),
{
    if contains_null(arg) {
        return Err(ValidationError::ArgumentNullByte);
    }
    Ok(())
}

/// The rate-limit policy hook: no limit is enforced, every call passes.
pub fn check_rate_limit(tool_name: &str, window_ms: u64) -> (r: Result<(), ValidationError>)
    ensures
        r is Ok,
{
    Ok(())
}

} // verus!
