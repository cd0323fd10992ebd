use rustchain::agents::middleware::file_search::{
    glob_to_regex, grep_content, is_hidden_name, matches_glob_pattern, matches_simple_glob,
    normalize_path, text_lines, FilesystemFileSearchMiddleware, GrepOutputMode,
};
use rustchain::error::RustChainError;

#[test]
fn test_validate_path_valid() {
    let mw = FilesystemFileSearchMiddleware::new("/home/user/project");
    let result = mw.validate_path("src/main.rs");
    assert!(result.is_ok());
    let path = result.unwrap();
    assert!(path.starts_with("/home/user/project"));
    assert_eq!(path, "/home/user/project/src/main.rs");
}

#[test]
fn test_validate_path_traversal_rejected() {
    let mw = FilesystemFileSearchMiddleware::new("/home/user/project");
    let result = mw.validate_path("../../etc/passwd");
    assert!(result.is_err());
    match result.unwrap_err() {
        RustChainError::Other(m) => {
            assert!(m.contains("Path traversal"));
            assert_eq!(m, "Path traversal detected: '../../etc/passwd' is outside root '/home/user/project'");
        }
        other => panic!("unexpected error {:?}", other),
    }
}

#[test]
fn test_validate_path_absolute_within_root() {
    let mw = FilesystemFileSearchMiddleware::new("/home/user/project");
    let result = mw.validate_path("/home/user/project/src/lib.rs");
    assert!(result.is_ok());
}

#[test]
fn test_validate_path_absolute_outside_root() {
    let mw = FilesystemFileSearchMiddleware::new("/home/user/project");
    let result = mw.validate_path("/etc/passwd");
    assert!(result.is_err());
}

#[test]
fn test_validate_path_component_prefix_only() {
    let mw = FilesystemFileSearchMiddleware::new("/home/user/project");
    assert!(mw.validate_path("/home/user/project2/x").is_err());
    assert_eq!(mw.validate_path("./a/./b/../c").unwrap(), "/home/user/project/a/c");
}

#[test]
fn test_normalize_path() {
    let path = normalize_path("/a/b/../c/./d");
    assert_eq!(path, "/a/c/d");
}

#[test]
fn test_normalize_path_edges() {
    assert_eq!(normalize_path("a//b/"), "a/b");
    assert_eq!(normalize_path("../x"), "x");
    assert_eq!(normalize_path("/"), "/");
    assert_eq!(normalize_path("/.."), "");
    assert_eq!(normalize_path(""), "");
}

#[test]
fn test_matches_simple_glob() {
    assert!(matches_simple_glob("hello.rs", "*.rs"));
    assert!(matches_simple_glob("hello.rs", "hello.*"));
    assert!(matches_simple_glob("hello.rs", "*"));
    assert!(!matches_simple_glob("hello.rs", "*.py"));
    assert!(matches_simple_glob("hello.rs", "hello.rs"));
}

#[test]
fn test_matches_simple_glob_middle_pieces() {
    assert!(matches_simple_glob("abcabc", "a*c*c"));
    assert!(!matches_simple_glob("a", "a*a"));
    assert!(matches_simple_glob("aa", "a*a"));
    assert!(!matches_simple_glob("abc", "a*b*b"));
    assert!(matches_simple_glob("xyz", "**"));
}

#[test]
fn test_glob_search_rejects_traversal() {
    let mw = FilesystemFileSearchMiddleware::new("/tmp/test");
    let result = mw.glob_search_root("../../etc/*", None);
    assert!(result.is_err());
    match result.unwrap_err() {
        RustChainError::Other(m) => assert_eq!(m, "Glob pattern must not contain '..'"),
        other => panic!("unexpected error {:?}", other),
    }
}

#[test]
fn test_glob_search_root_paths() {
    let mw = FilesystemFileSearchMiddleware::new("/tmp/test");
    assert_eq!(mw.glob_search_root("*.rs", None).unwrap(), "/tmp/test");
    assert_eq!(mw.glob_search_root("*.rs", Some("src")).unwrap(), "/tmp/test/src");
    assert!(mw.glob_search_root("*.rs", Some("../x")).is_err());
}

#[test]
fn file_search_test_middleware_name() {
    let mw = FilesystemFileSearchMiddleware::new("/tmp");
    assert_eq!(mw.name(), "FilesystemFileSearchMiddleware");
}

#[test]
fn test_builder_methods() {
    let mw = FilesystemFileSearchMiddleware::new("/tmp").with_ripgrep(true).with_max_file_size(1024);
    assert!(mw.use_ripgrep);
    assert_eq!(mw.max_file_size, 1024);
}

#[test]
fn test_defaults_and_size_limit() {
    let mw = FilesystemFileSearchMiddleware::new("/tmp");
    assert!(!mw.use_ripgrep);
    assert_eq!(mw.max_file_size, 10 * 1024 * 1024);
    let small = mw.with_max_file_size(10);
    assert!(small.within_size_limit(10));
    assert!(!small.within_size_limit(11));
}

#[test]
fn test_glob_to_regex_translation() {
    assert_eq!(glob_to_regex("**/*.rs"), "^(.*/)?[^/]*\\.rs$");
    assert_eq!(glob_to_regex("src/**"), "^src/.*$");
    assert_eq!(glob_to_regex("a?b"), "^a[^/]b$");
    assert_eq!(glob_to_regex("(x)+"), "^\\(x\\)\\+$");
}

#[test]
fn test_matches_glob_pattern() {
    assert!(matches_glob_pattern("src/lib.rs", "**/*.rs"));
    assert!(matches_glob_pattern("lib.rs", "**/*.rs"));
    assert!(matches_glob_pattern("a/b/c/lib.rs", "**/*.rs"));
    assert!(!matches_glob_pattern("src/lib.py", "**/*.rs"));
    assert!(matches_glob_pattern("lib.rs", "*.rs"));
    assert!(!matches_glob_pattern("src/lib.rs", "*.rs"));
}

#[test]
fn test_text_lines() {
    assert_eq!(text_lines("foo\nbar\n\r\nbaz\r"), vec!["foo", "bar", "", "baz\r"]);
    assert_eq!(text_lines("a\r\nb\n"), vec!["a", "b"]);
    assert!(text_lines("").is_empty());
}

#[test]
fn test_grep_content_modes() {
    let hits = grep_content("fn \\w+", "src/main.rs", "use x;\nfn main() {\n}\nfn helper()", GrepOutputMode::Content);
    assert_eq!(hits.len(), 2);
    assert_eq!(hits[0].file_path, "src/main.rs");
    assert_eq!(hits[0].line_number, 2);
    assert_eq!(hits[0].line_content, "fn main() {");
    assert_eq!(hits[1].line_number, 4);
    let files = grep_content("helper", "src/main.rs", "fn helper()", GrepOutputMode::FilesWithMatches);
    assert_eq!(files.len(), 1);
    assert_eq!(files[0].line_number, 0);
    assert_eq!(files[0].line_content, "");
    assert!(grep_content("absent", "f", "text", GrepOutputMode::FilesWithMatches).is_empty());
}

#[test]
fn test_grep_search_root_invalid_regex() {
    let mw = FilesystemFileSearchMiddleware::new("/tmp/test");
    match mw.grep_search_root("(", None) {
        Err(RustChainError::Other(m)) => assert!(m.starts_with("Invalid regex pattern '(': ")),
        other => panic!("unexpected {:?}", other.is_ok()),
    }
    assert_eq!(mw.grep_search_root("a+", None).unwrap(), "/tmp/test");
}

#[test]
fn test_hidden_names() {
    assert!(is_hidden_name(".git"));
    assert!(!is_hidden_name("src"));
    assert!(!is_hidden_name(""));
}
