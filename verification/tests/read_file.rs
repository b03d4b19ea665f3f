use oncall_ai::config::{InvestigationConfig, ModelProvider, ModelSpec};
use oncall_ai::investigation::read_file::{
    map_error, CanonicalPath, FileRead, PathPart, ReadFile, ReadFileError, ResolveFault,
    ToolErrorKind, DESCRIPTION, NAME, TRUNCATION_PREFIX,
};

fn test_config(max_file_bytes: usize) -> InvestigationConfig {
    InvestigationConfig {
        model: ModelSpec { provider: ModelProvider::Ollama, model: "test-model".to_owned() },
        repo_root: "repo".to_owned(),
        max_turns: 8,
        timeout_secs: 5,
        max_file_bytes,
        queue_capacity: 8,
    }
}

fn canonical(path: &str) -> CanonicalPath<String> {
    CanonicalPath {
        path: path.to_owned(),
        parts: path.split('/').map(|part| part.as_bytes().to_vec()).collect(),
    }
}

fn tool(max_file_bytes: usize) -> ReadFile<String> {
    ReadFile::new(&test_config(max_file_bytes), Ok(canonical("/base/repo")))
        .expect("read_file tool builds")
}

/// Reads `contents` as the tool reads a file: up to its limit, then as text, then as shown.
fn read(tool: &ReadFile<String>, contents: &[u8]) -> Result<(String, bool), ReadFileError> {
    let limit = usize::try_from(tool.read_limit()).unwrap_or(usize::MAX);
    let bytes = contents[..contents.len().min(limit)].to_vec();
    let total_bytes = u64::try_from(contents.len()).expect("a small file");
    let (text, total) = tool.read_capped(FileRead::Bytes { bytes, total_bytes })?;
    Ok(tool.present(&text, total))
}

#[test]
fn reads_a_file_under_the_root() {
    let tool = tool(1024);
    tool.screen(false, &vec![PathPart::Other, PathPart::Other]).expect("a plain relative path");
    let path = tool.confine(Ok(canonical("/base/repo/src/main.rs"))).expect("under the root");
    assert_eq!(path, "/base/repo/src/main.rs");
    let (text, truncated) = read(&tool, b"fn main() {}\n").expect("reads the file");
    assert_eq!(text, "fn main() {}\n");
    assert!(!truncated);
}

#[test]
fn incomplete_utf8_at_eof_is_rejected_as_not_text() {
    let error = read(&tool(1024), &[0xc3]).expect_err("incomplete UTF-8 at EOF is not text");
    assert!(matches!(error, ReadFileError::NotText));
}

#[test]
fn bytes_that_are_no_text_are_rejected_even_where_the_file_goes_on() {
    let error = read(&tool(2), &[b'a', 0xff, b'b', b'c']).expect_err("not text");
    assert!(matches!(error, ReadFileError::NotText));
}

#[test]
fn model_guidance_states_the_lookup_time_containment_rule() {
    assert!(DESCRIPTION.contains("paths that resolve outside it are rejected"));
    assert!(!DESCRIPTION.contains("nothing outside it can be read"));
    assert_eq!(NAME, "read_file");
}

#[test]
fn failures_reach_the_model_as_readable_feedback() {
    let mapped = |error: ReadFileError| map_error(&error);
    assert_eq!(
        mapped(ReadFileError::Escapes),
        (ToolErrorKind::PermissionDenied, ReadFileError::Escapes.message())
    );
    assert_eq!(mapped(ReadFileError::Absolute).0, ToolErrorKind::PermissionDenied);
    assert_eq!(
        mapped(ReadFileError::NotFound),
        (ToolErrorKind::NotFound, "no such file under the repo root")
    );
    assert_eq!(
        mapped(ReadFileError::IsADirectory),
        (
            ToolErrorKind::InvalidArgs,
            "that path is a directory, not a file; name a file inside it"
        )
    );
    assert_eq!(
        mapped(ReadFileError::NotText),
        (
            ToolErrorKind::InvalidArgs,
            "that file is not UTF-8 text; read_file only reads text files"
        )
    );
    assert_eq!(
        mapped(ReadFileError::Unreadable { source: "denied".to_owned() }),
        (
            ToolErrorKind::Other,
            "cannot read that path; check it names a readable file under the repo root"
        )
    );
}

#[test]
fn repo_root_is_canonicalized_at_construction() {
    assert_eq!(tool(1024).repo_root(), "/base/repo");
    let error = ReadFile::<String>::new(&test_config(1), Err("not found".to_owned()));
    let Err(error) = error else {
        panic!("a root that cannot be resolved must fail");
    };
    assert_eq!(error.message(), "cannot resolve investigation.repo_root (repo): not found");
}

#[test]
fn rejects_parent_traversal() {
    let tool = tool(1024);
    let error = tool
        .screen(false, &vec![PathPart::Parent, PathPart::Other])
        .expect_err("traversal must be rejected");
    assert!(matches!(error, ReadFileError::Escapes), "got: {error:?}");
    assert!(
        error.message().contains("repo root"),
        "message must tell the model what to do instead: {}",
        error.message()
    );
    let inside = tool.screen(false, &vec![PathPart::Other, PathPart::Parent]);
    assert!(matches!(inside, Err(ReadFileError::Escapes)));
}

#[test]
fn rejects_absolute_path() {
    let error = tool(1024)
        .screen(true, &vec![PathPart::Other, PathPart::Parent])
        .expect_err("absolute paths must be rejected");
    assert!(matches!(error, ReadFileError::Absolute), "got: {error:?}");
    assert!(
        error.message().contains("relative"),
        "message must tell the model what to do instead: {}",
        error.message()
    );
}

#[test]
fn rejects_symlink_escaping_the_root() {
    let tool = tool(1024);
    for outside in ["/base/secrets.txt", "/base", "/base/repository/x", "/base/rep"] {
        let error = tool.confine(Ok(canonical(outside))).expect_err("outside the root");
        assert!(matches!(error, ReadFileError::Escapes), "got: {error:?}");
    }
    assert!(tool.confine(Ok(canonical("/base/repo"))).is_ok());
}

#[test]
fn truncates_at_the_byte_cap_on_a_char_boundary() {
    // 'é' is two bytes, so a cut at 9 would split the fifth one.
    let (text, truncated) = read(&tool(9), "é".repeat(10).as_bytes()).expect("reads the file");
    let (body, notice) = text
        .split_once(TRUNCATION_PREFIX)
        .expect("truncation must be stated in the returned text");
    assert_eq!(body, "é".repeat(4), "the cut must land on a char boundary");
    assert!(body.len() <= 9, "body must fit the cap: {}", body.len());
    assert!(notice.contains("20"), "notice must state the full size: {notice}");
    assert!(truncated);
    assert_eq!(notice, " first 8 of 20 bytes shown]");
}

#[test]
fn truncation_is_published_as_result_metadata() {
    let tool = tool(4);
    let (_, truncated) = read(&tool, b"abcdefgh").expect("reads the file");
    assert!(truncated);
    let (_, truncated) = read(&tool, b"abc").expect("reads the file");
    assert!(!truncated);
    let (text, truncated) = read(&tool, b"abcd").expect("reads the file");
    assert_eq!(text, "abcd", "a file exactly at the cap is shown whole");
    assert!(!truncated);
}

/// A file whose own contents end in the notice is not a truncated read.
#[test]
fn output_that_merely_looks_truncated_carries_no_truncation() {
    let contents = b"log line\n[truncated: first 8 of 99 bytes shown]";
    let (_, truncated) = read(&tool(1024), contents).expect("reads the file");
    assert!(!truncated);
}

#[test]
fn stops_reading_at_the_cap() {
    // 'é' is two bytes, so the last byte read splits one: the cut must yield whole characters, not
    // an "unreadable" file.
    let tool = tool(8);
    assert_eq!(tool.read_limit(), 9);
    let mut contents = "é".repeat(5).into_bytes();
    contents.resize(4 * 1024 * 1024, 0xff);
    let (text, _) = read(&tool, &contents).expect("reads the file");
    let (body, notice) = text
        .split_once(TRUNCATION_PREFIX)
        .expect("truncation must be stated in the returned text");
    assert_eq!(body, "é".repeat(4), "the cut must land on a char boundary");
    assert!(
        notice.contains(&contents.len().to_string()),
        "notice must report the whole file's size ({}): {notice}",
        contents.len()
    );
}

#[test]
fn missing_file_is_an_error_result_not_a_panic() {
    let error = tool(1024).confine(Err(ResolveFault::NotFound)).expect_err("missing");
    assert!(matches!(error, ReadFileError::NotFound), "got: {error:?}");
    let other = ResolveFault::Other { source: "denied".to_owned() };
    let error = tool(1024).confine(Err(other)).expect_err("unreadable");
    assert!(matches!(error, ReadFileError::Unreadable { source } if source == "denied"));
}

#[test]
fn directory_is_an_error_result_not_an_io_error() {
    let error = tool(1024).read_capped(FileRead::Directory).expect_err("a directory");
    assert!(matches!(error, ReadFileError::IsADirectory), "got: {error:?}");
    let denied = FileRead::Unreadable { source: "denied".to_owned() };
    let error = tool(1024).read_capped(denied).expect_err("unreadable");
    assert!(matches!(error, ReadFileError::Unreadable { source } if source == "denied"));
}
