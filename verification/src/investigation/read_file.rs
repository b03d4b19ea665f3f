//! The tool by which the model reads files of the repository.
use crate::config::InvestigationConfig;
use crate::text::{
    decimal, decimal_text, is_longest_prefix, is_utf8_fault, starts_character, truncate_utf8,
    utf8_text, Utf8Fault,
};
use vstd::prelude::*;
use vstd::slice::slice_subrange;
use vstd::string::*;
use vstd::utf8::*;

verus! {

/// What the notice at the end of a text that was cut begins with.
pub const TRUNCATION_PREFIX: &'static str = "\n[truncated:";

/// The name of the tool.
pub const NAME: &'static str = "read_file";

/// What the model is told of the tool.
pub const DESCRIPTION: &'static str = "Read a UTF-8 text file from the repository under investigation. Paths are relative to the repository root; paths that resolve outside it are rejected. Long files are truncated.";

/// An error from constructing [`ReadFile`].
#[derive(Debug)]
pub struct BuildError {
    pub path: String,
    /// Why the path could not be resolved.
    pub source: String,
}

impl BuildError {
    /// What is said of the error.
    pub fn message(&self) -> (message: String)
        ensures
            message@ == "cannot resolve investigation.repo_root ("@ + self.path@ + "): "@
                + self.source@,
    {
        let mut message: String = String::from_str("cannot resolve investigation.repo_root (");
        message.append(self.path.as_str());
        message.append("): ");
        message.append(self.source.as_str());
        message
    }
}

/// Why a file is not read.
#[derive(Debug)]
pub enum ReadFileError {
    Absolute,
    Escapes,
    NotFound,
    IsADirectory,
    NotText,
    Unreadable { source: String },
}

/// The kinds of failure that a tool may report.
#[derive(Clone, Copy, PartialEq, Eq, Structural, Debug)]
pub enum ToolErrorKind {
    InvalidArgs,
    Timeout,
    Cancelled,
    NotFound,
    PermissionDenied,
    RateLimited,
    Provider,
    Network,
    Other,
}

impl ReadFileError {
    /// What the model is told.
    pub open spec fn text(self) -> Seq<char> {
        match self {
            ReadFileError::Absolute => "path must be relative to the repo root, not absolute"@,
            ReadFileError::Escapes =>
                "path escapes the repo root; use a path inside the repo root, with no `..` segments"@,
            ReadFileError::NotFound => "no such file under the repo root"@,
            ReadFileError::IsADirectory =>
                "that path is a directory, not a file; name a file inside it"@,
            ReadFileError::NotText =>
                "that file is not UTF-8 text; read_file only reads text files"@,
            ReadFileError::Unreadable { .. } =>
                "cannot read that path; check it names a readable file under the repo root"@,
        }
    }

    /// What the model is told.
    pub fn message(&self) -> (message: &'static str)
        ensures
            message@ == self.text(),
    {
        match self {
            ReadFileError::Absolute => "path must be relative to the repo root, not absolute",
            ReadFileError::Escapes =>
                "path escapes the repo root; use a path inside the repo root, with no `..` segments",
            ReadFileError::NotFound => "no such file under the repo root",
            ReadFileError::IsADirectory =>
                "that path is a directory, not a file; name a file inside it",
            ReadFileError::NotText =>
                "that file is not UTF-8 text; read_file only reads text files",
            ReadFileError::Unreadable { .. } =>
                "cannot read that path; check it names a readable file under the repo root",
        }
    }

    /// The kind of failure.
    pub open spec fn spec_kind(self) -> ToolErrorKind {
        match self {
            ReadFileError::Absolute => ToolErrorKind::PermissionDenied,
            ReadFileError::Escapes => ToolErrorKind::PermissionDenied,
            ReadFileError::NotFound => ToolErrorKind::NotFound,
            ReadFileError::IsADirectory => ToolErrorKind::InvalidArgs,
            ReadFileError::NotText => ToolErrorKind::InvalidArgs,
            ReadFileError::Unreadable { .. } => ToolErrorKind::Other,
        }
    }
}

/// How a failure reaches the model: its kind, and the words that tell what to do instead.
pub fn map_error(error: &ReadFileError) -> (mapped: (ToolErrorKind, &'static str))
    ensures
        mapped.0 == error.spec_kind(),
        mapped.1@ == error.text(),
{
    let kind: ToolErrorKind = match error {
        ReadFileError::Absolute => ToolErrorKind::PermissionDenied,
        ReadFileError::Escapes => ToolErrorKind::PermissionDenied,
        ReadFileError::NotFound => ToolErrorKind::NotFound,
        ReadFileError::IsADirectory => ToolErrorKind::InvalidArgs,
        ReadFileError::NotText => ToolErrorKind::InvalidArgs,
        ReadFileError::Unreadable { .. } => ToolErrorKind::Other,
    };
    (kind, error.message())
}

/// Arguments for the `read_file` tool.
#[derive(Debug)]
pub struct Args {
    pub path: String,
}

/// A part of the path that the model asks for.
#[derive(Clone, Copy, PartialEq, Eq, Structural, Debug)]
pub enum PathPart {
    /// `..`
    Parent,
    /// Anything else.
    Other,
}

/// A canonical path: absolute, without `.` or `..`, with every symbolic link followed. `P` is the
/// path itself; its parts are compared as bytes.
pub struct CanonicalPath<P> {
    pub path: P,
    pub parts: Vec<Vec<u8>>,
}

/// Why a path has no canonical form.
#[derive(Debug)]
pub enum ResolveFault {
    NotFound,
    Other { source: String },
}

/// The parts of a path.
pub open spec fn parts_view(parts: Seq<Vec<u8>>) -> Seq<Seq<u8>> {
    Seq::new(parts.len(), |i: int| parts[i]@)
}

/// Whether the list of parts `inner` begins with `outer`.
fn begins_with(inner: &Vec<Vec<u8>>, outer: &Vec<Vec<u8>>) -> (begins: bool)
    ensures
        begins == parts_view(outer@).is_prefix_of(parts_view(inner@)),
{
    let ghost o = parts_view(outer@);
    let ghost n = parts_view(inner@);
    if outer.len() > inner.len() {
        return false;
    }
    let mut i: usize = 0;
    while i < outer.len()
        invariant
            i <= outer.len() <= inner.len(),
            o == parts_view(outer@),
            n == parts_view(inner@),
            forall|j: int| 0 <= j < i ==> o[j] == n[j],
        decreases outer.len() - i,
    {
        assert(o[i as int] == outer[i as int]@);
        assert(n[i as int] == inner[i as int]@);
        if !same_bytes(&outer[i], &inner[i]) {
            return false;
        }
        i = i + 1;
    }
    assert(o =~= n.take(o.len() as int));
    true
}

fn same_bytes(a: &Vec<u8>, b: &Vec<u8>) -> (same: bool)
    ensures
        same == (a@ == b@),
{
    if a.len() != b.len() {
        return false;
    }
    let mut i: usize = 0;
    while i < a.len()
        invariant
            i <= a.len(),
            a.len() == b.len(),
            forall|j: int| 0 <= j < i ==> a[j] == b[j],
        decreases a.len() - i,
    {
        if a[i] != b[i] {
            return false;
        }
        i = i + 1;
    }
    assert(a@ =~= b@);
    true
}

/// Reads files below one directory, each up to a number of bytes.
pub struct ReadFile<P> {
    root: CanonicalPath<P>,
    max_file_bytes: usize,
}

/// What came of opening and reading a file.
#[derive(Debug)]
pub enum FileRead {
    /// It could not be opened or read.
    Unreadable { source: String },
    Directory,
    /// Its first bytes, and how many it has in all.
    Bytes { bytes: Vec<u8>, total_bytes: u64 },
}

/// The text that the first bytes of a file hold. Where the file goes on, the last character may be
/// cut in two; then it is left out.
pub open spec fn capped_text(bytes: Seq<u8>, total_bytes: u64, text: Option<Seq<char>>) -> bool {
    if valid_utf8(bytes) {
        text == Some(decode_utf8(bytes))
    } else {
        exists|fault: Utf8Fault| #[trigger]
            is_utf8_fault(bytes, fault) && text == if fault.incomplete && total_bytes
                > bytes.len() {
                Some(decode_utf8(bytes.take(fault.valid_up_to as int)))
            } else {
                None
            }
    }
}

/// The text that is shown for what was kept of a file, and whether that is less than all of it.
pub open spec fn presentation(kept: Seq<char>, total_bytes: u64) -> (Seq<char>, bool) {
    if encode_utf8(kept).len() == total_bytes {
        (kept, false)
    } else {
        (
            kept + TRUNCATION_PREFIX@ + " first "@ + decimal_text(encode_utf8(kept).len())
                + " of "@ + decimal_text(total_bytes as nat) + " bytes shown]"@,
            true,
        )
    }
}

impl<P> ReadFile<P> {
    /// The directory that reads are pinned to.
    pub closed spec fn root(&self) -> P {
        self.root.path
    }

    /// The parts of that directory.
    pub closed spec fn root_parts(&self) -> Seq<Seq<u8>> {
        parts_view(self.root.parts@)
    }

    /// How much of a file is shown.
    pub closed spec fn cap(&self) -> usize {
        self.max_file_bytes
    }

    /// Pins reads to the canonical form of `repo_root`. Fails when there is none.
    pub fn new(
        config: &InvestigationConfig,
        resolved: Result<CanonicalPath<P>, String>,
    ) -> (tool: Result<Self, BuildError>)
        ensures
            match (resolved, tool) {
                (Ok(root), Ok(tool)) => {
                    &&& tool.root() == root.path
                    &&& tool.root_parts() == parts_view(root.parts@)
                    &&& tool.cap() == config.max_file_bytes
                },
                (Err(source), Err(error)) => error.path@ == config.repo_root@ && error.source@
                    == source@,
                _ => false,
            },
    {
        match resolved {
            Ok(root) => Ok(ReadFile { root, max_file_bytes: config.max_file_bytes }),
            Err(source) => Err(BuildError { path: config.repo_root.clone(), source }),
        }
    }

    /// The directory reads are pinned to, as resolved at construction.
    #[must_use]
    pub fn repo_root(&self) -> (root: &P)
        ensures
            *root == self.root(),
    {
        &self.root.path
    }

    /// Screens the path that the model asks for, before the file system is touched: so a traversal
    /// to a path that happens not to exist is not reported as a missing file.
    pub fn screen(&self, absolute: bool, parts: &Vec<PathPart>) -> (screened: Result<
        (),
        ReadFileError,
    >)
        ensures
            if absolute {
                screened matches Err(error) && error is Absolute
            } else if parts@.contains(PathPart::Parent) {
                screened matches Err(error) && error is Escapes
            } else {
                screened is Ok
            },
    {
        if absolute {
            return Err(ReadFileError::Absolute);
        }
        let mut i: usize = 0;
        while i < parts.len()
            invariant
                i <= parts.len(),
                !absolute,
                forall|j: int| 0 <= j < i ==> parts[j] != PathPart::Parent,
            decreases parts.len() - i,
        {
            if parts[i] == PathPart::Parent {
                assert(parts@.contains(PathPart::Parent));
                return Err(ReadFileError::Escapes);
            }
            i = i + 1;
        }
        Ok(())
    }

    /// Confines a path to the repository once it is resolved. Both sides are canonical, so this also
    /// catches symbolic links that lead out of the repository.
    pub fn confine(&self, resolved: Result<CanonicalPath<P>, ResolveFault>) -> (confined: Result<
        P,
        ReadFileError,
    >)
        ensures
            match resolved {
                Ok(path) => if self.root_parts().is_prefix_of(parts_view(path.parts@)) {
                    confined == Ok::<_, ReadFileError>(path.path)
                } else {
                    confined matches Err(error) && error is Escapes
                },
                Err(ResolveFault::NotFound) => confined matches Err(error) && error is NotFound,
                Err(ResolveFault::Other { source }) => confined == Err::<P, _>(
                    ReadFileError::Unreadable { source },
                ),
            },
    {
        match resolved {
            Ok(path) => {
                if begins_with(&path.parts, &self.root.parts) {
                    Ok(path.path)
                } else {
                    Err(ReadFileError::Escapes)
                }
            },
            Err(ResolveFault::NotFound) => Err(ReadFileError::NotFound),
            Err(ResolveFault::Other { source }) => Err(ReadFileError::Unreadable { source }),
        }
    }

    /// How many bytes of a file are read: one past the cap, so that a file exactly at the cap is
    /// told apart from a longer one, and never the whole of a long file.
    pub fn read_limit(&self) -> (limit: u64)
        ensures
            limit == if self.cap() < u64::MAX {
                (self.cap() + 1) as u64
            } else {
                u64::MAX
            },
    {
        let cap: u64 = self.max_file_bytes as u64;
        if cap < u64::MAX {
            cap + 1
        } else {
            cap
        }
    }

    /// The text of a file that was read up to the limit, and how many bytes the file has in all.
    pub fn read_capped(&self, read: FileRead) -> (text: Result<(String, u64), ReadFileError>)
        ensures
            match read {
                FileRead::Unreadable { source } => text == Err::<(String, u64), _>(
                    ReadFileError::Unreadable { source },
                ),
                FileRead::Directory => text matches Err(error) && error is IsADirectory,
                FileRead::Bytes { bytes, total_bytes } => match text {
                    Ok((text, total)) => total == total_bytes && capped_text(
                        bytes@,
                        total_bytes,
                        Some(text@),
                    ),
                    Err(error) => error is NotText && capped_text(bytes@, total_bytes, None),
                },
            },
    {
        match read {
            FileRead::Unreadable { source } => Err(ReadFileError::Unreadable { source }),
            FileRead::Directory => Err(ReadFileError::IsADirectory),
            FileRead::Bytes { bytes, total_bytes } => match utf8_text(bytes.as_slice()) {
                Ok(text) => {
                    proof {
                        encode_utf8_decode_utf8(text@);
                    }
                    Ok((text.to_owned(), total_bytes))
                },
                Err(fault) => {
                    proof {
                        assert(bytes@.take(bytes@.len() as int) =~= bytes@);
                        assert(is_utf8_fault(bytes@, fault));
                    }
                    if !fault.incomplete || total_bytes <= bytes.len() as u64 {
                        return Err(ReadFileError::NotText);
                    }
                    let whole: &[u8] = slice_subrange(bytes.as_slice(), 0, fault.valid_up_to);
                    assert(whole@ =~= bytes@.take(fault.valid_up_to as int));
                    match utf8_text(whole) {
                        Ok(text) => {
                            proof {
                                encode_utf8_decode_utf8(text@);
                            }
                            Ok((text.to_owned(), total_bytes))
                        },
                        Err(inner) => {
                            assert(whole@.take(whole@.len() as int) =~= whole@);
                            Err(ReadFileError::NotText)
                        },
                    }
                },
            },
        }
    }

    /// Shows as much of the text as the cap allows. A notice is appended unless the model sees every
    /// byte of the file: it must know when it did not see everything. The flag says the same, where
    /// prose in the text cannot be trusted.
    pub fn present(&self, text: &str, total_bytes: u64) -> (shown: (String, bool))
        ensures
            exists|kept: Seq<char>| #[trigger]
                is_longest_prefix(kept, text@, self.cap() as int) && (shown.0@, shown.1)
                    == presentation(kept, total_bytes),
    {
        let kept: &str = truncate_utf8(text, self.max_file_bytes);
        let bytes: &[u8] = kept.as_bytes();
        let length: u64 = bytes.len() as u64;
        proof {
            assert(length == encode_utf8(kept@).len());
            assert(is_longest_prefix(kept@, text@, self.cap() as int));
        }
        if length == total_bytes {
            let shown: (String, bool) = (kept.to_owned(), false);
            assert((shown.0@, shown.1) == presentation(kept@, total_bytes));
            return shown;
        }
        let mut shown: String = kept.to_owned();
        shown.append(TRUNCATION_PREFIX);
        shown.append(" first ");
        shown.append(decimal(length).as_str());
        shown.append(" of ");
        shown.append(decimal(total_bytes).as_str());
        shown.append(" bytes shown]");
        assert((shown@, true) == presentation(kept@, total_bytes));
        (shown, true)
    }
}

/// What the tool shows of a file whose first bytes were read up to the limit: the flag is clear
/// exactly if the whole file is shown, byte for byte, and otherwise what is kept are the first bytes
/// of the file, within the cap.
pub proof fn law_flag_tells_whether_all_is_shown(
    file: Seq<u8>,
    read: Seq<u8>,
    cap: usize,
    text: Seq<char>,
    kept: Seq<char>,
)
    requires
        file.len() <= u64::MAX,
        read == file.take(
            if file.len() <= cap {
                file.len() as int
            } else {
                cap as int + 1
            },
        ),
        capped_text(read, file.len() as u64, Some(text)),
        is_longest_prefix(kept, text, cap as int),
    ensures
        encode_utf8(kept).is_prefix_of(file),
        encode_utf8(kept).len() <= cap,
        presentation(kept, file.len() as u64).1 == (encode_utf8(kept) != file),
        presentation(kept, file.len() as u64).1 == (file.len() > cap),
{
    let bytes = encode_utf8(text);
    assert(bytes.is_prefix_of(read)) by {
        if valid_utf8(read) {
            decode_utf8_encode_utf8(read);
            assert(bytes =~= read);
        } else {
            let fault = choose|fault: Utf8Fault| #[trigger]
                is_utf8_fault(read, fault) && Some(text) == if fault.incomplete && file.len()
                    > read.len() {
                    Some(decode_utf8(read.take(fault.valid_up_to as int)))
                } else {
                    None
                };
            decode_utf8_encode_utf8(read.take(fault.valid_up_to as int));
            assert(bytes =~= read.take(fault.valid_up_to as int));
        }
    }
    let rest = text.skip(kept.len() as int);
    assert(text =~= kept + rest);
    crate::text::lemma_encode_concat(kept, rest);
    let shown = encode_utf8(kept);
    assert forall|i: int| 0 <= i < shown.len() implies shown[i] == file[i] by {
        assert(bytes[i] == shown[i]);
        assert(bytes[i] == read.subrange(0, bytes.len() as int)[i]);
    }
    assert(shown =~= file.take(shown.len() as int));
    if file.len() <= cap {
        assert(read =~= file);
        assert(valid_utf8(read)) by {
            if !valid_utf8(read) {
                let fault = choose|fault: Utf8Fault| #[trigger]
                    is_utf8_fault(read, fault) && Some(text) == if fault.incomplete && file.len()
                        > read.len() {
                        Some(decode_utf8(read.take(fault.valid_up_to as int)))
                    } else {
                        None
                    };
            }
        }
        decode_utf8_encode_utf8(read);
        assert(text.is_prefix_of(text));
        assert(kept.len() == text.len());
        assert(kept =~= text);
    }
    if encode_utf8(kept).len() == file.len() {
        assert(file.take(file.len() as int) =~= file);
    }
}

/// What is shown begins with what was kept of the file. Where that is the whole file it is all that
/// is shown, and nothing is flagged; otherwise a notice follows that begins with the same words each
/// time.
pub proof fn law_shown_text_begins_with_what_was_kept(kept: Seq<char>, total_bytes: u64)
    ensures
        ({
            let (shown, truncated) = presentation(kept, total_bytes);
            &&& kept.is_prefix_of(shown)
            &&& truncated <==> encode_utf8(kept).len() != total_bytes
            &&& !truncated ==> shown == kept
            &&& truncated ==> (kept + TRUNCATION_PREFIX@).is_prefix_of(shown) && shown.len()
                > kept.len() + TRUNCATION_PREFIX@.len()
        }),
{
    reveal_strlit(" bytes shown]");
    let shown = presentation(kept, total_bytes).0;
    assert(kept =~= shown.take(kept.len() as int));
    if presentation(kept, total_bytes).1 {
        let head = kept + TRUNCATION_PREFIX@;
        assert(head =~= shown.take(head.len() as int));
    }
}

/// A path that leads out of the repository, or does not start in it, is a matter of permission; one
/// that is not there is not found; and one that is there but is no text file is a mistake in the
/// arguments.
pub proof fn law_kinds_of_failure(error: ReadFileError)
    ensures
        error.spec_kind() == ToolErrorKind::PermissionDenied <==> error is Absolute
            || error is Escapes,
        error.spec_kind() == ToolErrorKind::NotFound <==> error is NotFound,
        error.spec_kind() == ToolErrorKind::InvalidArgs <==> error is IsADirectory
            || error is NotText,
        error.spec_kind() == ToolErrorKind::Other <==> error is Unreadable,
{
}

/// Bytes that are text are read as that text, all of it. Bytes that are none are read only where the
/// file goes on behind them and they merely cut a character in two: then what stands before that
/// character is read, and it is text. A file that was read to its end and is no text is refused.
pub proof fn law_text_is_read_up_to_a_cut_character(
    bytes: Seq<u8>,
    total_bytes: u64,
    outcome: Option<Seq<char>>,
)
    requires
        capped_text(bytes, total_bytes, outcome),
    ensures
        valid_utf8(bytes) ==> (outcome matches Some(text) && encode_utf8(text) == bytes),
        !valid_utf8(bytes) && total_bytes <= bytes.len() ==> outcome is None,
        outcome matches Some(text) ==> encode_utf8(text).len() <= bytes.len() && encode_utf8(text)
            == bytes.take(encode_utf8(text).len() as int) && (encode_utf8(text).len() == bytes.len()
            || starts_character(bytes.skip(encode_utf8(text).len() as int))),
        outcome is None ==> forall|n: int|
            #![trigger bytes.take(n)]
            0 <= n <= bytes.len() && valid_utf8(bytes.take(n)) && starts_character(bytes.skip(n))
                && total_bytes > bytes.len() ==> exists|m: int|
                n < m < bytes.len() && valid_utf8(#[trigger] bytes.take(m)),
{
    if valid_utf8(bytes) {
        decode_utf8_encode_utf8(bytes);
        assert(bytes.take(bytes.len() as int) =~= bytes);
    } else {
        let fault = choose|fault: Utf8Fault| #[trigger]
            is_utf8_fault(bytes, fault) && outcome == if fault.incomplete && total_bytes
                > bytes.len() {
                Some(decode_utf8(bytes.take(fault.valid_up_to as int)))
            } else {
                None
            };
        let valid_up_to = fault.valid_up_to as int;
        decode_utf8_encode_utf8(bytes.take(valid_up_to));
        if outcome is None {
            assert forall|n: int|
                #![trigger bytes.take(n)]
                0 <= n <= bytes.len() && valid_utf8(bytes.take(n)) && starts_character(
                    bytes.skip(n),
                ) && total_bytes > bytes.len() implies exists|m: int|
                n < m < bytes.len() && valid_utf8(#[trigger] bytes.take(m)) by {
                assert(n != valid_up_to);
                assert(valid_utf8(bytes.take(valid_up_to)));
            }
        }
    }
}

/// A path that is let through lies in the directory that reads are pinned to: its parts begin with
/// those of that directory. A path that has such parts is let through as it is.
pub proof fn law_reads_stay_in_the_repository<P>(
    tool: ReadFile<P>,
    resolved: CanonicalPath<P>,
    confined: Result<P, ReadFileError>,
)
    requires
        call_ensures(
            ReadFile::<P>::confine,
            (&tool, Ok::<CanonicalPath<P>, ResolveFault>(resolved)),
            confined,
        ),
    ensures
        confined is Ok <==> tool.root_parts().len() <= resolved.parts@.len() && forall|i: int|
            0 <= i < tool.root_parts().len() ==> #[trigger] tool.root_parts()[i]
                == resolved.parts@[i]@,
        confined matches Ok(path) ==> path == resolved.path,
        confined matches Err(error) ==> error is Escapes,
{
    let outer = tool.root_parts();
    let inner = parts_view(resolved.parts@);
    if outer.is_prefix_of(inner) {
        assert forall|i: int| 0 <= i < outer.len() implies #[trigger] outer[i]
            == resolved.parts@[i]@ by {
            assert(outer[i] == inner.subrange(0, outer.len() as int)[i]);
            assert(inner[i] == resolved.parts@[i]@);
        }
    }
    if outer.len() <= inner.len() && forall|i: int|
        0 <= i < outer.len() ==> #[trigger] outer[i] == resolved.parts@[i]@ {
        assert(outer =~= inner.subrange(0, outer.len() as int));
    }
}

/// A path passes the screen exactly if it is relative and goes up nowhere.
pub proof fn law_screened_paths_go_down<P>(
    tool: ReadFile<P>,
    absolute: bool,
    parts: Vec<PathPart>,
    screened: Result<(), ReadFileError>,
)
    requires
        call_ensures(ReadFile::<P>::screen, (&tool, absolute, &parts), screened),
    ensures
        screened is Ok <==> !absolute && forall|i: int|
            0 <= i < parts@.len() ==> #[trigger] parts@[i] != PathPart::Parent,
        screened matches Err(error) ==> error.spec_kind() == ToolErrorKind::PermissionDenied,
{
    if parts@.contains(PathPart::Parent) {
        let i = choose|i: int| 0 <= i < parts@.len() && parts@[i] == PathPart::Parent;
        assert(parts@[i] == PathPart::Parent);
    }
}

} // verus!
