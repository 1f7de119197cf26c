use vstd::prelude::*;

verus! {

#[verifier::external_type_specification]
#[verifier::external_body]
pub struct ExIoError(std::io::Error);

/// Pattern that the path of a stored file must match: slash-separated
/// segments of letters, digits and underscores, the last one with an
/// optional extension.
pub const FILE_PATTERN: &'static str = "^([a-zA-Z0-9_]+/)*[a-zA-Z0-9_]+(\\.[a-zA-Z0-9_]+)?$";

/// Whether the regular expression `pattern` matches `text`.
pub uninterp spec fn regex_accepts(pattern: Seq<char>, text: Seq<char>) -> bool;

/// Relies on regex::Regex::new and Regex::is_match: whether `text` matches
/// `pattern`, or `None` when `pattern` does not compile.
#[verifier::external_body]
fn regex_is_match(pattern: &str, text: &str) -> (r: Option<bool>)
    ensures
        r matches Some(b) ==> b == regex_accepts(pattern@, text@),
{
    match regex::Regex::new(pattern) {
        Ok(re) => Some(re.is_match(text)),
        Err(_) => None,
    }
}

/// Error of a file service.
#[derive(Debug)]
pub enum FileServiceError {
    IOError(std::io::Error),
    InvalidFileName(String),
}

/// Error of a file store.
#[derive(Debug)]
pub enum FileStoreError {
    IOError(std::io::Error),
    InvalidFileName(String),
}

/// A file service's verdict on path `file`, given what matching it against
/// [`FILE_PATTERN`] gave: only a match is accepted.
pub fn check_file_name(file: &str, matched: Option<bool>) -> (r: Result<(), FileServiceError>)
    ensures
        r is Ok <==> matched == Some(true),
        r matches Err(e) ==> e matches FileServiceError::InvalidFileName(n) && n@ == file@,
{
    match matched {
        Some(true) => Ok(()),
        _ => Err(FileServiceError::InvalidFileName(file.to_owned())),
    }
}

/// A file store's verdict on path `file`, given what matching it against
/// [`FILE_PATTERN`] gave: only a match is accepted.
pub fn check_store_name(file: &str, matched: Option<bool>) -> (r: Result<(), FileStoreError>)
    ensures
        r is Ok <==> matched == Some(true),
        r matches Err(e) ==> e matches FileStoreError::InvalidFileName(n) && n@ == file@,
{
    match matched {
        Some(true) => Ok(()),
        _ => Err(FileStoreError::InvalidFileName(file.to_owned())),
    }
}

/// File storage under a root directory. Paths are checked here; reading and
/// writing the bytes is left to the caller.
pub struct DynFileService {
    root: String,
}

impl View for DynFileService {
    type V = Seq<char>;

    closed spec fn view(&self) -> Seq<char> {
        self.root@
    }
}

impl DynFileService {
    /// A file service that keeps its files under directory `root`.
    pub fn filesystem(root: String) -> (r: DynFileService)
        ensures
            r@ == root@,
    {
        DynFileService { root }
    }

    /// The root directory.
    pub fn root(&self) -> (r: &str)
        ensures
            r@ == self@,
    {
        self.root.as_str()
    }

    /// Checks that `file` may be stored: it must match [`FILE_PATTERN`].
    pub fn check_path(&self, file: &str) -> (r: Result<(), FileServiceError>)
        ensures
            r is Ok ==> regex_accepts(FILE_PATTERN@, file@),
            r matches Err(e) ==> e matches FileServiceError::InvalidFileName(n) && n@ == file@,
    {
        check_file_name(file, regex_is_match(FILE_PATTERN, file))
    }
}

/// File storage under a root directory, for callers that speak of a store
/// rather than a service. Paths are checked here; the caller reads and
/// writes the bytes.
pub struct DynFileStore {
    root: String,
}

impl View for DynFileStore {
    type V = Seq<char>;

    closed spec fn view(&self) -> Seq<char> {
        self.root@
    }
}

impl DynFileStore {
    /// A file store that keeps its files under directory `root`.
    pub fn filesystem(root: String) -> (r: DynFileStore)
        ensures
            r@ == root@,
    {
        DynFileStore { root }
    }

    /// The root directory.
    pub fn root(&self) -> (r: &str)
        ensures
            r@ == self@,
    {
        self.root.as_str()
    }

    /// Checks that `file` may be stored: it must match [`FILE_PATTERN`].
    pub fn check_path(&self, file: &str) -> (r: Result<(), FileStoreError>)
        ensures
            r is Ok ==> regex_accepts(FILE_PATTERN@, file@),
            r matches Err(e) ==> e matches FileStoreError::InvalidFileName(n) && n@ == file@,
    {
        check_store_name(file, regex_is_match(FILE_PATTERN, file))
    }
}

} // verus!
