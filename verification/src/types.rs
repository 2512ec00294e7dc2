//! Domain types: repository identifiers, files, paths and sizes.

use vstd::prelude::*;
use vstd::string::*;
use crate::error::{RepoNameError, RepoOwnerError};
use crate::size::{size_text, size_text_exec};
use crate::weburl::{parse_url, url_parses, url_serialization};
use crate::text::{
    ascii_alphanumeric, byte_len, char_is_alphanumeric, chars_of, is_ascii_char, is_ascii_text,
    unicode_alphanumeric,
};

verus! {

/// The longest repository owner accepted, in bytes.
pub const MAX_OWNER_BYTES: usize = 39;

/// The longest repository name accepted, in bytes.
pub const MAX_NAME_BYTES: usize = 100;

/// A letter or a digit, as `char::is_alphanumeric` decides it: among ASCII
/// characters the letters, small and capital, and the digits.
pub open spec fn letter_or_digit(c: char) -> bool {
    if is_ascii_char(c) {
        ascii_alphanumeric(c)
    } else {
        unicode_alphanumeric(c)
    }
}

/// A character that may stand in an owner name: a letter, a digit or `-`.
pub open spec fn owner_char(c: char) -> bool {
    letter_or_digit(c) || c == '-'
}

/// A character that may stand in a repository name: a letter, a digit, `-`, `_` or `.`.
pub open spec fn name_char(c: char) -> bool {
    letter_or_digit(c) || c == '-' || c == '_' || c == '.'
}

/// Every character of `s` is an owner character.
pub open spec fn all_owner_chars(s: Seq<char>) -> bool {
    forall|i: int| 0 <= i < s.len() ==> #[trigger] owner_char(s[i])
}

/// Every character of `s` is a repository-name character.
pub open spec fn all_name_chars(s: Seq<char>) -> bool {
    forall|i: int| 0 <= i < s.len() ==> #[trigger] name_char(s[i])
}

/// A valid repository owner: not empty, at most 39 bytes, and made of letters,
/// digits and `-`.
pub open spec fn valid_owner(s: Seq<char>) -> bool {
    &&& s.len() > 0
    &&& byte_len(s) <= MAX_OWNER_BYTES
    &&& all_owner_chars(s)
}

/// A valid repository name: not empty, at most 100 bytes, and made of letters,
/// digits, `-`, `_` and `.`.
pub open spec fn valid_name(s: Seq<char>) -> bool {
    &&& s.len() > 0
    &&& byte_len(s) <= MAX_NAME_BYTES
    &&& all_name_chars(s)
}

/// On ASCII texts, owner validity is a matter of length and characters
/// alone: an ASCII owner is valid exactly when it is not empty, takes at
/// most 39 bytes, and every character, wherever it stands, is a letter
/// (small or capital), a digit or `-`.
pub proof fn lemma_ascii_owner_validity(s: Seq<char>)
    requires
        is_ascii_text(s),
    ensures
        valid_owner(s) <==> {
            &&& s.len() > 0
            &&& byte_len(s) <= 39
            &&& forall|i: int| 0 <= i < s.len() ==> ascii_alphanumeric(#[trigger] s[i]) || s[i] == '-'
        },
{
    assert forall|i: int| 0 <= i < s.len() implies (owner_char(#[trigger] s[i]) <==> (ascii_alphanumeric(s[i]) || s[i] == '-')) by {
        assert(is_ascii_char(s[i]));
    }
}

/// On ASCII texts, name validity is a matter of length and characters
/// alone: an ASCII repository name is valid exactly when it is not empty,
/// takes at most 100 bytes, and every character, wherever it stands, is a
/// letter (small or capital), a digit, `-`, `_` or `.`.
pub proof fn lemma_ascii_name_validity(s: Seq<char>)
    requires
        is_ascii_text(s),
    ensures
        valid_name(s) <==> {
            &&& s.len() > 0
            &&& byte_len(s) <= 100
            &&& forall|i: int|
                0 <= i < s.len() ==> ascii_alphanumeric(#[trigger] s[i]) || s[i] == '-' || s[i] == '_'
                    || s[i] == '.'
        },
{
    assert forall|i: int| 0 <= i < s.len() implies (name_char(#[trigger] s[i]) <==> (ascii_alphanumeric(s[i]) || s[i] == '-' || s[i] == '_' || s[i] == '.')) by {
        assert(is_ascii_char(s[i]));
    }
}

/// Whatever the text, a valid owner is not empty, takes at most 39 bytes
/// and holds no character that is neither a letter or digit nor `-`; a
/// valid name is not empty, takes at most 100 bytes and holds no character
/// that is neither a letter or digit nor `-`, `_` or `.`. An ASCII
/// character other than a letter or digit, such as `/` or a space, is
/// thus never in an owner, and never in a name unless it is `-`, `_` or `.`.
pub proof fn lemma_validity_bounds(s: Seq<char>)
    ensures
        valid_owner(s) ==> s.len() > 0 && byte_len(s) <= 39 && forall|i: int|
            0 <= i < s.len() && is_ascii_char(#[trigger] s[i]) ==> ascii_alphanumeric(s[i]) || s[i] == '-',
        valid_name(s) ==> s.len() > 0 && byte_len(s) <= 100 && forall|i: int|
            0 <= i < s.len() && is_ascii_char(#[trigger] s[i]) ==> ascii_alphanumeric(s[i]) || s[i] == '-'
                || s[i] == '_' || s[i] == '.',
{
    assert forall|i: int| 0 <= i < s.len() && is_ascii_char(#[trigger] s[i]) && valid_owner(s) implies ascii_alphanumeric(s[i]) || s[i] == '-' by {
        assert(owner_char(s[i]));
    }
    assert forall|i: int| 0 <= i < s.len() && is_ascii_char(#[trigger] s[i]) && valid_name(s) implies ascii_alphanumeric(s[i]) || s[i] == '-' || s[i] == '_' || s[i] == '.' by {
        assert(name_char(s[i]));
    }
}

/// The refusal that validating `s` as an owner gives: empty first, then too
/// long (with the length in bytes), then invalid characters (with the text).
pub open spec fn owner_refusal(e: RepoOwnerError, s: Seq<char>) -> bool {
    if s.len() == 0 {
        e is Empty
    } else if byte_len(s) > MAX_OWNER_BYTES {
        e matches RepoOwnerError::TooLong { len } && len == byte_len(s)
    } else {
        e matches RepoOwnerError::InvalidCharacters { owner } && owner@ == s
    }
}

/// The refusal that validating `s` as a repository name gives: empty first,
/// then too long (with the length in bytes), then invalid characters (with the text).
pub open spec fn name_refusal(e: RepoNameError, s: Seq<char>) -> bool {
    if s.len() == 0 {
        e is Empty
    } else if byte_len(s) > MAX_NAME_BYTES {
        e matches RepoNameError::TooLong { len } && len == byte_len(s)
    } else {
        e matches RepoNameError::InvalidCharacters { name } && name@ == s
    }
}

fn check_owner_chars(s: &str) -> (r: bool)
    ensures
        r == all_owner_chars(s@),
        r ==> !s@.contains('/'),
{
    let cs = chars_of(s);
    let mut i: usize = 0;
    while i < cs.len()
        invariant
            cs@ == s@,
            i <= cs.len(),
            forall|j: int| 0 <= j < i ==> #[trigger] owner_char(cs@[j]),
            forall|j: int| 0 <= j < i ==> #[trigger] cs@[j] != '/',
        decreases cs.len() - i,
    {
        let c = cs[i];
        if !(char_is_alphanumeric(c) || c == '-') {
            assert(!owner_char(s@[i as int]));
            return false;
        }
        i += 1;
    }
    true
}

fn check_name_chars(s: &str) -> (r: bool)
    ensures
        r == all_name_chars(s@),
        r ==> !s@.contains('/'),
{
    let cs = chars_of(s);
    let mut i: usize = 0;
    while i < cs.len()
        invariant
            cs@ == s@,
            i <= cs.len(),
            forall|j: int| 0 <= j < i ==> #[trigger] name_char(cs@[j]),
            forall|j: int| 0 <= j < i ==> #[trigger] cs@[j] != '/',
        decreases cs.len() - i,
    {
        let c = cs[i];
        if !(char_is_alphanumeric(c) || c == '-' || c == '_' || c == '.') {
            assert(!name_char(s@[i as int]));
            return false;
        }
        i += 1;
    }
    true
}

/// Repository owner identifier (e.g., "rust-lang"), always valid.
#[derive(Debug, Hash)]
pub struct RepoOwner(String);

impl View for RepoOwner {
    type V = Seq<char>;

    closed spec fn view(&self) -> Seq<char> {
        self.0@
    }
}

impl RepoOwner {
    #[verifier::type_invariant]
    closed spec fn wf(self) -> bool {
        valid_owner(self.0@) && !self.0@.contains('/')
    }

    /// Create a repository owner after validation: empty, then too long
    /// (more than 39 bytes), then a character other than a letter, a digit or
    /// `-`, is refused, in that order.
    pub fn new(owner: &str) -> (r: Result<Self, RepoOwnerError>)
        ensures
            valid_owner(owner@) ==> (r matches Ok(o) && o@ == owner@),
            !valid_owner(owner@) ==> (r matches Err(e) && owner_refusal(e, owner@)),
    {
        if owner.is_empty() {
            return Err(RepoOwnerError::Empty);
        }
        if owner.len() > MAX_OWNER_BYTES {
            return Err(RepoOwnerError::TooLong { len: owner.len() });
        }
        if !check_owner_chars(owner) {
            return Err(RepoOwnerError::InvalidCharacters { owner: owner.to_owned() });
        }
        Ok(RepoOwner(owner.to_owned()))
    }

    /// The owner name.
    pub fn as_str(&self) -> (r: &str)
        ensures
            r@ == self@,
            valid_owner(r@),
            !r@.contains('/'),
    {
        proof {
            use_type_invariant(self);
        }
        self.0.as_str()
    }

    /// The owner name, as an owned string.
    pub fn into_string(self) -> (r: String)
        ensures
            r@ == self@,
            valid_owner(r@),
            !r@.contains('/'),
    {
        proof {
            use_type_invariant(&self);
        }
        self.0
    }
}

impl PartialEq for RepoOwner {
    fn eq(&self, other: &Self) -> (r: bool) {
        self.0 == other.0
    }
}

impl vstd::std_specs::cmp::PartialEqSpecImpl for RepoOwner {
    open spec fn obeys_eq_spec() -> bool {
        true
    }

    open spec fn eq_spec(&self, other: &Self) -> bool {
        self@ == other@
    }
}

impl Eq for RepoOwner {
}

impl AsRef<str> for RepoOwner {
    fn as_ref(&self) -> (r: &str)
        ensures
            r@ == self@,
    {
        self.0.as_str()
    }
}

impl Clone for RepoOwner {
    fn clone(&self) -> (r: Self)
        ensures
            r@ == self@,
    {
        proof {
            use_type_invariant(self);
        }
        RepoOwner(self.0.clone())
    }
}

/// Repository name identifier (e.g., "rust"), always valid.
#[derive(Debug, Hash)]
pub struct RepoName(String);

impl View for RepoName {
    type V = Seq<char>;

    closed spec fn view(&self) -> Seq<char> {
        self.0@
    }
}

impl RepoName {
    #[verifier::type_invariant]
    closed spec fn wf(self) -> bool {
        valid_name(self.0@) && !self.0@.contains('/')
    }

    /// Create a repository name after validation: empty, then too long
    /// (more than 100 bytes), then a character other than a letter, a digit,
    /// `-`, `_` or `.`, is refused, in that order.
    pub fn new(name: &str) -> (r: Result<Self, RepoNameError>)
        ensures
            valid_name(name@) ==> (r matches Ok(n) && n@ == name@),
            !valid_name(name@) ==> (r matches Err(e) && name_refusal(e, name@)),
    {
        if name.is_empty() {
            return Err(RepoNameError::Empty);
        }
        if name.len() > MAX_NAME_BYTES {
            return Err(RepoNameError::TooLong { len: name.len() });
        }
        if !check_name_chars(name) {
            return Err(RepoNameError::InvalidCharacters { name: name.to_owned() });
        }
        Ok(RepoName(name.to_owned()))
    }

    /// The repository name.
    pub fn as_str(&self) -> (r: &str)
        ensures
            r@ == self@,
            valid_name(r@),
            !r@.contains('/'),
    {
        proof {
            use_type_invariant(self);
        }
        self.0.as_str()
    }

    /// The repository name, as an owned string.
    pub fn into_string(self) -> (r: String)
        ensures
            r@ == self@,
            valid_name(r@),
            !r@.contains('/'),
    {
        proof {
            use_type_invariant(&self);
        }
        self.0
    }
}

impl PartialEq for RepoName {
    fn eq(&self, other: &Self) -> (r: bool) {
        self.0 == other.0
    }
}

impl vstd::std_specs::cmp::PartialEqSpecImpl for RepoName {
    open spec fn obeys_eq_spec() -> bool {
        true
    }

    open spec fn eq_spec(&self, other: &Self) -> bool {
        self@ == other@
    }
}

impl Eq for RepoName {
}

impl AsRef<str> for RepoName {
    fn as_ref(&self) -> (r: &str)
        ensures
            r@ == self@,
    {
        self.0.as_str()
    }
}

impl Clone for RepoName {
    fn clone(&self) -> (r: Self)
        ensures
            r@ == self@,
    {
        proof {
            use_type_invariant(self);
        }
        RepoName(self.0.clone())
    }
}

/// File size in bytes.
#[derive(Debug, Clone, Copy, PartialEq, Eq, Structural, Hash)]
pub struct FileSizeBytes(u64);

impl View for FileSizeBytes {
    type V = u64;

    closed spec fn view(&self) -> u64 {
        self.0
    }
}

impl FileSizeBytes {
    /// A file size of `bytes` bytes.
    pub fn new(bytes: u64) -> (r: Self)
        ensures
            r@ == bytes,
    {
        FileSizeBytes(bytes)
    }

    /// The size in bytes.
    pub fn bytes(&self) -> (r: u64)
        ensures
            r == self@,
    {
        self.0
    }

    /// The size as people read it, such as `512 B` or `1.2 MB` (see
    /// [`size_text`]).
    pub fn human_readable(&self) -> (r: String)
        ensures
            r@ == size_text(self@ as nat),
    {
        size_text_exec(self.0)
    }
}

/// File name with semantic meaning.
#[derive(Debug, Hash)]
pub struct FileName(String);

impl View for FileName {
    type V = Seq<char>;

    closed spec fn view(&self) -> Seq<char> {
        self.0@
    }
}

impl FileName {
    /// A file name holding `name`.
    pub fn new(name: String) -> (r: Self)
        ensures
            r@ == name@,
    {
        FileName(name)
    }

    /// The file name.
    pub fn as_str(&self) -> (r: &str)
        ensures
            r@ == self@,
    {
        self.0.as_str()
    }

    /// The file name, as an owned string.
    pub fn into_string(self) -> (r: String)
        ensures
            r@ == self@,
    {
        self.0
    }
}

impl From<String> for FileName {
    fn from(name: String) -> (r: Self)
        ensures
            r@ == name@,
    {
        FileName(name)
    }
}

impl vstd::std_specs::convert::FromSpecImpl<String> for FileName {
    open spec fn obeys_from_spec() -> bool {
        true
    }

    closed spec fn from_spec(v: String) -> Self {
        FileName(v)
    }
}

impl PartialEq for FileName {
    fn eq(&self, other: &Self) -> (r: bool) {
        self.0 == other.0
    }
}

impl vstd::std_specs::cmp::PartialEqSpecImpl for FileName {
    open spec fn obeys_eq_spec() -> bool {
        true
    }

    open spec fn eq_spec(&self, other: &Self) -> bool {
        self@ == other@
    }
}

impl Eq for FileName {
}

impl Clone for FileName {
    fn clone(&self) -> (r: Self)
        ensures
            r@ == self@,
    {
        FileName(self.0.clone())
    }
}

/// A path within a repository or on disk, held as its text.
#[derive(Debug, Hash)]
pub struct FilePath(String);

impl View for FilePath {
    type V = Seq<char>;

    closed spec fn view(&self) -> Seq<char> {
        self.0@
    }
}

impl FilePath {
    /// A path holding `path`.
    pub fn new(path: String) -> (r: Self)
        ensures
            r@ == path@,
    {
        FilePath(path)
    }

    /// The path's text.
    pub fn as_path(&self) -> (r: &str)
        ensures
            r@ == self@,
    {
        self.0.as_str()
    }

    /// The path's text, as an owned string.
    pub fn into_path_buf(self) -> (r: String)
        ensures
            r@ == self@,
    {
        self.0
    }

    /// The path's text, copied.
    pub fn as_string_lossy(&self) -> (r: String)
        ensures
            r@ == self@,
    {
        self.0.clone()
    }
}

impl From<String> for FilePath {
    fn from(v: String) -> (r: Self)
        ensures
            r@ == v@,
    {
        FilePath(v)
    }
}

impl vstd::std_specs::convert::FromSpecImpl<String> for FilePath {
    open spec fn obeys_from_spec() -> bool {
        true
    }

    closed spec fn from_spec(v: String) -> Self {
        FilePath(v)
    }
}

impl PartialEq for FilePath {
    fn eq(&self, other: &Self) -> (r: bool) {
        self.0 == other.0
    }
}

impl vstd::std_specs::cmp::PartialEqSpecImpl for FilePath {
    open spec fn obeys_eq_spec() -> bool {
        true
    }

    open spec fn eq_spec(&self, other: &Self) -> bool {
        self@ == other@
    }
}

impl Eq for FilePath {
}

impl Clone for FilePath {
    fn clone(&self) -> (r: Self)
        ensures
            r@ == self@,
    {
        FilePath(self.0.clone())
    }
}

/// A URL, held as its serialization.
#[derive(Debug, Hash)]
pub struct DownloadUrl(String);

impl View for DownloadUrl {
    type V = Seq<char>;

    closed spec fn view(&self) -> Seq<char> {
        self.0@
    }
}

impl DownloadUrl {
    /// Parse a download URL; it fails exactly where `url::Url::parse` fails,
    /// and holds the serialization that the parser gives.
    pub fn parse(url: &str) -> (r: Result<Self, url::ParseError>)
        ensures
            r is Ok == url_parses(url@),
            r matches Ok(d) ==> d@ == url_serialization(url@),
    {
        match parse_url(url) {
            Ok(p) => Ok(DownloadUrl(p.serialization)),
            Err(e) => Err(e),
        }
    }

    /// The URL's serialization.
    pub fn as_str(&self) -> (r: &str)
        ensures
            r@ == self@,
    {
        self.0.as_str()
    }
}

impl PartialEq for DownloadUrl {
    fn eq(&self, other: &Self) -> (r: bool) {
        self.0 == other.0
    }
}

impl vstd::std_specs::cmp::PartialEqSpecImpl for DownloadUrl {
    open spec fn obeys_eq_spec() -> bool {
        true
    }

    open spec fn eq_spec(&self, other: &Self) -> bool {
        self@ == other@
    }
}

impl Eq for DownloadUrl {
}

impl Clone for DownloadUrl {
    fn clone(&self) -> (r: Self)
        ensures
            r@ == self@,
    {
        DownloadUrl(self.0.clone())
    }
}

impl From<u64> for FileSizeBytes {
    fn from(v: u64) -> (r: Self)
        ensures
            r@ == v,
    {
        FileSizeBytes(v)
    }
}

impl vstd::std_specs::convert::FromSpecImpl<u64> for FileSizeBytes {
    open spec fn obeys_from_spec() -> bool {
        true
    }

    closed spec fn from_spec(v: u64) -> Self {
        FileSizeBytes(v)
    }
}

/// Documentation directory path.
#[derive(Debug, Hash)]
pub struct DocsDirectory(String);

impl View for DocsDirectory {
    type V = Seq<char>;

    closed spec fn view(&self) -> Seq<char> {
        self.0@
    }
}

impl DocsDirectory {
    /// A documentation directory at `path`.
    pub fn new(path: String) -> (r: Self)
        ensures
            r@ == path@,
    {
        DocsDirectory(path)
    }

    /// The directory path.
    pub fn as_str(&self) -> (r: &str)
        ensures
            r@ == self@,
    {
        self.0.as_str()
    }

    /// The directory path, as an owned string.
    pub fn into_string(self) -> (r: String)
        ensures
            r@ == self@,
    {
        self.0
    }
}

impl From<String> for DocsDirectory {
    fn from(v: String) -> (r: Self)
        ensures
            r@ == v@,
    {
        DocsDirectory(v)
    }
}

impl vstd::std_specs::convert::FromSpecImpl<String> for DocsDirectory {
    open spec fn obeys_from_spec() -> bool {
        true
    }

    closed spec fn from_spec(v: String) -> Self {
        DocsDirectory(v)
    }
}

impl PartialEq for DocsDirectory {
    fn eq(&self, other: &Self) -> (r: bool) {
        self.0 == other.0
    }
}

impl vstd::std_specs::cmp::PartialEqSpecImpl for DocsDirectory {
    open spec fn obeys_eq_spec() -> bool {
        true
    }

    open spec fn eq_spec(&self, other: &Self) -> bool {
        self@ == other@
    }
}

impl Eq for DocsDirectory {
}

impl AsRef<str> for DocsDirectory {
    fn as_ref(&self) -> (r: &str)
        ensures
            r@ == self@,
    {
        self.0.as_str()
    }
}

impl Clone for DocsDirectory {
    fn clone(&self) -> (r: Self)
        ensures
            r@ == self@,
    {
        DocsDirectory(self.0.clone())
    }
}

/// Documentation file with complete metadata.
#[derive(Debug)]
pub struct DocumentationFile {
    /// Name of the documentation file
    pub name: FileName,
    /// Path to the file within the repository
    pub path: FilePath,
    /// URL for downloading the file content
    pub download_url: DownloadUrl,
    /// Size of the file in bytes
    pub size: FileSizeBytes,
    /// Documentation directory this file belongs to
    pub docs_directory: DocsDirectory,
}

impl PartialEq for DocumentationFile {
    fn eq(&self, other: &Self) -> (r: bool) {
        self.name == other.name && self.path == other.path && self.download_url
            == other.download_url && self.size == other.size && self.docs_directory
            == other.docs_directory
    }
}

impl vstd::std_specs::cmp::PartialEqSpecImpl for DocumentationFile {
    open spec fn obeys_eq_spec() -> bool {
        true
    }

    open spec fn eq_spec(&self, other: &Self) -> bool {
        &&& self.name@ == other.name@
        &&& self.path@ == other.path@
        &&& self.download_url@ == other.download_url@
        &&& self.size@ == other.size@
        &&& self.docs_directory@ == other.docs_directory@
    }
}

impl Eq for DocumentationFile {
}

impl Clone for DocumentationFile {
    fn clone(&self) -> (r: Self)
        ensures
            r.name@ == self.name@,
            r.path@ == self.path@,
            r.download_url@ == self.download_url@,
            r.size@ == self.size@,
            r.docs_directory@ == self.docs_directory@,
    {
        DocumentationFile {
            name: self.name.clone(),
            path: self.path.clone(),
            download_url: self.download_url.clone(),
            size: self.size,
            docs_directory: self.docs_directory.clone(),
        }
    }
}

/// Repository specification combining owner and name.
#[derive(Debug, Hash)]
pub struct RepoSpec {
    /// Repository owner (user or organization)
    pub owner: RepoOwner,
    /// Repository name
    pub name: RepoName,
}

impl RepoSpec {
    /// A repository specification of `owner` and `name`.
    pub fn new(owner: RepoOwner, name: RepoName) -> (r: Self)
        ensures
            r.owner@ == owner@,
            r.name@ == name@,
    {
        RepoSpec { owner, name }
    }

    /// The full repository identifier, `owner/name`: its only `/` stands
    /// between the owner and the name, so splitting it at `/` gives them back.
    pub fn full_name(&self) -> (r: String)
        ensures
            r@ == self.owner@ + "/"@ + self.name@,
            r@[self.owner@.len() as int] == '/',
            forall|i: int| 0 <= i < r@.len() && r@[i] == '/' ==> i == self.owner@.len(),
    {
        let owner = self.owner.as_str();
        let name = self.name.as_str();
        let mut s = String::from_str(owner);
        s.append("/");
        s.append(name);
        proof {
            reveal_strlit("/");
            let o = owner@;
            let n = name@;
            assert forall|i: int| 0 <= i < s@.len() && s@[i] == '/' implies i == o.len() by {
                if i < o.len() {
                    assert(s@[i] == o[i]);
                    assert(o.contains(o[i]));
                } else if i > o.len() {
                    assert(s@[i] == n[i - o.len() - 1]);
                    assert(n.contains(n[i - o.len() - 1]));
                }
            }
        }
        s
    }
}

impl PartialEq for RepoSpec {
    fn eq(&self, other: &Self) -> (r: bool) {
        self.owner == other.owner && self.name == other.name
    }
}

impl vstd::std_specs::cmp::PartialEqSpecImpl for RepoSpec {
    open spec fn obeys_eq_spec() -> bool {
        true
    }

    open spec fn eq_spec(&self, other: &Self) -> bool {
        self.owner@ == other.owner@ && self.name@ == other.name@
    }
}

impl Eq for RepoSpec {
}

impl Clone for RepoSpec {
    fn clone(&self) -> (r: Self)
        ensures
            r.owner@ == self.owner@,
            r.name@ == self.name@,
    {
        RepoSpec { owner: self.owner.clone(), name: self.name.clone() }
    }
}

} // verus!
