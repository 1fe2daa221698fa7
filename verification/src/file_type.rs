//! Telling a Markdown document from an image by the file name's extension.

use crate::text::same_text;
use std::path::Path;
use vstd::prelude::*;

verus! {

/// The kinds of file that can be worked on.
#[derive(Debug, PartialEq, Eq, Clone, Copy, Structural)]
pub enum FileType {
    /// A Markdown document, whose image links are rewritten.
    Markdown,
    /// A single image, which is uploaded as it is.
    Image,
    /// Anything else.
    Unknown,
}

/// The extension that `std::path::Path::extension` finds in a path, as
/// text; the path is read as the platform that the library is built for
/// reads paths.
pub uninterp spec fn path_extension(path: Seq<char>) -> Option<Seq<char>>;

/// The kind of file that an extension stands for. Letter case counts.
pub open spec fn kind_of_extension(ext: Option<Seq<char>>) -> FileType {
    match ext {
        Some(e) => if e == "md"@ {
            FileType::Markdown
        } else if e == "jpeg"@ || e == "jpg"@ || e == "png"@ || e == "gif"@ {
            FileType::Image
        } else {
            FileType::Unknown
        },
        None => FileType::Unknown,
    }
}

/// `std::path::Path::extension` on the path made of `path` by `Path::new`:
/// the part of the file name behind its last dot, if the path has a file
/// name with a dot that is not its first character. Trusted: the result is
/// the extension by name, nothing is claimed of where it lies in the path.
#[verifier::external_body]
fn extension_of(path: &str) -> (ext: Option<&str>)
    ensures
        match ext {
            Some(e) => path_extension(path@) == Some(e@),
            None => path_extension(path@) is None,
        },
{
    Path::new(path).extension().and_then(|e| e.to_str())
}

/// The kind of file that the extension `ext` stands for.
pub fn classify_extension(ext: Option<&str>) -> (kind: FileType)
    ensures
        kind == kind_of_extension(
            match ext {
                Some(e) => Some(e@),
                None => None,
            },
        ),
{
    match ext {
        Some(e) => {
            if same_text(e, "md") {
                FileType::Markdown
            } else if same_text(e, "jpeg") || same_text(e, "jpg") || same_text(e, "png")
                || same_text(e, "gif") {
                FileType::Image
            } else {
                FileType::Unknown
            }
        },
        None => FileType::Unknown,
    }
}

/// The kind of the file at `path`, by its extension alone.
pub fn file_type(path: &str) -> (kind: FileType)
    ensures
        kind == kind_of_extension(path_extension(path@)),
{
    classify_extension(extension_of(path))
}

/// The kind of a file depends on its path through the extension alone: two
/// paths with the same extension are of the same kind.
pub proof fn lemma_kind_follows_extension(p: Seq<char>, q: Seq<char>)
    requires
        path_extension(p) == path_extension(q),
    ensures
        kind_of_extension(path_extension(p)) == kind_of_extension(path_extension(q)),
{
}

/// The file to work on, and its kind.
#[derive(Debug, Clone, Eq, PartialEq)]
pub struct TargetFile {
    /// Where the file is.
    pub file_path: String,
    /// Markdown document or image.
    pub file_type: FileType,
}

impl TargetFile {
    /// The target at `file_path`, classified by its extension.
    pub fn new(file_path: &str) -> (target: TargetFile)
        ensures
            target.file_path@ == file_path@,
            target.file_type == kind_of_extension(path_extension(file_path@)),
    {
        TargetFile { file_path: file_path.to_owned(), file_type: file_type(file_path) }
    }
}

} // verus!
