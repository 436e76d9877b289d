//! The layout under the base directory: the name of the index file, of an
//! instance's directory and of its cover image.
//!
//! The library hands out names, never paths: the caller joins them to the
//! base directory it was configured with.

use crate::ident::{canonical_text, hyphenated};
use std::path::PathBuf;
use vstd::prelude::*;

verus! {

/// `std::path::PathBuf`, carried through as it is: nothing in the library
/// looks inside a path.
#[verifier::external_type_specification]
#[verifier::external_body]
pub struct ExPathBuf(std::path::PathBuf);

/// The name of the image file for a source with the given extension.
pub open spec fn image_name(extension: Seq<char>) -> Seq<char> {
    "instance."@ + extension
}

/// The name of the index file.
pub fn index_file_name() -> (name: String)
    ensures
        name@ == "instances.index.json"@,
{
    String::from_str("instances.index.json")
}

/// The name of an instance's directory: its identifier in canonical form.
pub fn instance_dir_name(id: u128) -> (name: String)
    ensures
        name@ == canonical_text(id),
{
    hyphenated(id)
}

/// The name under which an image is kept in its instance's directory:
/// `instance.` and the extension of the source.
pub fn image_file_name(extension: &str) -> (name: String)
    ensures
        name@ == image_name(extension@),
{
    let mut name = String::from_str("instance.");
    name.append(extension);
    name
}

/// Reads the extension of a path with `std::path::Path::extension` and
/// turns it into text.
///
/// Trusted: how a path splits into components depends on the platform, so
/// the result has no name. What is claimed holds on every platform: an
/// extension is what follows the last dot of the file name, so it holds no
/// dot itself. The result is `None` where the path has no extension and
/// where the extension is not valid Unicode.
#[verifier::external_body]
pub(crate) fn extension_of(path: &PathBuf) -> (extension: Option<String>)
    ensures
        extension matches Some(e) ==> !e@.contains('.'),
{
    path.extension().and_then(|e| e.to_str()).map(|e| e.to_owned())
}

/// An image to attach to an instance.
#[derive(Debug, PartialEq, Eq)]
pub struct Image {
    /// Where the image lies.
    pub source: PathBuf,
    /// The extension that the source's file name ends in, if it has one
    /// that is text.
    pub extension: Option<String>,
}

/// An [`Image`] as a mathematical value.
pub struct ImageView {
    pub source: PathBuf,
    pub extension: Option<Seq<char>>,
}

impl View for Image {
    type V = ImageView;

    open spec fn view(&self) -> ImageView {
        ImageView {
            source: self.source,
            extension: match self.extension {
                Some(e) => Some(e@),
                None => None,
            },
        }
    }
}

impl Image {
    /// The image at `source`, with the extension read off the path.
    pub fn at(source: PathBuf) -> (image: Image)
        ensures
            image@.source == source,
            image@.extension matches Some(e) ==> !e.contains('.'),
    {
        let extension = extension_of(&source);
        Image { source, extension }
    }

    /// The name of the copy inside the instance's directory, or
    /// `InvalidInput` for a source without a usable extension.
    pub fn file_name(&self) -> (name: Result<String, crate::error::Error>)
        ensures
            match self@.extension {
                Some(e) => name is Ok && name->Ok_0@ == image_name(e),
                None => name == Err::<String, crate::error::Error>(crate::error::Error::InvalidInput),
            },
    {
        match &self.extension {
            Some(e) => Ok(image_file_name(e.as_str())),
            None => Err(crate::error::Error::InvalidInput),
        }
    }
}

} // verus!
