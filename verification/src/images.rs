//! The images that the site takes over from the Rust website.

use vstd::prelude::*;
use crate::text::join;

verus! {

/// Where the images are fetched from.
pub open spec fn image_root() -> Seq<char> {
    "https://raw.githubusercontent.com/rust-lang/www.rust-lang.org/master/static/images/"@
}

/// The names of the image files.
pub open spec fn image_names() -> Seq<Seq<char>> {
    seq![
        "apple-touch-icon.png"@,
        "favicon-16x16.png"@,
        "favicon-32x32.png"@,
        "favicon.svg"@,
        "favicon.ico"@,
    ]
}

/// The names of the image files to fetch, which are also the names under
/// which they are stored.
pub fn image_files() -> (files: Vec<&'static str>)
    ensures
        files@.len() == image_names().len(),
        forall|i: int| 0 <= i < files@.len() ==> (#[trigger] files@[i])@ == image_names()[i],
{
    let mut files: Vec<&'static str> = Vec::new();
    files.push("apple-touch-icon.png");
    files.push("favicon-16x16.png");
    files.push("favicon-32x32.png");
    files.push("favicon.svg");
    files.push("favicon.ico");
    files
}

/// The address from which the image file `file` is fetched.
pub fn image_url(file: &str) -> (url: String)
    ensures
        url@ == image_root() + file@,
{
    join(
        "https://raw.githubusercontent.com/rust-lang/www.rust-lang.org/master/static/images/",
        file,
    )
}

} // verus!
