//! The artifact files of image items: where the original bytes and the
//! thumbnail of a content hash lie, and which files belong to a hash.

use crate::text::{chars_of, has_prefix};
use vstd::prelude::*;

verus! {

/// The path of the thumbnail of a hash: `<data_dir>/images/thumbs/<hash>.png`.
pub open spec fn thumbnail_path_of(data_dir: Seq<char>, hash: Seq<char>) -> Seq<char> {
    data_dir + "/images/thumbs/"@ + hash + ".png"@
}

/// The path of the original of a hash:
/// `<data_dir>/images/originals/<hash>.<ext>`.
pub open spec fn original_path_of(data_dir: Seq<char>, hash: Seq<char>, ext: Seq<char>) -> Seq<
    char,
> {
    data_dir + "/images/originals/"@ + hash + "."@ + ext
}

/// The directory of the thumbnails: `<data_dir>/images/thumbs`.
pub open spec fn thumbs_dir_of(data_dir: Seq<char>) -> Seq<char> {
    data_dir + "/images/thumbs"@
}

/// The directory of the originals: `<data_dir>/images/originals`.
pub open spec fn originals_dir_of(data_dir: Seq<char>) -> Seq<char> {
    data_dir + "/images/originals"@
}

/// Whether a file name in the directory of the originals is the original of
/// a hash, whatever its extension: it starts with the hash and a dot.
pub open spec fn is_original_name(name: Seq<char>, hash: Seq<char>) -> bool {
    (hash + "."@).is_prefix_of(name)
}

/// The path of the thumbnail of `hash` under `data_dir`.
pub fn thumbnail_path(data_dir: &str, hash: &str) -> (path: String)
    ensures
        path@ == thumbnail_path_of(data_dir@, hash@),
{
    let mut path = data_dir.to_owned();
    path.append("/images/thumbs/");
    path.append(hash);
    path.append(".png");
    path
}

/// The path of the original of `hash` with extension `ext` under `data_dir`.
pub fn original_path(data_dir: &str, hash: &str, ext: &str) -> (path: String)
    ensures
        path@ == original_path_of(data_dir@, hash@, ext@),
{
    let mut path = data_dir.to_owned();
    path.append("/images/originals/");
    path.append(hash);
    path.append(".");
    path.append(ext);
    path
}

/// The directory of the thumbnails under `data_dir`.
pub fn thumbs_dir(data_dir: &str) -> (path: String)
    ensures
        path@ == thumbs_dir_of(data_dir@),
{
    let mut path = data_dir.to_owned();
    path.append("/images/thumbs");
    path
}

/// The directory of the originals under `data_dir`.
pub fn originals_dir(data_dir: &str) -> (path: String)
    ensures
        path@ == originals_dir_of(data_dir@),
{
    let mut path = data_dir.to_owned();
    path.append("/images/originals");
    path
}

/// Whether the file called `name` in the directory of the originals is to
/// be removed with `hash`.
pub fn is_original_of(name: &str, hash: &str) -> (yes: bool)
    ensures
        yes == is_original_name(name@, hash@),
{
    let mut stem = hash.to_owned();
    stem.append(".");
    let stem_chars = chars_of(stem.as_str());
    let name_chars = chars_of(name);
    has_prefix(&name_chars, &stem_chars)
}

} // verus!
