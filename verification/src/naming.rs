//! Where a downloaded sticker is stored: the name of its file and the path
//! of that file below the output directory.
//!
//! The layout is `<output>/<set title>/<emoji name>_<file id>.<extension>`.
//! Every part is a function of the sticker and of the title of its set, so the
//! same sticker always lands in the same place.

use vstd::prelude::*;
use crate::bot::Sticker;
use crate::bot::StickerView;

verus! {

/// The CLDR name that the emoji table gives for a glyph, or `None` where the
/// table has no entry for it.
pub uninterp spec fn emoji_cldr_name(glyph: Seq<char>) -> Option<Seq<char>>;

/// Looks a glyph up in the table of the `emojis` crate (`emojis::get`) and
/// returns the CLDR name of the entry (`Emoji::name`).
///
/// The table is a constant of that crate, so the answer depends on the glyph
/// alone; the contract gives that answer a name and claims nothing else of it.
#[verifier::external_body]
fn lookup_emoji_name(glyph: &str) -> (name: Option<&'static str>)
    ensures
        match name {
            Some(n) => emoji_cldr_name(glyph@) == Some(n@),
            None => emoji_cldr_name(glyph@) is None,
        },
{
    emojis::get(glyph).map(|e| e.name())
}

/// The name that stands for an emoji in a file name: the looked-up name, or
/// a fixed placeholder where the lookup found nothing.
pub open spec fn name_or_placeholder(lookup: Option<Seq<char>>) -> Seq<char> {
    match lookup {
        Some(name) => name,
        None => "emoji_missing"@,
    }
}

/// The file name built from its three parts: `<name>_<file id>.<extension>`.
pub open spec fn file_name(name: Seq<char>, file_id: Seq<char>, ext: Seq<char>) -> Seq<char> {
    name + "_"@ + file_id + "."@ + ext
}

/// The name of the file that a sticker is stored in.
pub open spec fn sticker_file_name(sticker: StickerView) -> Seq<char>
    recommends
        sticker.has_valid_media(),
{
    file_name(
        name_or_placeholder(emoji_cldr_name(sticker.emoji)),
        sticker.file_id,
        sticker.file_ext(),
    )
}

/// Joins a path and one more component with a single `/` between them. An
/// empty base adds nothing, and a base that already ends in `/` gets no
/// second one.
pub open spec fn join_path(base: Seq<char>, component: Seq<char>) -> Seq<char> {
    if base.len() == 0 {
        component
    } else if base.last() == '/' {
        base + component
    } else {
        base + "/"@ + component
    }
}

/// The directory that holds the files of one set.
pub open spec fn collection_directory(output_dir: Seq<char>, title: Seq<char>) -> Seq<char> {
    join_path(output_dir, title)
}

/// The full path of the file that a sticker of the set `title` is stored in.
pub open spec fn destination_path(
    output_dir: Seq<char>,
    title: Seq<char>,
    sticker: StickerView,
) -> Seq<char>
    recommends
        sticker.has_valid_media(),
{
    join_path(collection_directory(output_dir, title), sticker_file_name(sticker))
}

/// Builds a file name from the result of an emoji lookup, a file identifier
/// and an extension.
pub fn file_name_from_lookup(lookup: Option<&str>, file_id: &str, ext: &str) -> (name: String)
    ensures
        name@ == file_name(
            name_or_placeholder(
                match lookup {
                    Some(n) => Some(n@),
                    None => None,
                },
            ),
            file_id@,
            ext@,
        ),
{
    let mut name = match lookup {
        Some(n) => String::from_str(n),
        None => String::from_str("emoji_missing"),
    };
    name.append("_");
    name.append(file_id);
    name.append(".");
    name.append(ext);
    name
}

/// The name of the file that `sticker` is stored in:
/// `<emoji name>_<file id>.<extension>`, with `emoji_missing` in place of the
/// name of an emoji that the table does not know.
pub fn convert_sticker_to_filename(sticker: &Sticker) -> (name: String)
    requires
        sticker@.has_valid_media(),
    ensures
        name@ == sticker_file_name(sticker@),
{
    let lookup = lookup_emoji_name(sticker.emoji.as_str());
    file_name_from_lookup(lookup, sticker.file_id.as_str(), sticker.file_ext())
}

/// Joins `base` and `component` as [`join_path`] says.
pub fn path_join(base: &str, component: &str) -> (path: String)
    ensures
        path@ == join_path(base@, component@),
{
    let len = base.unicode_len();
    if len == 0 {
        return String::from_str(component);
    }
    let mut path = String::from_str(base);
    if base.get_char(len - 1) != '/' {
        path.append("/");
    }
    path.append(component);
    path
}

/// Where one sticker is stored: the directory of its set, which has to exist
/// before the file is written, and the path of the file itself.
#[derive(Debug)]
pub struct Destination {
    pub directory: String,
    pub path: String,
}

/// The content of a [`Destination`].
pub struct DestinationView {
    pub directory: Seq<char>,
    pub path: Seq<char>,
}

impl View for Destination {
    type V = DestinationView;

    open spec fn view(&self) -> DestinationView {
        DestinationView { directory: self.directory@, path: self.path@ }
    }
}

/// The destination of a sticker of the set `title` below `output_dir`.
pub open spec fn destination_of(
    output_dir: Seq<char>,
    title: Seq<char>,
    sticker: StickerView,
) -> DestinationView
    recommends
        sticker.has_valid_media(),
{
    DestinationView {
        directory: collection_directory(output_dir, title),
        path: destination_path(output_dir, title, sticker),
    }
}

/// Computes where `sticker`, a member of the set `title`, is stored below
/// `output_dir`.
pub fn destination_for(output_dir: &str, title: &str, sticker: &Sticker) -> (dest: Destination)
    requires
        sticker@.has_valid_media(),
    ensures
        dest@ == destination_of(output_dir@, title@, sticker@),
{
    let directory = path_join(output_dir, title);
    let file = convert_sticker_to_filename(sticker);
    let path = path_join(directory.as_str(), file.as_str());
    Destination { directory, path }
}

/// Naming is deterministic: the destination of a sticker depends on nothing
/// but the output directory, the title of its set, and its emoji, file
/// identifier and media flags. Two stickers that agree in these have the same
/// destination, whenever and wherever it is computed.
pub proof fn lemma_destination_is_deterministic(
    output_dir: Seq<char>,
    title: Seq<char>,
    a: StickerView,
    b: StickerView,
)
    requires
        a.emoji == b.emoji,
        a.file_id == b.file_id,
        a.is_animated == b.is_animated,
        a.is_video == b.is_video,
    ensures
        sticker_file_name(a) == sticker_file_name(b),
        destination_of(output_dir, title, a) == destination_of(output_dir, title, b),
{
}

/// With the same emoji name and the same extension, different file
/// identifiers give different file names: two such stickers of one set are
/// never stored in the same file.
pub proof fn lemma_file_ids_tell_files_apart(
    name: Seq<char>,
    id_a: Seq<char>,
    id_b: Seq<char>,
    ext: Seq<char>,
)
    requires
        file_name(name, id_a, ext) == file_name(name, id_b, ext),
    ensures
        id_a == id_b,
{
    reveal_strlit("_");
    reveal_strlit(".");
    let a = file_name(name, id_a, ext);
    let b = file_name(name, id_b, ext);
    assert(a.len() == name.len() + 1 + id_a.len() + 1 + ext.len());
    assert(b.len() == name.len() + 1 + id_b.len() + 1 + ext.len());
    assert forall|i: int| 0 <= i < id_a.len() implies id_a[i] == id_b[i] by {
        assert(a[name.len() + 1 + i] == id_a[i]);
        assert(b[name.len() + 1 + i] == id_b[i]);
    }
    assert(id_a =~= id_b);
}

} // verus!
