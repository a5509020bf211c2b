//! The data model: what the remote API says of a bot, of a sticker set and of
//! each sticker in it.
//!
//! Every type has a view that holds its content as mathematical values. Two
//! values with the same view are the same description, wherever they were
//! built.

use vstd::prelude::*;

verus! {

/// Anything that the remote file service stores under a file identifier.
///
/// The resolver and the workers ask only for the identifier and the size, so
/// a sticker and its thumbnail are resolved and fetched in the same way.
pub trait TelegramFile: Sync + Send {
    /// The identifier, as a sequence of characters.
    spec fn spec_file_id(&self) -> Seq<char>;

    /// The size in bytes that the service reports.
    spec fn spec_file_size(&self) -> u64;

    /// The stable identifier under which the service stores the file.
    fn file_id(&self) -> (id: &str)
        ensures
            id@ == self.spec_file_id(),
    ;

    /// The size of the file in bytes.
    fn file_size(&self) -> (size: u64)
        ensures
            size == self.spec_file_size(),
    ;
}

/// The identity of the bot that a session is logged in as.
#[derive(Debug)]
pub struct BotInfo {
    pub id: i64,
    pub first_name: String,
    pub username: String,
}

/// The content of a [`BotInfo`].
pub struct BotInfoView {
    pub id: i64,
    pub first_name: Seq<char>,
    pub username: Seq<char>,
}

impl View for BotInfo {
    type V = BotInfoView;

    open spec fn view(&self) -> BotInfoView {
        BotInfoView {
            id: self.id,
            first_name: self.first_name@,
            username: self.username@,
        }
    }
}

/// A preview image of a sticker.
#[derive(Debug)]
pub struct ThumbFile {
    file_id: String,
    file_unique_id: String,
    file_size: u64,
    width: u32,
    height: u32,
}

/// The content of a [`ThumbFile`].
pub struct ThumbFileView {
    pub file_id: Seq<char>,
    pub file_unique_id: Seq<char>,
    pub file_size: u64,
    pub width: u32,
    pub height: u32,
}

impl View for ThumbFile {
    type V = ThumbFileView;

    closed spec fn view(&self) -> ThumbFileView {
        ThumbFileView {
            file_id: self.file_id@,
            file_unique_id: self.file_unique_id@,
            file_size: self.file_size,
            width: self.width,
            height: self.height,
        }
    }
}

impl ThumbFile {
    pub fn new(
        file_id: String,
        file_unique_id: String,
        file_size: u64,
        width: u32,
        height: u32,
    ) -> (thumb: ThumbFile)
        ensures
            thumb@ == (ThumbFileView {
                file_id: file_id@,
                file_unique_id: file_unique_id@,
                file_size,
                width,
                height,
            }),
    {
        ThumbFile { file_id, file_unique_id, file_size, width, height }
    }

    /// The identifier that stays the same over time and across bots.
    pub fn file_unique_id(&self) -> (id: &str)
        ensures
            id@ == self@.file_unique_id,
    {
        self.file_unique_id.as_str()
    }

    pub fn width(&self) -> (width: u32)
        ensures
            width == self@.width,
    {
        self.width
    }

    pub fn height(&self) -> (height: u32)
        ensures
            height == self@.height,
    {
        self.height
    }
}

impl TelegramFile for ThumbFile {
    open spec fn spec_file_id(&self) -> Seq<char> {
        self@.file_id
    }

    open spec fn spec_file_size(&self) -> u64 {
        self@.file_size
    }

    fn file_id(&self) -> (id: &str) {
        self.file_id.as_str()
    }

    fn file_size(&self) -> (size: u64) {
        self.file_size
    }
}

impl Clone for ThumbFile {
    fn clone(&self) -> (copy: ThumbFile)
        ensures
            copy@ == self@,
    {
        ThumbFile {
            file_id: self.file_id.clone(),
            file_unique_id: self.file_unique_id.clone(),
            file_size: self.file_size,
            width: self.width,
            height: self.height,
        }
    }
}

/// One sticker of a set: its emoji, its media flags and where the remote
/// service keeps it.
#[derive(Debug)]
pub struct Sticker {
    pub width: u32,
    pub height: u32,
    pub emoji: String,
    pub is_animated: bool,
    pub is_video: bool,
    pub ty: String,
    pub thumbnail: ThumbFile,
    pub thumb: ThumbFile,
    pub file_id: String,
    pub file_unique_id: String,
    pub file_size: u64,
}

/// The content of a [`Sticker`].
pub struct StickerView {
    pub width: u32,
    pub height: u32,
    pub emoji: Seq<char>,
    pub is_animated: bool,
    pub is_video: bool,
    pub ty: Seq<char>,
    pub thumbnail: ThumbFileView,
    pub thumb: ThumbFileView,
    pub file_id: Seq<char>,
    pub file_unique_id: Seq<char>,
    pub file_size: u64,
}

impl View for Sticker {
    type V = StickerView;

    open spec fn view(&self) -> StickerView {
        StickerView {
            width: self.width,
            height: self.height,
            emoji: self.emoji@,
            is_animated: self.is_animated,
            is_video: self.is_video,
            ty: self.ty@,
            thumbnail: self.thumbnail@,
            thumb: self.thumb@,
            file_id: self.file_id@,
            file_unique_id: self.file_unique_id@,
            file_size: self.file_size,
        }
    }
}

/// The extension of the file that holds a sticker with the given media
/// flags: `webp` for a still image, `webm` for an animated or a video one.
pub open spec fn media_extension(is_animated: bool, is_video: bool) -> Seq<char>
    recommends
        !(is_animated && is_video),
{
    if is_animated || is_video {
        "webm"@
    } else {
        "webp"@
    }
}

impl StickerView {
    /// A sticker is a still image, an animation or a video. One that claims to
    /// be both an animation and a video describes no file.
    pub open spec fn has_valid_media(self) -> bool {
        !(self.is_animated && self.is_video)
    }

    /// The extension of the file that holds this sticker.
    pub open spec fn file_ext(self) -> Seq<char>
        recommends
            self.has_valid_media(),
    {
        media_extension(self.is_animated, self.is_video)
    }
}

impl Sticker {
    /// Whether the media flags describe a file: not both animated and video.
    pub fn has_valid_media(&self) -> (valid: bool)
        ensures
            valid == self@.has_valid_media(),
    {
        !(self.is_animated && self.is_video)
    }

    /// The extension of the file that holds this sticker. A sticker whose
    /// flags claim both an animation and a video has none.
    pub fn file_ext(&self) -> (ext: &'static str)
        requires
            self@.has_valid_media(),
        ensures
            ext@ == self@.file_ext(),
    {
        if self.is_animated || self.is_video {
            "webm"
        } else {
            "webp"
        }
    }
}

impl TelegramFile for Sticker {
    open spec fn spec_file_id(&self) -> Seq<char> {
        self.file_id@
    }

    open spec fn spec_file_size(&self) -> u64 {
        self.file_size
    }

    fn file_id(&self) -> (id: &str) {
        self.file_id.as_str()
    }

    fn file_size(&self) -> (size: u64) {
        self.file_size
    }
}

impl Clone for Sticker {
    fn clone(&self) -> (copy: Sticker)
        ensures
            copy@ == self@,
    {
        Sticker {
            width: self.width,
            height: self.height,
            emoji: self.emoji.clone(),
            is_animated: self.is_animated,
            is_video: self.is_video,
            ty: self.ty.clone(),
            thumbnail: self.thumbnail.clone(),
            thumb: self.thumb.clone(),
            file_id: self.file_id.clone(),
            file_unique_id: self.file_unique_id.clone(),
            file_size: self.file_size,
        }
    }
}

/// A named collection of stickers, in the order in which the service lists
/// them.
#[derive(Debug)]
pub struct StickerSet {
    pub name: String,
    pub title: String,
    pub sticker_type: String,
    pub stickers: Vec<Sticker>,
}

/// The content of a [`StickerSet`].
pub struct StickerSetView {
    pub name: Seq<char>,
    pub title: Seq<char>,
    pub sticker_type: Seq<char>,
    pub stickers: Seq<StickerView>,
}

impl View for StickerSet {
    type V = StickerSetView;

    open spec fn view(&self) -> StickerSetView {
        StickerSetView {
            name: self.name@,
            title: self.title@,
            sticker_type: self.sticker_type@,
            stickers: self.stickers@.map_values(|s: Sticker| s@),
        }
    }
}

impl StickerSet {
    /// The title of the set, which is how the set is shown to a person.
    pub fn to_string(&self) -> (title: String)
        ensures
            title@ == self@.title,
    {
        self.title.clone()
    }
}

/// The path under which the file service serves a file, valid for a limited
/// time after it was resolved.
#[derive(Debug)]
pub struct TelegramFilePath(String);

impl View for TelegramFilePath {
    type V = Seq<char>;

    closed spec fn view(&self) -> Seq<char> {
        self.0@
    }
}

impl TelegramFilePath {
    pub fn new(path: String) -> (file_path: TelegramFilePath)
        ensures
            file_path@ == path@,
    {
        TelegramFilePath(path)
    }

    pub fn as_str(&self) -> (path: &str)
        ensures
            path@ == self@,
    {
        self.0.as_str()
    }

    pub fn to_string(&self) -> (path: String)
        ensures
            path@ == self@,
    {
        self.0.clone()
    }
}

impl Clone for TelegramFilePath {
    fn clone(&self) -> (copy: TelegramFilePath)
        ensures
            copy@ == self@,
    {
        TelegramFilePath(self.0.clone())
    }
}

/// The kinds of sticker that the pipeline handles.
#[derive(Debug, Clone, Copy, PartialEq, Eq, Structural)]
pub enum StickerType {
    Regular,
}

/// The kinds of sticker set that the pipeline handles.
#[derive(Debug, Clone, Copy, PartialEq, Eq, Structural)]
pub enum StickerSetType {
    Regular,
}

} // verus!
