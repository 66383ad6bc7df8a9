//! What the explorer shows: items of several kinds, and the folders of the
//! user that a new library may start with.

use crate::text::{decimal, number_text};
use std::path::PathBuf;
use vstd::prelude::*;
use vstd::string::StringExecFns;

verus! {

/// `std::path::PathBuf`, carried through as an opaque value.
#[verifier::external_type_specification]
#[verifier::external_body]
pub struct ExPathBuf(PathBuf);

/// The key under which a thumbnail is stored.
pub type ThumbnailKey = Vec<String>;

/// What the explorer reads of an indexed file path.
#[derive(Debug, PartialEq, Eq)]
pub struct FilePathItem {
    pub id: i32,
    pub name: Option<String>,
    /// The size in bytes, most significant byte first.
    pub size_in_bytes_bytes: Option<Vec<u8>>,
    /// Milliseconds since the epoch.
    pub date_created: Option<i64>,
    /// Milliseconds since the epoch.
    pub date_modified: Option<i64>,
}

/// What the explorer reads of an object.
#[derive(Debug, PartialEq, Eq)]
pub struct ObjectItem {
    pub id: i32,
    /// Milliseconds since the epoch.
    pub date_created: Option<i64>,
}

/// What the explorer reads of a location.
#[derive(Debug, PartialEq, Eq)]
pub struct LocationItem {
    pub id: i32,
    pub name: Option<String>,
    /// Milliseconds since the epoch.
    pub date_created: Option<i64>,
}

/// A path of the file system that no location has indexed.
#[derive(Debug, PartialEq, Eq)]
pub struct NonIndexedPathItem {
    pub path: String,
    pub name: String,
    pub extension: String,
    pub kind: i32,
    pub is_dir: bool,
    /// Milliseconds since the epoch.
    pub date_created: i64,
    /// Milliseconds since the epoch.
    pub date_modified: i64,
    /// The size in bytes, most significant byte first.
    pub size_in_bytes_bytes: Vec<u8>,
    pub hidden: bool,
}

/// What the explorer reads of a peer or of a label.
#[derive(Debug, PartialEq, Eq)]
pub struct NamedItem {
    pub name: String,
}

/// One item of the explorer.
#[derive(Debug, PartialEq, Eq)]
#[allow(inconsistent_fields)]
pub enum ExplorerItem {
    Path { thumbnail: Option<ThumbnailKey>, item: FilePathItem },
    Object { thumbnail: Option<ThumbnailKey>, item: ObjectItem },
    Location { item: LocationItem },
    NonIndexedPath { thumbnail: Option<ThumbnailKey>, item: NonIndexedPathItem },
    SpacedropPeer { item: NamedItem },
    Label { thumbnails: Vec<ThumbnailKey>, item: NamedItem },
}

/// The number that bytes stand for, most significant byte first.
pub open spec fn be_value(bytes: Seq<u8>) -> nat
    decreases bytes.len(),
{
    if bytes.len() == 0 {
        0
    } else {
        be_value(bytes.drop_last()) * 256 + bytes.last() as nat
    }
}

/// The text of a name that may be missing: empty where it is.
pub open spec fn name_or_empty(name: Option<String>) -> Seq<char> {
    match name {
        Some(name) => name@,
        None => Seq::empty(),
    }
}

/// The time that may be missing: the epoch where it is.
pub open spec fn time_or_epoch(time: Option<i64>) -> i64 {
    match time {
        Some(time) => time,
        None => 0,
    }
}

impl ExplorerItem {
    /// The kind of the item, as it is written before the colon of its
    /// identifier.
    pub open spec fn kind_text(&self) -> Seq<char> {
        match self {
            ExplorerItem::Path { .. } => "FilePath"@,
            ExplorerItem::Object { .. } => "Object"@,
            ExplorerItem::Location { .. } => "Location"@,
            ExplorerItem::NonIndexedPath { .. } => "NonIndexedPath"@,
            ExplorerItem::SpacedropPeer { .. } => "SpacedropPeer"@,
            ExplorerItem::Label { .. } => "Label"@,
        }
    }

    /// What tells the item from others of its kind, as it is written after
    /// the colon of its identifier: the number of a file path, object or
    /// location, the path of a path that is not indexed, the name of a peer
    /// or a label.
    pub open spec fn key_text(&self) -> Seq<char> {
        match self {
            ExplorerItem::Path { item, .. } => decimal(item.id as int),
            ExplorerItem::Object { item, .. } => decimal(item.id as int),
            ExplorerItem::Location { item } => decimal(item.id as int),
            ExplorerItem::NonIndexedPath { item, .. } => item.path@,
            ExplorerItem::SpacedropPeer { item } => item.name@,
            ExplorerItem::Label { item, .. } => item.name@,
        }
    }

    /// The name to show, empty where the item has none.
    pub open spec fn name_text(&self) -> Seq<char> {
        match self {
            ExplorerItem::Path { item, .. } => name_or_empty(item.name),
            ExplorerItem::Location { item } => name_or_empty(item.name),
            ExplorerItem::NonIndexedPath { item, .. } => item.name@,
            _ => Seq::empty(),
        }
    }

    /// Whether the size that the item carries is at least eight bytes long,
    /// so that it can be read.
    pub open spec fn size_is_readable(&self) -> bool {
        match self {
            ExplorerItem::Path { item, .. } => match item.size_in_bytes_bytes {
                Some(bytes) => bytes@.len() >= 8,
                None => true,
            },
            ExplorerItem::NonIndexedPath { item, .. } => item.size_in_bytes_bytes@.len() >= 8,
            _ => true,
        }
    }

    /// The size of the item in bytes: what the first eight bytes of its
    /// stored size stand for; zero for an item that carries no size.
    pub open spec fn size_value(&self) -> nat {
        match self {
            ExplorerItem::Path { item, .. } => match item.size_in_bytes_bytes {
                Some(bytes) => be_value(bytes@.take(8)),
                None => 0,
            },
            ExplorerItem::NonIndexedPath { item, .. } => be_value(
                item.size_in_bytes_bytes@.take(8),
            ),
            _ => 0,
        }
    }

    /// The identifier of the item: its kind, a colon, and its key.
    pub fn id(&self) -> (id: String)
        ensures
            id@ == self.kind_text() + ":"@ + self.key_text(),
    {
        let kind = match self {
            ExplorerItem::Path { .. } => "FilePath",
            ExplorerItem::Object { .. } => "Object",
            ExplorerItem::Location { .. } => "Location",
            ExplorerItem::NonIndexedPath { .. } => "NonIndexedPath",
            ExplorerItem::SpacedropPeer { .. } => "SpacedropPeer",
            ExplorerItem::Label { .. } => "Label",
        };
        let key = match self {
            ExplorerItem::Path { item, .. } => number_text(item.id),
            ExplorerItem::Object { item, .. } => number_text(item.id),
            ExplorerItem::Location { item } => number_text(item.id),
            ExplorerItem::NonIndexedPath { item, .. } => item.path.clone(),
            ExplorerItem::SpacedropPeer { item } => item.name.clone(),
            ExplorerItem::Label { item, .. } => item.name.clone(),
        };
        String::from_str(kind).concat(":").concat(key.as_str())
    }

    /// The name to show, empty where the item has none.
    pub fn name(&self) -> (name: &str)
        ensures
            name@ == self.name_text(),
    {
        proof {
            reveal_strlit("");
        }
        let name = match self {
            ExplorerItem::Path { item, .. } => match &item.name {
                Some(name) => name.as_str(),
                None => "",
            },
            ExplorerItem::Location { item } => match &item.name {
                Some(name) => name.as_str(),
                None => "",
            },
            ExplorerItem::NonIndexedPath { item, .. } => item.name.as_str(),
            _ => "",
        };
        proof {
            assert(""@ =~= Seq::<char>::empty());
        }
        name
    }

    /// The size of the item in bytes.
    pub fn size_in_bytes(&self) -> (size: u64)
        requires
            self.size_is_readable(),
        ensures
            size == self.size_value(),
    {
        match self {
            ExplorerItem::Path { item, .. } => match &item.size_in_bytes_bytes {
                Some(bytes) => be_u64(bytes),
                None => 0,
            },
            ExplorerItem::NonIndexedPath { item, .. } => be_u64(&item.size_in_bytes_bytes),
            _ => 0,
        }
    }

    /// The size of the item in bytes; `None` where the size that it
    /// carries is shorter than eight bytes.
    pub fn checked_size_in_bytes(&self) -> (size: Option<u64>)
        ensures
            size.is_some() == self.size_is_readable(),
            size.is_some() ==> size.unwrap() == self.size_value(),
    {
        let readable = match self {
            ExplorerItem::Path { item, .. } => match &item.size_in_bytes_bytes {
                Some(bytes) => bytes.len() >= 8,
                None => true,
            },
            ExplorerItem::NonIndexedPath { item, .. } => item.size_in_bytes_bytes.len() >= 8,
            _ => true,
        };
        if readable {
            Some(self.size_in_bytes())
        } else {
            None
        }
    }

    /// When the item was made, in milliseconds since the epoch; the epoch
    /// itself where that is not known.
    pub fn date_created(&self) -> (time: i64)
        ensures
            time == match self {
                ExplorerItem::Path { item, .. } => time_or_epoch(item.date_created),
                ExplorerItem::Object { item, .. } => time_or_epoch(item.date_created),
                ExplorerItem::Location { item } => time_or_epoch(item.date_created),
                ExplorerItem::NonIndexedPath { item, .. } => item.date_created,
                _ => 0,
            },
    {
        match self {
            ExplorerItem::Path { item, .. } => or_epoch(item.date_created),
            ExplorerItem::Object { item, .. } => or_epoch(item.date_created),
            ExplorerItem::Location { item } => or_epoch(item.date_created),
            ExplorerItem::NonIndexedPath { item, .. } => item.date_created,
            _ => 0,
        }
    }

    /// When the item was last changed, in milliseconds since the epoch; the
    /// epoch itself where that is not known.
    pub fn date_modified(&self) -> (time: i64)
        ensures
            time == match self {
                ExplorerItem::Path { item, .. } => time_or_epoch(item.date_modified),
                ExplorerItem::NonIndexedPath { item, .. } => item.date_modified,
                _ => 0,
            },
    {
        match self {
            ExplorerItem::Path { item, .. } => or_epoch(item.date_modified),
            ExplorerItem::NonIndexedPath { item, .. } => item.date_modified,
            _ => 0,
        }
    }
}

fn or_epoch(time: Option<i64>) -> (known: i64)
    ensures
        known == time_or_epoch(time),
{
    match time {
        Some(time) => time,
        None => 0,
    }
}

/// 256 to the power of `n`.
pub open spec fn pow256(n: nat) -> nat
    decreases n,
{
    if n == 0 {
        1
    } else {
        256 * pow256((n - 1) as nat)
    }
}

/// What bytes stand for is below 256 to the power of their number.
pub proof fn lemma_be_value_bound(bytes: Seq<u8>)
    ensures
        be_value(bytes) < pow256(bytes.len()),
    decreases bytes.len(),
{
    if bytes.len() > 0 {
        lemma_be_value_bound(bytes.drop_last());
    }
}

/// The number that the first eight bytes stand for, most significant byte
/// first.
pub fn be_u64(bytes: &Vec<u8>) -> (value: u64)
    requires
        bytes.len() >= 8,
    ensures
        value == be_value(bytes@.take(8)),
{
    let mut value: u64 = 0;
    let mut i: usize = 0;
    proof {
        assert(bytes@.take(0) =~= Seq::empty());
    }
    while i < 8
        invariant
            0 <= i <= 8,
            bytes.len() >= 8,
            value == be_value(bytes@.take(i as int)),
        decreases 8 - i,
    {
        proof {
            lemma_be_value_bound(bytes@.take(i as int));
            reveal_with_fuel(pow256, 9);
            assert(bytes@.take(i + 1).drop_last() =~= bytes@.take(i as int));
            assert(pow256(i as nat) <= pow256(7));
        }
        let byte: u64 = bytes[i].into();
        value = value * 256 + byte;
        i = i + 1;
    }
    value
}

/// The folders of the user that the system knows by their purpose.
#[derive(Debug, PartialEq, Eq)]
pub struct SystemLocations {
    pub desktop: Option<PathBuf>,
    pub documents: Option<PathBuf>,
    pub downloads: Option<PathBuf>,
    pub pictures: Option<PathBuf>,
    pub music: Option<PathBuf>,
    pub videos: Option<PathBuf>,
}

/// Which of the user's folders a new library is to start with.
#[derive(Debug, Clone, Copy, PartialEq, Eq, Structural)]
pub struct DefaultLocations {
    pub desktop: bool,
    pub documents: bool,
    pub downloads: bool,
    pub pictures: bool,
    pub music: bool,
    pub videos: bool,
}

/// The folder as a list: itself where it is wanted and known, else nothing.
pub open spec fn wanted_one(wanted: bool, folder: Option<PathBuf>) -> Seq<PathBuf> {
    match folder {
        Some(path) => if wanted {
            seq![path]
        } else {
            Seq::empty()
        },
        None => Seq::empty(),
    }
}

/// The folders that are both wanted and known, in the order desktop,
/// documents, downloads, pictures, music, videos.
pub open spec fn wanted_folders(wanted: DefaultLocations, known: SystemLocations) -> Seq<PathBuf> {
    wanted_one(wanted.desktop, known.desktop) + wanted_one(wanted.documents, known.documents)
        + wanted_one(wanted.downloads, known.downloads) + wanted_one(
        wanted.pictures,
        known.pictures,
    ) + wanted_one(wanted.music, known.music) + wanted_one(wanted.videos, known.videos)
}

impl DefaultLocations {
    /// Whether no folder is wanted, so that there is nothing to make.
    pub fn none(&self) -> (none: bool)
        ensures
            none == (!self.desktop && !self.documents && !self.downloads && !self.pictures
                && !self.music && !self.videos),
    {
        !self.desktop && !self.documents && !self.downloads && !self.pictures && !self.music
            && !self.videos
    }

    /// The folders to make locations of: those that are wanted and that the
    /// system knows, in the order desktop, documents, downloads, pictures,
    /// music, videos.
    pub fn select(&self, known: SystemLocations) -> (folders: Vec<PathBuf>)
        ensures
            folders@ == wanted_folders(*self, known),
    {
        let mut folders: Vec<PathBuf> = Vec::new();
        let SystemLocations { desktop, documents, downloads, pictures, music, videos } = known;
        push_wanted(&mut folders, self.desktop, desktop);
        push_wanted(&mut folders, self.documents, documents);
        push_wanted(&mut folders, self.downloads, downloads);
        push_wanted(&mut folders, self.pictures, pictures);
        push_wanted(&mut folders, self.music, music);
        push_wanted(&mut folders, self.videos, videos);
        proof {
            assert(folders@ =~= wanted_folders(*self, known));
        }
        folders
    }
}

fn push_wanted(folders: &mut Vec<PathBuf>, wanted: bool, folder: Option<PathBuf>)
    ensures
        final(folders)@ == old(folders)@ + wanted_one(wanted, folder),
{
    match folder {
        Some(path) => {
            if wanted {
                folders.push(path);
                proof {
                    assert(folders@ =~= old(folders)@ + wanted_one(wanted, folder));
                }
            } else {
                proof {
                    assert(folders@ =~= old(folders)@ + wanted_one(wanted, folder));
                }
            }
        },
        None => {
            proof {
                assert(folders@ =~= old(folders)@ + wanted_one(wanted, folder));
            }
        },
    }
}

/// The eight bytes that stand for a number, most significant byte first.
pub fn be_bytes(value: u64) -> (bytes: Vec<u8>)
    ensures
        bytes.len() == 8,
        be_value(bytes@) == value,
{
    let b7 = (value % 256) as u8;
    let r6 = value / 256;
    let b6 = (r6 % 256) as u8;
    let r5 = r6 / 256;
    let b5 = (r5 % 256) as u8;
    let r4 = r5 / 256;
    let b4 = (r4 % 256) as u8;
    let r3 = r4 / 256;
    let b3 = (r3 % 256) as u8;
    let r2 = r3 / 256;
    let b2 = (r2 % 256) as u8;
    let r1 = r2 / 256;
    let b1 = (r1 % 256) as u8;
    let r0 = r1 / 256;
    let b0 = (r0 % 256) as u8;
    let mut bytes: Vec<u8> = Vec::new();
    bytes.push(b0);
    bytes.push(b1);
    bytes.push(b2);
    bytes.push(b3);
    bytes.push(b4);
    bytes.push(b5);
    bytes.push(b6);
    bytes.push(b7);
    proof {
        let all = bytes@;
        assert(all.take(0) =~= Seq::empty());
        assert(all.take(1).drop_last() =~= all.take(0));
        assert(all.take(2).drop_last() =~= all.take(1));
        assert(all.take(3).drop_last() =~= all.take(2));
        assert(all.take(4).drop_last() =~= all.take(3));
        assert(all.take(5).drop_last() =~= all.take(4));
        assert(all.take(6).drop_last() =~= all.take(5));
        assert(all.take(7).drop_last() =~= all.take(6));
        assert(all.take(8).drop_last() =~= all.take(7));
        assert(all.take(8) =~= all);
        assert(be_value(all.take(0)) == 0);
        assert(be_value(all.take(1)) == r0);
        assert(be_value(all.take(2)) == r1);
        assert(be_value(all.take(3)) == r2);
        assert(be_value(all.take(4)) == r3);
        assert(be_value(all.take(5)) == r4);
        assert(be_value(all.take(6)) == r5);
        assert(be_value(all.take(7)) == r6);
        assert(be_value(all.take(8)) == value);
    }
    bytes
}

} // verus!
