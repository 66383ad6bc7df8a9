//! Listing a folder that no location has indexed: what is passed over,
//! what gets a thumbnail, and how the listing is put together.

use crate::api::locations::{ExplorerItem, LocationItem, NonIndexedPathItem};
use vstd::prelude::*;

verus! {

/// What a file is, as far as thumbnails go.
#[derive(Debug, Clone, Copy, PartialEq, Eq, Structural)]
pub enum MediaKind {
    Image,
    Video,
    Document,
    Other,
}

/// Whether a thumbnail is made for a file of this kind: for images and
/// documents always, for videos where video frames can be read.
pub fn should_generate_thumbnail(kind: MediaKind, video_support: bool) -> (wanted: bool)
    ensures
        wanted == match kind {
            MediaKind::Image => true,
            MediaKind::Document => true,
            MediaKind::Video => video_support,
            MediaKind::Other => false,
        },
{
    match kind {
        MediaKind::Image => true,
        MediaKind::Document => true,
        MediaKind::Video => video_support,
        MediaKind::Other => false,
    }
}

/// Whether an entry is passed over: whether one of the rules that it was
/// held against did not let it through.
pub fn rejected(accepted: &Vec<bool>) -> (rejected: bool)
    ensures
        rejected == exists|i: int| 0 <= i < accepted.len() && !accepted[i],
{
    let mut i: usize = 0;
    while i < accepted.len()
        invariant
            0 <= i <= accepted.len(),
            forall|j: int| 0 <= j < i ==> accepted[j],
        decreases accepted.len() - i,
    {
        if !accepted[i] {
            return true;
        }
        i = i + 1;
    }
    false
}

/// The place of the first location with the path, or the number of
/// locations where none has it.
pub open spec fn place_by_path(locations: Seq<(String, LocationItem)>, path: Seq<char>) -> int
    decreases locations.len(),
{
    if locations.len() == 0 {
        0
    } else if locations[0].0@ == path {
        0
    } else {
        1 + place_by_path(locations.drop_first(), path)
    }
}

/// The folders of a listing as items: a folder that is a location of the
/// library stands as that location, and uses the location up; any other
/// stands as a path that is not indexed.
pub open spec fn folder_items(
    folders: Seq<NonIndexedPathItem>,
    locations: Seq<(String, LocationItem)>,
) -> Seq<ExplorerItem>
    decreases folders.len(),
{
    if folders.len() == 0 {
        Seq::empty()
    } else {
        let at = place_by_path(locations, folders[0].path@);
        if at < locations.len() {
            seq![ExplorerItem::Location { item: locations[at].1 }] + folder_items(
                folders.drop_first(),
                locations.remove(at),
            )
        } else {
            seq![ExplorerItem::NonIndexedPath { thumbnail: None, item: folders[0] }]
                + folder_items(folders.drop_first(), locations)
        }
    }
}

fn find_by_path(locations: &Vec<(String, LocationItem)>, path: &String) -> (at: usize)
    ensures
        at == place_by_path(locations@, path@),
        at <= locations.len(),
{
    let mut i: usize = 0;
    proof {
        assert(locations@.skip(0) =~= locations@);
    }
    while i < locations.len()
        invariant
            0 <= i <= locations.len(),
            place_by_path(locations@, path@) == i + place_by_path(
                locations@.skip(i as int),
                path@,
            ),
        decreases locations.len() - i,
    {
        proof {
            assert(locations@.skip(i as int)[0] == locations@[i as int]);
            assert(locations@.skip(i as int).drop_first() =~= locations@.skip(i + 1));
        }
        if locations[i].0 == *path {
            return i;
        }
        i = i + 1;
    }
    proof {
        assert(locations@.skip(locations.len() as int).len() == 0);
    }
    i
}

/// Puts a listing together: the files as they were found, then the
/// folders, each as the location that it is or as a path that is not
/// indexed. `locations` holds the library's locations among the folders,
/// each under its path.
pub fn assemble(
    files: Vec<ExplorerItem>,
    folders: Vec<NonIndexedPathItem>,
    locations: Vec<(String, LocationItem)>,
) -> (entries: Vec<ExplorerItem>)
    ensures
        entries@ == files@ + folder_items(folders@, locations@),
{
    let mut entries = files;
    let mut locations = locations;
    let ghost given = folders@;
    let ghost known = locations@;
    proof {
        assert(given.skip(0) =~= given);
    }
    for folder in it: folders
        invariant
            it.seq() == given,
            entries@ + folder_items(given.skip(it.index() as int), locations@) == files@
                + folder_items(given, known),
    {
        let ghost at_folder = it.index() as int;
        let ghost before = entries@;
        let ghost held = locations@;
        proof {
            assert(given.skip(at_folder)[0] == folder);
            assert(given.skip(at_folder).drop_first() =~= given.skip(at_folder + 1));
        }
        let at = find_by_path(&locations, &folder.path);
        if at < locations.len() {
            let (_, location) = locations.remove(at);
            entries.push(ExplorerItem::Location { item: location });
            proof {
                assert(entries@ + folder_items(given.skip(at_folder + 1), locations@) =~= before
                    + folder_items(given.skip(at_folder), held));
            }
        } else {
            entries.push(ExplorerItem::NonIndexedPath { thumbnail: None, item: folder });
            proof {
                assert(entries@ + folder_items(given.skip(at_folder + 1), locations@) =~= before
                    + folder_items(given.skip(at_folder), held));
            }
        }
    }
    proof {
        assert(given.skip(given.len() as int) =~= Seq::empty());
        assert(entries@ + Seq::<ExplorerItem>::empty() =~= entries@);
    }
    entries
}

} // verus!
