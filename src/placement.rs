//! Media placement: completing a downloaded file's tags from the song it stands
//! for, and where the file goes in the library, `<root>/<artist>/<album>/<file>`.
use vstd::prelude::*;
use crate::model::{FsSong, Song};
use crate::text::{file_name_of, file_name_str};

verus! {

/// The tags that placement reads and writes.
pub struct TagSet {
    pub title: Option<String>,
    pub artist: Option<String>,
    pub album: Option<String>,
    pub track_number: Option<u16>,
}

/// Places downloaded files into the library under `library_root`.
pub struct FileSorter {
    pub library_root: String,
}

impl FileSorter {
    pub fn new(library_root: String) -> (r: FileSorter)
        ensures
            r.library_root == library_root,
    {
        FileSorter { library_root }
    }

    /// The tags to write: each tag that the file has is kept; each that it lacks
    /// is filled from `song`.
    pub fn correct_tags(&self, existing: TagSet, song: &FsSong) -> (r: TagSet)
        ensures
            r.title == match existing.title {
                Some(t) => Some(t),
                None => Some(song.title),
            },
            match (existing.artist, r.artist) {
                (Some(a), Some(b)) => b == a,
                (None, Some(b)) => b@ == song.artist_name_spec(),
                _ => false,
            },
            r.album == match existing.album {
                Some(a) => Some(a),
                None => Some(song.album_name),
            },
            r.track_number == match existing.track_number {
                Some(n) => Some(n),
                None => Some(song.number),
            },
    {
        let TagSet { title, artist, album, track_number } = existing;
        let title = match title {
            Some(t) => t,
            None => song.get_title(),
        };
        let artist = match artist {
            Some(a) => a,
            None => song.get_artist_name(),
        };
        let album = match album {
            Some(a) => a,
            None => song.get_album_name(),
        };
        let track_number = match track_number {
            Some(n) => n,
            None => song.number,
        };
        TagSet {
            title: Some(title),
            artist: Some(artist),
            album: Some(album),
            track_number: Some(track_number),
        }
    }

    /// The directory that receives `song`: `<root>/<artist>/<album>`.
    pub fn destination_dir(&self, song: &FsSong) -> (r: String)
        ensures
            r@ == self.library_root@ + "/"@ + song.artist_name_spec() + "/"@ + song.album_name@,
    {
        proof {
            reveal_strlit("/");
        }
        let mut r = self.library_root.clone();
        r.append("/");
        let artist = song.get_artist_name();
        r.append(artist.as_str());
        r.append("/");
        r.append(song.album_name.as_str());
        r
    }

    /// Where the file at `downloaded` goes: its file name, in `song`'s directory.
    pub fn destination_path(&self, song: &FsSong, downloaded: &str) -> (r: String)
        ensures
            r@ == self.library_root@ + "/"@ + song.artist_name_spec() + "/"@ + song.album_name@ + "/"@
                + file_name_of(downloaded@),
    {
        proof {
            reveal_strlit("/");
        }
        let mut r = self.destination_dir(song);
        r.append("/");
        r.append(file_name_str(downloaded));
        r
    }
}

} // verus!
