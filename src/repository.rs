//! The library repository: the in-memory forest of artists, albums and songs,
//! its order, and the operations that change it.
use vstd::prelude::*;
use vstd::seq_lib::*;
use itertools::Itertools;
use crate::model::{
    album_artist_of, album_name_of, album_paths, album_year, albums_sorted, albums_view, song_paths,
    songs_sorted, sort_albums, Album, Deleteable, FsAlbum, FsArtist, FsSong, Song,
};
use crate::player::SongInfo;
use crate::text::{chars_le, lower_of, lowercase, str_eq};

verus! {

broadcast use group_to_multiset_ensures;

/// Artists ordered by name, ignoring case.
pub open spec fn artists_sorted(s: Seq<FsArtist>) -> bool {
    forall|i: int, j: int|
        0 <= i < j < s.len() ==> chars_le(lower_of(#[trigger] s[i].name@), lower_of(#[trigger] s[j].name@))
}

/// Every artist keeps its albums in release-year order and each album its songs in
/// track-number order.
pub open spec fn artists_wf(s: Seq<FsArtist>) -> bool {
    forall|k: int| 0 <= k < s.len() ==> #[trigger] s[k].wf()
}

/// The first index at or after `k` of an artist named `name`, or -1.
pub open spec fn artist_index_from(s: Seq<FsArtist>, name: Seq<char>, k: int) -> int
    decreases s.len() - k,
{
    if k < 0 || k >= s.len() {
        -1
    } else if s[k].name@ == name {
        k
    } else {
        artist_index_from(s, name, k + 1)
    }
}

/// The index of the first artist named `name`, or -1.
pub open spec fn artist_index(s: Seq<FsArtist>, name: Seq<char>) -> int {
    artist_index_from(s, name, 0)
}

/// The first index at or after `k` of an album named `name`, or -1.
pub open spec fn album_index_from(s: Seq<FsAlbum>, name: Seq<char>, k: int) -> int
    decreases s.len() - k,
{
    if k < 0 || k >= s.len() {
        -1
    } else if album_name_of(s[k]@) == name {
        k
    } else {
        album_index_from(s, name, k + 1)
    }
}

/// The index of the first album named `name`, or -1.
pub open spec fn album_index(s: Seq<FsAlbum>, name: Seq<char>) -> int {
    album_index_from(s, name, 0)
}

proof fn lemma_artist_index_from(s: Seq<FsArtist>, name: Seq<char>, k: int)
    requires
        0 <= k,
    ensures
        artist_index_from(s, name, k) == -1 || (k <= artist_index_from(s, name, k) < s.len()
            && s[artist_index_from(s, name, k)].name@ == name),
        forall|m: int|
            k <= m < s.len() && (artist_index_from(s, name, k) == -1 || m < artist_index_from(
                s,
                name,
                k,
            )) ==> #[trigger] s[m].name@ != name,
    decreases s.len() - k,
{
    if k < s.len() && s[k].name@ != name {
        lemma_artist_index_from(s, name, k + 1);
    }
}

/// Finds the first artist named `name`.
fn find_artist(artists: &Vec<FsArtist>, name: &str) -> (r: Option<usize>)
    ensures
        match r {
            Some(i) => i as int == artist_index(artists@, name@) && i < artists@.len(),
            None => artist_index(artists@, name@) == -1,
        },
{
    let mut k: usize = 0;
    while k < artists.len()
        invariant
            k <= artists.len(),
            artist_index(artists@, name@) == artist_index_from(artists@, name@, k as int),
        decreases artists.len() - k,
    {
        if str_eq(artists[k].name.as_str(), name) {
            return Some(k);
        }
        k = k + 1;
    }
    None
}

/// Finds the first album named `name`.
fn find_album(albums: &Vec<FsAlbum>, name: &str) -> (r: Option<usize>)
    ensures
        match r {
            Some(j) => j as int == album_index(albums@, name@) && j < albums@.len(),
            None => album_index(albums@, name@) == -1,
        },
{
    let mut k: usize = 0;
    while k < albums.len()
        invariant
            k <= albums.len(),
            album_index(albums@, name@) == album_index_from(albums@, name@, k as int),
        decreases albums.len() - k,
    {
        let n = albums[k].get_name();
        if str_eq(n.as_str(), name) {
            return Some(k);
        }
        k = k + 1;
    }
    None
}

/// The album that a now-playing record belongs to: in the first artist named as
/// the record's artist, the first album named as the record's album.
pub open spec fn current_album_spec(artists: Seq<FsArtist>, info: SongInfo) -> Option<Seq<FsSong>> {
    let i = artist_index(artists, info.artist@);
    if i < 0 {
        None
    } else {
        let j = album_index(artists[i].albums@, info.album@);
        if j < 0 {
            None
        } else {
            Some(artists[i].albums@[j]@)
        }
    }
}

/// Albums kept when removing the albums named `name`.
pub open spec fn keeps_album(name: Seq<char>) -> spec_fn(FsAlbum) -> bool {
    |a: FsAlbum| album_name_of(a@) != name
}

/// Songs kept when removing the songs titled `title`.
pub open spec fn keeps_song(title: Seq<char>) -> spec_fn(FsSong) -> bool {
    |s: FsSong| s.title@ != title
}

/// The single owned state of the local collection.
pub struct MusicRepository {
    /// Root directory of the library.
    pub path: String,
    pub artists: Vec<FsArtist>,
}

impl MusicRepository {
    /// Artists stand in name order ignoring case, and each artist is well formed.
    pub open spec fn wf(&self) -> bool {
        artists_sorted(self.artists@) && artists_wf(self.artists@)
    }

    /// An empty repository for the library under `path`.
    pub fn new(path: String) -> (r: MusicRepository)
        ensures
            r.path == path,
            r.artists@.len() == 0,
            r.wf(),
    {
        MusicRepository { path, artists: Vec::new() }
    }

    /// A copy of the current artists.
    pub fn get_artists(&self) -> (r: Vec<FsArtist>)
        ensures
            r@.len() == self.artists@.len(),
            forall|k: int| 0 <= k < r@.len() ==> #[trigger] r@[k]@ == self.artists@[k]@,
    {
        let mut r: Vec<FsArtist> = Vec::new();
        let mut i: usize = 0;
        while i < self.artists.len()
            invariant
                i <= self.artists.len(),
                r@.len() == i,
                forall|k: int| 0 <= k < i ==> #[trigger] r@[k]@ == self.artists@[k]@,
            decreases self.artists.len() - i,
        {
            r.push(self.artists[i].clone());
            i = i + 1;
        }
        r
    }

    /// Removes every artist named as `artist` and hands them back, in order, so
    /// that their files can be deleted; where there is none, nothing changes.
    pub fn remove_artist(&mut self, artist: &FsArtist) -> (r: Vec<FsArtist>)
        ensures
            old(self).wf() ==> final(self).wf(),
            final(self).path == old(self).path,
            removes_artist(old(self).artists@, final(self).artists@, artist.name@, r@),
    {
        let mut all: Vec<FsArtist> = Vec::new();
        std::mem::swap(&mut all, &mut self.artists);
        let (kept, removed) = split_artists(all, artist.name.as_str());
        self.artists = kept;
        removed
    }

    /// Removes, from the artist of `album` (the first artist so named), every
    /// album named as `album`, and hands them back so that their files can be
    /// deleted. An album without songs names no artist, and where there is no
    /// such artist, nothing changes.
    pub fn remove_album(&mut self, album: &FsAlbum) -> (r: Vec<FsAlbum>)
        ensures
            old(self).wf() ==> final(self).wf(),
            final(self).path == old(self).path,
            ({
                let i = artist_index(old(self).artists@, album_artist_of(album@));
                let name = album_name_of(album@);
                if album@.len() == 0 || i < 0 {
                    r@.len() == 0 && final(self).artists@ == old(self).artists@
                } else {
                    &&& final(self).artists@ == old(self).artists@.update(
                        i,
                        FsArtist {
                            name: old(self).artists@[i].name,
                            albums: final(self).artists@[i].albums,
                        },
                    )
                    &&& final(self).artists@[i].albums@ == old(self).artists@[i].albums@.filter(
                        keeps_album(name),
                    )
                    &&& r@ == old(self).artists@[i].albums@.filter(drops_album(name))
                }
            }),
    {
        proof {
            lemma_artist_index_from(self.artists@, album_artist_of(album@), 0);
        }
        if album.songs.len() == 0 {
            return Vec::new();
        }
        let artist_name = album.get_artist_name();
        let name = album.get_name();
        match find_artist(&self.artists, artist_name.as_str()) {
            None => Vec::new(),
            Some(i) => {
                let ghost before = self.artists@;
                let FsArtist { name: aname, albums } = self.artists.remove(i);
                let (kept, removed) = split_albums(albums, name.as_str());
                let ghost new_artist = FsArtist { name: aname, albums: kept };
                self.artists.insert(i, FsArtist { name: aname, albums: kept });
                proof {
                    assert(self.artists@ =~= before.update(i as int, new_artist));
                    if artists_sorted(before) && artists_wf(before) {
                        assert forall|a: int, b: int| 0 <= a < b < self.artists@.len() implies chars_le(
                            lower_of(#[trigger] self.artists@[a].name@),
                            lower_of(#[trigger] self.artists@[b].name@),
                        ) by {
                            assert(before[a].name == self.artists@[a].name);
                            assert(before[b].name == self.artists@[b].name);
                        }
                        assert(before[i as int].wf());
                        assert forall|k: int| 0 <= k < self.artists@.len() implies #[trigger] self.artists@[k].wf() by {
                            if k != i {
                                assert(before[k] == self.artists@[k]);
                            }
                        }
                    }
                }
                removed
            },
        }
    }

    /// Removes, from the album of `song` (found by artist, then album name), every
    /// song titled as `song`, and hands them back so that their files can be
    /// deleted. The album's songs stay in track order and the artist's albums are
    /// put back in release-year order, since the album's year may change. Where the
    /// artist or the album is missing, nothing changes.
    pub fn remove_song(&mut self, song: &FsSong) -> (r: Vec<FsSong>)
        ensures
            old(self).wf() ==> final(self).wf(),
            final(self).path == old(self).path,
            removes_songs(old(self).artists@, final(self).artists@, *song, r@),
    {
        proof {
            lemma_artist_index_from(self.artists@, song.artist_name_spec(), 0);
        }
        let artist_name = song.get_artist_name();
        let i = match find_artist(&self.artists, artist_name.as_str()) {
            None => return Vec::new(),
            Some(i) => i,
        };
        let j = match find_album(&self.artists[i].albums, song.album_name.as_str()) {
            None => return Vec::new(),
            Some(j) => j,
        };
        let ghost before = self.artists@;
        let ghost was_wf = artists_sorted(before) && artists_wf(before);
        let FsArtist { name: aname, albums } = self.artists.remove(i);
        let ghost old_albums = albums@;
        let mut albums = albums;
        let FsAlbum { songs } = albums.remove(j);
        let (kept, removed) = split_songs(songs, song.title.as_str());
        let new_album = FsAlbum { songs: kept };
        albums.insert(j, new_album);
        proof {
            assert(albums@ =~= old_albums.update(j as int, new_album));
            if was_wf {
                assert(before[i as int].wf());
                assert(old_albums[j as int].wf());
                assert forall|k: int| 0 <= k < albums@.len() implies #[trigger] albums@[k].wf() by {
                    if k != j {
                        assert(old_albums[k] == albums@[k]);
                    }
                }
            }
        }
        let ghost updated = albums@;
        let sorted = sort_albums(albums);
        proof {
            if was_wf {
                assert forall|k: int| 0 <= k < sorted@.len() implies #[trigger] sorted@[k].wf() by {
                    assert(sorted@.contains(sorted@[k]));
                    assert(sorted@.to_multiset().count(sorted@[k]) > 0);
                    assert(updated.to_multiset().count(sorted@[k]) > 0);
                    assert(updated.contains(sorted@[k]));
                }
            }
        }
        let ghost new_artist = FsArtist { name: aname, albums: sorted };
        self.artists.insert(i, FsArtist { name: aname, albums: sorted });
        proof {
            assert(self.artists@ =~= before.update(i as int, new_artist));
            if was_wf {
                assert forall|a: int, b: int| 0 <= a < b < self.artists@.len() implies chars_le(
                    lower_of(#[trigger] self.artists@[a].name@),
                    lower_of(#[trigger] self.artists@[b].name@),
                ) by {
                    assert(before[a].name == self.artists@[a].name);
                    assert(before[b].name == self.artists@[b].name);
                }
                assert forall|k: int| 0 <= k < self.artists@.len() implies #[trigger] self.artists@[k].wf() by {
                    if k != i {
                        assert(before[k] == self.artists@[k]);
                    }
                }
            }
            assert(album_replaced(
                before[i as int].albums@,
                self.artists@[i as int].albums@,
                j as int,
                before[i as int].albums@[j as int]@.filter(keeps_song(song.title@)),
            ));
        }
        removed
    }

    /// The album that the song of `info` belongs to, if the library holds it.
    pub fn find_current_album(&self, info: &SongInfo) -> (r: Option<FsAlbum>)
        ensures
            match r {
                Some(a) => current_album_spec(self.artists@, *info) == Some(a@),
                None => current_album_spec(self.artists@, *info) is None,
            },
    {
        match find_artist(&self.artists, info.artist.as_str()) {
            None => None,
            Some(i) => match find_album(&self.artists[i].albums, info.album.as_str()) {
                None => None,
                Some(j) => Some(self.artists[i].albums[j].clone()),
            },
        }
    }
}

/// `after` holds the albums of `before` with the one at `j` replaced by an album
/// of the songs `songs`, in any order.
pub open spec fn album_replaced(before: Seq<FsAlbum>, after: Seq<FsAlbum>, j: int, songs: Seq<FsSong>) -> bool {
    exists|a: FsAlbum| a@ == songs && after.to_multiset() == (#[trigger] before.update(j, a)).to_multiset()
}

/// `after` is `before` where, in the album of `song` (the first album so named in
/// the first artist named as the song's artist), the songs titled as `song` are
/// gone, the album keeping the others in order, and the artist's albums possibly
/// reordered; `removed` lists the songs that went. Where the artist or the album
/// is missing, nothing changes.
pub open spec fn removes_songs(
    before: Seq<FsArtist>,
    after: Seq<FsArtist>,
    song: FsSong,
    removed: Seq<FsSong>,
) -> bool {
    let i = artist_index(before, song.artist_name_spec());
    let j = if i < 0 {
        -1
    } else {
        album_index(before[i].albums@, song.album_name@)
    };
    if i < 0 || j < 0 {
        removed.len() == 0 && after == before
    } else {
        let old_albums = before[i].albums@;
        &&& after == before.update(i, FsArtist { name: before[i].name, albums: after[i].albums })
        &&& album_replaced(old_albums, after[i].albums@, j, old_albums[j]@.filter(keeps_song(song.title@)))
        &&& removed == old_albums[j]@.filter(drops_song(song.title@))
    }
}

/// Artists kept when removing the artists named `name`.
pub open spec fn keeps_artist(name: Seq<char>) -> spec_fn(FsArtist) -> bool {
    |a: FsArtist| a.name@ != name
}

/// Artists dropped when removing the artists named `name`.
pub open spec fn drops_artist(name: Seq<char>) -> spec_fn(FsArtist) -> bool {
    |a: FsArtist| a.name@ == name
}

/// `after` is `before` without its artists named `name`, the others in order, and
/// `removed` lists those artists in order.
pub open spec fn removes_artist(
    before: Seq<FsArtist>,
    after: Seq<FsArtist>,
    name: Seq<char>,
    removed: Seq<FsArtist>,
) -> bool {
    &&& after == before.filter(keeps_artist(name))
    &&& removed == before.filter(drops_artist(name))
}

/// Parts artists into those not named `name`, in their order, and those so named.
fn split_artists(artists: Vec<FsArtist>, name: &str) -> (r: (Vec<FsArtist>, Vec<FsArtist>))
    ensures
        r.0@ == artists@.filter(keeps_artist(name@)),
        r.1@ == artists@.filter(drops_artist(name@)),
        artists_sorted(artists@) ==> artists_sorted(r.0@),
        artists_wf(artists@) ==> artists_wf(r.0@),
{
    let ghost orig = artists@;
    let n = artists.len();
    let mut v = artists;
    let mut kept: Vec<FsArtist> = Vec::new();
    let mut removed: Vec<FsArtist> = Vec::new();
    let mut i: usize = 0;
    while i < n
        invariant
            n == orig.len(),
            i <= n,
            v@ == orig.subrange(i as int, n as int),
            kept@ == orig.subrange(0, i as int).filter(keeps_artist(name@)),
            removed@ == orig.subrange(0, i as int).filter(drops_artist(name@)),
            artists_sorted(orig) ==> artists_sorted(kept@),
            artists_sorted(orig) ==> forall|k: int, m: int|
                0 <= k < kept@.len() && i <= m < n ==> chars_le(
                    lower_of((#[trigger] kept@[k]).name@),
                    lower_of((#[trigger] orig[m]).name@),
                ),
            artists_wf(orig) ==> artists_wf(kept@),
        decreases n - i,
    {
        let x = v.remove(0);
        proof {
            assert(orig.subrange(0, i + 1) =~= orig.subrange(0, i as int).push(orig[i as int]));
            orig.subrange(0, i as int).lemma_filter_push(orig[i as int], keeps_artist(name@));
            orig.subrange(0, i as int).lemma_filter_push(orig[i as int], drops_artist(name@));
        }
        let ghost prev = kept@;
        if str_eq(x.name.as_str(), name) {
            removed.push(x);
        } else {
            kept.push(x);
            proof {
                if artists_sorted(orig) {
                    assert forall|a: int, b: int| 0 <= a < b < kept@.len() implies chars_le(
                        lower_of(#[trigger] kept@[a].name@),
                        lower_of(#[trigger] kept@[b].name@),
                    ) by {
                        if b == prev.len() {
                            assert(kept@[a] == prev[a]);
                            assert(chars_le(lower_of(prev[a].name@), lower_of(orig[i as int].name@)));
                        } else {
                            assert(kept@[a] == prev[a] && kept@[b] == prev[b]);
                        }
                    }
                    assert forall|k: int, m: int| 0 <= k < kept@.len() && i + 1 <= m < n implies chars_le(
                        lower_of((#[trigger] kept@[k]).name@),
                        lower_of((#[trigger] orig[m]).name@),
                    ) by {
                        if k == prev.len() {
                            assert(kept@[k] == orig[i as int]);
                        } else {
                            assert(kept@[k] == prev[k]);
                        }
                    }
                }
                if artists_wf(orig) {
                    assert forall|k: int| 0 <= k < kept@.len() implies #[trigger] kept@[k].wf() by {
                        if k < prev.len() {
                            assert(kept@[k] == prev[k]);
                        } else {
                            assert(kept@[k] == orig[i as int]);
                        }
                    }
                }
            }
        }
        i = i + 1;
    }
    assert(orig.subrange(0, n as int) =~= orig);
    (kept, removed)
}

/// Albums dropped when removing the albums named `name`.
pub open spec fn drops_album(name: Seq<char>) -> spec_fn(FsAlbum) -> bool {
    |a: FsAlbum| album_name_of(a@) == name
}

/// Songs dropped when removing the songs titled `title`.
pub open spec fn drops_song(title: Seq<char>) -> spec_fn(FsSong) -> bool {
    |s: FsSong| s.title@ == title
}

/// Parts albums into those not named `name`, in their order, and those so named.
fn split_albums(albums: Vec<FsAlbum>, name: &str) -> (r: (Vec<FsAlbum>, Vec<FsAlbum>))
    ensures
        r.0@ == albums@.filter(keeps_album(name@)),
        r.1@ == albums@.filter(drops_album(name@)),
        albums_sorted(albums@) ==> albums_sorted(r.0@),
        (forall|k: int| 0 <= k < albums@.len() ==> #[trigger] albums@[k].wf()) ==> (forall|k: int|
            0 <= k < r.0@.len() ==> #[trigger] r.0@[k].wf()),
{
    let ghost orig = albums@;
    let n = albums.len();
    let mut v = albums;
    let mut kept: Vec<FsAlbum> = Vec::new();
    let mut removed: Vec<FsAlbum> = Vec::new();
    let mut i: usize = 0;
    while i < n
        invariant
            n == orig.len(),
            i <= n,
            v@ == orig.subrange(i as int, n as int),
            kept@ == orig.subrange(0, i as int).filter(keeps_album(name@)),
            removed@ == orig.subrange(0, i as int).filter(drops_album(name@)),
            albums_sorted(orig) ==> albums_sorted(kept@),
            albums_sorted(orig) ==> forall|k: int, m: int|
                0 <= k < kept@.len() && i <= m < n ==> album_year(#[trigger] kept@[k]@) <= album_year(
                    #[trigger] orig[m]@,
                ),
            (forall|k: int| 0 <= k < orig.len() ==> #[trigger] orig[k].wf()) ==> (forall|k: int|
                0 <= k < kept@.len() ==> #[trigger] kept@[k].wf()),
        decreases n - i,
    {
        let x = v.remove(0);
        let xn = x.get_name();
        proof {
            assert(orig.subrange(0, i + 1) =~= orig.subrange(0, i as int).push(orig[i as int]));
            orig.subrange(0, i as int).lemma_filter_push(orig[i as int], keeps_album(name@));
            orig.subrange(0, i as int).lemma_filter_push(orig[i as int], drops_album(name@));
        }
        if str_eq(xn.as_str(), name) {
            removed.push(x);
        } else {
            kept.push(x);
        }
        i = i + 1;
    }
    assert(orig.subrange(0, n as int) =~= orig);
    (kept, removed)
}

/// Parts songs into those not titled `title`, in their order, and those so titled.
fn split_songs(songs: Vec<FsSong>, title: &str) -> (r: (Vec<FsSong>, Vec<FsSong>))
    ensures
        r.0@ == songs@.filter(keeps_song(title@)),
        r.1@ == songs@.filter(drops_song(title@)),
        songs_sorted(songs@) ==> songs_sorted(r.0@),
{
    let ghost orig = songs@;
    let n = songs.len();
    let mut v = songs;
    let mut kept: Vec<FsSong> = Vec::new();
    let mut removed: Vec<FsSong> = Vec::new();
    let mut i: usize = 0;
    while i < n
        invariant
            n == orig.len(),
            i <= n,
            v@ == orig.subrange(i as int, n as int),
            kept@ == orig.subrange(0, i as int).filter(keeps_song(title@)),
            removed@ == orig.subrange(0, i as int).filter(drops_song(title@)),
            songs_sorted(orig) ==> songs_sorted(kept@),
            songs_sorted(orig) ==> forall|k: int, m: int|
                0 <= k < kept@.len() && i <= m < n ==> (#[trigger] kept@[k]).number <= (
                #[trigger] orig[m]).number,
        decreases n - i,
    {
        let x = v.remove(0);
        proof {
            assert(orig.subrange(0, i + 1) =~= orig.subrange(0, i as int).push(orig[i as int]));
            orig.subrange(0, i as int).lemma_filter_push(orig[i as int], keeps_song(title@));
            orig.subrange(0, i as int).lemma_filter_push(orig[i as int], drops_song(title@));
        }
        if str_eq(x.title.as_str(), title) {
            removed.push(x);
        } else {
            kept.push(x);
        }
        i = i + 1;
    }
    assert(orig.subrange(0, n as int) =~= orig);
    (kept, removed)
}

proof fn lemma_album_paths_flatten(albums: Seq<Seq<FsSong>>)
    ensures
        album_paths(albums) == song_paths(albums.flatten()),
    decreases albums.len(),
{
    if albums.len() > 0 {
        lemma_album_paths_flatten(albums.drop_first());
        assert(albums.map_values(|a: Seq<FsSong>| song_paths(a)).drop_first() =~= albums.drop_first().map_values(
            |a: Seq<FsSong>| song_paths(a),
        ));
        assert(song_paths(albums.first() + albums.drop_first().flatten()) =~= song_paths(albums.first())
            + song_paths(albums.drop_first().flatten()));
    } else {
        assert(album_paths(albums) =~= Seq::<Seq<char>>::empty());
        assert(song_paths(albums.flatten()) =~= Seq::<Seq<char>>::empty());
    }
}

/// Removing an artist cascades to its songs: every artist handed back carried the
/// name, the files to delete of each are the paths of all its songs, one per song
/// in album order, and no artist that remains carries the name.
pub proof fn lemma_removal_cascade(
    before: Seq<FsArtist>,
    after: Seq<FsArtist>,
    name: Seq<char>,
    removed: Seq<FsArtist>,
)
    requires
        removes_artist(before, after, name, removed),
    ensures
        forall|k: int| 0 <= k < removed.len() ==> (#[trigger] removed[k]).name@ == name
            && removed[k].owned_files() == song_paths(albums_view(removed[k].albums@).flatten()),
        forall|k: int| 0 <= k < after.len() ==> (#[trigger] after[k]).name@ != name,
        forall|k: int| 0 <= k < before.len() && before[k].name@ == name ==> removed.contains(#[trigger] before[k]),
{
    before.filter_lemma(keeps_artist(name));
    before.filter_lemma(drops_artist(name));
    assert forall|k: int| 0 <= k < removed.len() implies (#[trigger] removed[k]).name@ == name
        && removed[k].owned_files() == song_paths(albums_view(removed[k].albums@).flatten()) by {
        assert((drops_artist(name))(removed[k]));
        lemma_album_paths_flatten(albums_view(removed[k].albums@));
    }
    assert forall|k: int| 0 <= k < after.len() implies (#[trigger] after[k]).name@ != name by {
        assert((keeps_artist(name))(after[k]));
    }
}

/// The key that orders artists: the name in lower case.
pub fn artist_sort_key(a: &FsArtist) -> (r: String)
    ensures
        r@ == lower_of(a.name@),
{
    lowercase(a.name.as_str())
}

/// The artists of `s` whose folded name is `key`, in order.
pub open spec fn with_folded_name(s: Seq<FsArtist>, key: Seq<char>) -> Seq<FsArtist> {
    s.filter(|a: FsArtist| lower_of(a.name@) == key)
}

/// Relies on `Itertools::sorted_by_key`, which sorts with the stable
/// `slice::sort_by_key`, here keyed by `artist_sort_key`; `String`'s order is
/// `chars_le`. The result is a permutation of `v` in key order, artists of one key
/// in their order in `v`, so an already ordered `v` comes back as it was.
#[verifier::external_body]
pub(crate) fn sort_artists(v: Vec<FsArtist>) -> (r: Vec<FsArtist>)
    ensures
        r@.to_multiset() == v@.to_multiset(),
        artists_sorted(r@),
        forall|key: Seq<char>| #[trigger] with_folded_name(r@, key) == with_folded_name(v@, key),
        artists_sorted(v@) ==> r@ == v@,
{
    v.into_iter().sorted_by_key(|a| artist_sort_key(a)).collect()
}

} // verus!
