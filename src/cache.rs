//! The persisted projection of the library: flat song records grouped by album
//! and artist, and the conversions to and from the live entities.
use vstd::prelude::*;
use vstd::seq_lib::*;
use crate::model::{
    lemma_same_members, Album, album_name_of, album_year, albums_view, songs_sorted, FsAlbum, FsArtist, FsSong,
};
use crate::repository::{artists_sorted, artists_wf, sort_artists, MusicRepository};
use crate::text::{chars_le, lower_of};

verus! {

broadcast use group_to_multiset_ensures;

/// The cached fields of a song.
pub struct SaveableSong {
    pub path: String,
    pub title: String,
    pub length_ms: u64,
    pub track_number: u16,
    pub album_name: String,
    pub release_year: i32,
}

/// A cached album: its name and its songs.
pub struct SaveableAlbum {
    pub songs: Vec<SaveableSong>,
    pub name: String,
}

/// A cached artist: its name and its albums.
pub struct SaveableArtist {
    pub albums: Vec<SaveableAlbum>,
    pub name: String,
}

/// The record that the cache keeps of a song.
pub open spec fn saved_song(s: FsSong) -> SaveableSong {
    SaveableSong {
        path: s.path,
        title: s.title,
        length_ms: s.length_ms,
        track_number: s.number,
        album_name: s.album_name,
        release_year: s.release_year,
    }
}

/// The song that a cache record stands for.
pub open spec fn loaded_song(s: SaveableSong) -> FsSong {
    FsSong {
        path: s.path,
        title: s.title,
        length_ms: s.length_ms,
        number: s.track_number,
        album_name: s.album_name,
        release_year: s.release_year,
    }
}

/// The songs that a cached album stands for.
pub open spec fn loaded_songs(a: SaveableAlbum) -> Seq<FsSong> {
    a.songs@.map_values(|s: SaveableSong| loaded_song(s))
}

/// `saved` is the cache form of `artist`: same name, and album by album the
/// records of the same songs in the same order.
pub open spec fn saves_artist(artist: FsArtist, saved: SaveableArtist) -> bool {
    &&& saved.name == artist.name
    &&& saved.albums@.len() == artist.albums@.len()
    &&& forall|m: int|
        0 <= m < artist.albums@.len() ==> {
            &&& (#[trigger] saved.albums@[m]).songs@ == artist.albums@[m]@.map_values(
                |s: FsSong| saved_song(s),
            )
            &&& saved.albums@[m].name@ == album_name_of(artist.albums@[m]@)
        }
}

/// `saved` is the cache form of `artists`, artist by artist.
pub open spec fn saves(artists: Seq<FsArtist>, saved: Seq<SaveableArtist>) -> bool {
    &&& saved.len() == artists.len()
    &&& forall|k: int| 0 <= k < artists.len() ==> saves_artist(artists[k], #[trigger] saved[k])
}

/// `artist` is the live form of `saved`: same name, and album by album the songs
/// that the records stand for, in the same order.
pub open spec fn loads_artist(saved: SaveableArtist, artist: FsArtist) -> bool {
    &&& artist.name == saved.name
    &&& artist.albums@.len() == saved.albums@.len()
    &&& forall|m: int|
        0 <= m < saved.albums@.len() ==> (#[trigger] artist.albums@[m])@ == loaded_songs(
            saved.albums@[m],
        )
}

/// The cache lists its artists, albums and songs in the library's order: artists
/// by name ignoring case, albums by release year, songs by track number.
pub open spec fn saved_in_order(saved: Seq<SaveableArtist>) -> bool {
    &&& forall|i: int, j: int|
        0 <= i < j < saved.len() ==> chars_le(lower_of(#[trigger] saved[i].name@), lower_of(#[trigger] saved[j].name@))
    &&& forall|k: int| 0 <= k < saved.len() ==> saved_artist_in_order(#[trigger] saved[k])
}

/// A cached artist lists its albums by release year and each album its songs by
/// track number.
pub open spec fn saved_artist_in_order(a: SaveableArtist) -> bool {
    &&& forall|i: int, j: int|
        0 <= i < j < a.albums@.len() ==> album_year(loaded_songs(#[trigger] a.albums@[i])) <= album_year(
            loaded_songs(#[trigger] a.albums@[j]),
        )
    &&& forall|m: int| 0 <= m < a.albums@.len() ==> songs_sorted(loaded_songs(#[trigger] a.albums@[m]))
}

/// `artist` is the live form of `saved` up to order: the same name and number of
/// albums, each of its albums holding, in some order, the songs of a cached album,
/// and the songs of each cached album held so by one of its albums.
pub open spec fn loads_artist_unordered(saved: SaveableArtist, artist: FsArtist) -> bool {
    &&& artist.name == saved.name
    &&& artist.albums@.len() == saved.albums@.len()
    &&& forall|m: int| 0 <= m < artist.albums@.len() ==> #[trigger] album_from_cache(artist, saved, m)
    &&& forall|w: int| 0 <= w < saved.albums@.len() ==> #[trigger] cache_album_loaded(artist, saved, w)
}

/// The album at `m` of `artist` holds the songs of some album of `saved`.
pub open spec fn album_from_cache(artist: FsArtist, saved: SaveableArtist, m: int) -> bool {
    exists|w: int| 0 <= w < saved.albums@.len() && #[trigger] holds_songs_of(artist.albums@[m], saved.albums@[w])
}

/// The songs of the album at `w` of `saved` are held by some album of `artist`.
pub open spec fn cache_album_loaded(artist: FsArtist, saved: SaveableArtist, w: int) -> bool {
    exists|m: int| 0 <= m < artist.albums@.len() && #[trigger] holds_songs_of(artist.albums@[m], saved.albums@[w])
}

/// `loaded` holds the live form of each artist of `saved`, in some order: as many
/// artists, each the live form (up to order) of a cached one, and each cached one
/// loaded so.
pub open spec fn loads_up_to_order(saved: Seq<SaveableArtist>, loaded: Seq<FsArtist>) -> bool {
    &&& loaded.len() == saved.len()
    &&& forall|k: int| 0 <= k < saved.len() ==> #[trigger] cache_artist_loaded(saved, loaded, k)
    &&& forall|j: int| 0 <= j < loaded.len() ==> #[trigger] artist_from_cache(saved, loaded, j)
}

/// The artist at `k` of `saved` is loaded as some artist of `loaded`.
pub open spec fn cache_artist_loaded(saved: Seq<SaveableArtist>, loaded: Seq<FsArtist>, k: int) -> bool {
    exists|j: int| 0 <= j < loaded.len() && #[trigger] loads_artist_unordered(saved[k], loaded[j])
}

/// The artist at `j` of `loaded` is the live form of some artist of `saved`.
pub open spec fn artist_from_cache(saved: Seq<SaveableArtist>, loaded: Seq<FsArtist>, j: int) -> bool {
    exists|k: int| 0 <= k < saved.len() && #[trigger] loads_artist_unordered(saved[k], loaded[j])
}

/// `album` holds, in some order, the songs that the cached album `saved` stands for.
pub open spec fn holds_songs_of(album: FsAlbum, saved: SaveableAlbum) -> bool {
    album@.to_multiset() == loaded_songs(saved).to_multiset()
}

/// `loaded` is what loading `saved` gives where the cache is in the library's
/// order: artist by artist, the live form of each record.
pub open spec fn loads(saved: Seq<SaveableArtist>, loaded: Seq<FsArtist>) -> bool {
    saved_in_order(saved) ==> {
        &&& loaded.len() == saved.len()
        &&& forall|k: int| 0 <= k < saved.len() ==> loads_artist(saved[k], #[trigger] loaded[k])
    }
}

fn save_song(s: &FsSong) -> (r: SaveableSong)
    ensures
        r == saved_song(*s),
{
    SaveableSong {
        path: s.path.clone(),
        title: s.title.clone(),
        length_ms: s.length_ms,
        track_number: s.number,
        album_name: s.album_name.clone(),
        release_year: s.release_year,
    }
}

fn save_album(a: &FsAlbum) -> (r: SaveableAlbum)
    ensures
        r.songs@ == a@.map_values(|s: FsSong| saved_song(s)),
        r.name@ == album_name_of(a@),
{
    let mut songs: Vec<SaveableSong> = Vec::new();
    let mut i: usize = 0;
    while i < a.songs.len()
        invariant
            i <= a.songs.len(),
            songs@ == a@.subrange(0, i as int).map_values(|s: FsSong| saved_song(s)),
        decreases a.songs.len() - i,
    {
        songs.push(save_song(&a.songs[i]));
        proof {
            assert(a@.subrange(0, i + 1).map_values(|s: FsSong| saved_song(s)) =~= a@.subrange(
                0,
                i as int,
            ).map_values(|s: FsSong| saved_song(s)).push(saved_song(a@[i as int])));
        }
        i = i + 1;
    }
    assert(a@.subrange(0, a@.len() as int) =~= a@);
    SaveableAlbum { songs, name: a.get_name() }
}

fn save_artist(a: &FsArtist) -> (r: SaveableArtist)
    ensures
        saves_artist(*a, r),
{
    let mut albums: Vec<SaveableAlbum> = Vec::new();
    let mut i: usize = 0;
    while i < a.albums.len()
        invariant
            i <= a.albums.len(),
            albums@.len() == i,
            forall|m: int|
                0 <= m < i ==> {
                    &&& (#[trigger] albums@[m]).songs@ == a.albums@[m]@.map_values(
                        |s: FsSong| saved_song(s),
                    )
                    &&& albums@[m].name@ == album_name_of(a.albums@[m]@)
                },
        decreases a.albums.len() - i,
    {
        albums.push(save_album(&a.albums[i]));
        i = i + 1;
    }
    SaveableArtist { albums, name: a.name.clone() }
}

/// The cache form of a list of artists.
pub fn save_artists(artists: &Vec<FsArtist>) -> (r: Vec<SaveableArtist>)
    ensures
        saves(artists@, r@),
{
    let mut r: Vec<SaveableArtist> = Vec::new();
    let mut i: usize = 0;
    while i < artists.len()
        invariant
            i <= artists.len(),
            r@.len() == i,
            forall|k: int| 0 <= k < i ==> saves_artist(artists@[k], #[trigger] r@[k]),
        decreases artists.len() - i,
    {
        r.push(save_artist(&artists[i]));
        i = i + 1;
    }
    r
}

fn load_song(s: SaveableSong) -> (r: FsSong)
    ensures
        r == loaded_song(s),
{
    FsSong::fastnew(s.path, s.title, s.length_ms, s.track_number, s.album_name, s.release_year)
}

fn load_album(a: SaveableAlbum) -> (r: FsAlbum)
    ensures
        r.wf(),
        r@.to_multiset() == loaded_songs(a).to_multiset(),
        songs_sorted(loaded_songs(a)) ==> r@ == loaded_songs(a),
{
    let ghost orig = a.songs@;
    let SaveableAlbum { songs: saved, name: _ } = a;
    let n = saved.len();
    let mut v = saved;
    let mut songs: Vec<FsSong> = Vec::new();
    let mut i: usize = 0;
    while i < n
        invariant
            n == orig.len(),
            i <= n,
            v@ == orig.subrange(i as int, n as int),
            songs@ == orig.subrange(0, i as int).map_values(|s: SaveableSong| loaded_song(s)),
        decreases n - i,
    {
        let x = v.remove(0);
        songs.push(load_song(x));
        proof {
            assert(orig.subrange(0, i + 1).map_values(|s: SaveableSong| loaded_song(s))
                =~= orig.subrange(0, i as int).map_values(|s: SaveableSong| loaded_song(s)).push(
                loaded_song(orig[i as int]),
            ));
        }
        i = i + 1;
    }
    assert(orig.subrange(0, n as int) =~= orig);
    FsAlbum::new(songs)
}

fn load_artist(a: SaveableArtist) -> (r: FsArtist)
    ensures
        r.wf(),
        r.name == a.name,
        loads_artist_unordered(a, r),
        saved_artist_in_order(a) ==> loads_artist(a, r),
{
    let ghost orig = a.albums@;
    let SaveableArtist { albums: saved, name } = a;
    let n = saved.len();
    let mut v = saved;
    let mut albums: Vec<FsAlbum> = Vec::new();
    let mut i: usize = 0;
    while i < n
        invariant
            n == orig.len(),
            i <= n,
            v@ == orig.subrange(i as int, n as int),
            albums@.len() == i,
            forall|m: int| 0 <= m < i ==> (#[trigger] albums@[m]).wf(),
            forall|m: int| 0 <= m < i ==> (#[trigger] albums@[m])@.to_multiset() == loaded_songs(orig[m]).to_multiset(),
            forall|m: int|
                0 <= m < i && songs_sorted(loaded_songs(orig[m])) ==> (#[trigger] albums@[m])@
                    == loaded_songs(orig[m]),
        decreases n - i,
    {
        let x = v.remove(0);
        albums.push(load_album(x));
        i = i + 1;
    }
    let ghost pre = albums@;
    proof {
        if saved_artist_in_order(a) {
            assert forall|p: int, q: int| 0 <= p < q < pre.len() implies album_year(pre[p]@)
                <= album_year(pre[q]@) by {
                assert(songs_sorted(loaded_songs(orig[p])));
                assert(songs_sorted(loaded_songs(orig[q])));
                assert(album_year(loaded_songs(orig[p])) <= album_year(loaded_songs(orig[q])));
            }
        }
    }
    let r = FsArtist::new_2(albums, name);
    proof {
        assert forall|k: int| 0 <= k < r.albums@.len() implies #[trigger] r.albums@[k].wf() by {
            assert(r.albums@.contains(r.albums@[k]));
            assert(r.albums@.to_multiset().count(r.albums@[k]) > 0);
            assert(pre.to_multiset().count(r.albums@[k]) > 0);
            assert(pre.contains(r.albums@[k]));
        }
        if saved_artist_in_order(a) {
            assert forall|m: int| 0 <= m < orig.len() implies (#[trigger] r.albums@[m])@ == loaded_songs(
                orig[m],
            ) by {
                assert(songs_sorted(loaded_songs(orig[m])));
            }
        }
        lemma_same_members(r.albums@, pre);
        assert(r.albums@.len() == r.albums@.to_multiset().len());
        assert(pre.len() == pre.to_multiset().len());
        assert forall|m: int| 0 <= m < r.albums@.len() implies #[trigger] album_from_cache(r, a, m) by {
            assert(pre.contains(r.albums@[m]));
            let w = choose|w: int| 0 <= w < pre.len() && pre[w] == r.albums@[m];
            assert(pre[w]@.to_multiset() == loaded_songs(orig[w]).to_multiset());
            assert(orig[w] == a.albums@[w]);
            assert(holds_songs_of(r.albums@[m], a.albums@[w]));
            assert(holds_songs_of(r.albums@[m], a.albums@[w]));
        }
        assert forall|w: int| 0 <= w < a.albums@.len() implies #[trigger] cache_album_loaded(r, a, w) by {
            assert(r.albums@.contains(pre[w]));
            let m = choose|m: int| 0 <= m < r.albums@.len() && r.albums@[m] == pre[w];
            assert(pre[w]@.to_multiset() == loaded_songs(orig[w]).to_multiset());
            assert(orig[w] == a.albums@[w]);
            assert(holds_songs_of(r.albums@[m], a.albums@[w]));
        }
        assert(orig == a.albums@);
        assert(r.albums@.len() == a.albums@.len());
        assert(loads_artist_unordered(a, r));
    }
    r
}

/// The live artists of a cache, in the library's order: artists by name ignoring
/// case, albums by release year, songs by track number. Where the cache is
/// already in that order, each artist is exactly what its record stands for.
pub fn load_artists(saved: Vec<SaveableArtist>) -> (r: Vec<FsArtist>)
    ensures
        loads_up_to_order(saved@, r@),
        artists_sorted(r@),
        artists_wf(r@),
        loads(saved@, r@),
{
    let ghost orig = saved@;
    let n = saved.len();
    let mut v = saved;
    let mut artists: Vec<FsArtist> = Vec::new();
    let mut i: usize = 0;
    while i < n
        invariant
            n == orig.len(),
            i <= n,
            v@ == orig.subrange(i as int, n as int),
            artists@.len() == i,
            forall|k: int| 0 <= k < i ==> (#[trigger] artists@[k]).wf(),
            forall|k: int| 0 <= k < i ==> (#[trigger] artists@[k]).name == orig[k].name,
            forall|k: int| 0 <= k < i ==> loads_artist_unordered(orig[k], #[trigger] artists@[k]),
            forall|k: int|
                0 <= k < i && saved_artist_in_order(orig[k]) ==> loads_artist(
                    orig[k],
                    #[trigger] artists@[k],
                ),
        decreases n - i,
    {
        let x = v.remove(0);
        artists.push(load_artist(x));
        i = i + 1;
    }
    let ghost pre = artists@;
    proof {
        if saved_in_order(orig) {
            assert forall|p: int, q: int| 0 <= p < q < pre.len() implies chars_le(
                lower_of(#[trigger] pre[p].name@),
                lower_of(#[trigger] pre[q].name@),
            ) by {
                assert(pre[p].name == orig[p].name);
                assert(pre[q].name == orig[q].name);
            }
        }
    }
    let r = sort_artists(artists);
    proof {
        assert(r@.len() == r@.to_multiset().len());
        lemma_same_members(r@, pre);
        assert forall|k: int| 0 <= k < saved@.len() implies #[trigger] cache_artist_loaded(saved@, r@, k) by {
            assert(r@.contains(pre[k]));
            let j = choose|j: int| 0 <= j < r@.len() && r@[j] == pre[k];
            assert(loads_artist_unordered(orig[k], r@[j]));
            assert(orig[k] == saved@[k]);
            assert(loads_artist_unordered(saved@[k], r@[j]));
        }
        assert forall|j: int| 0 <= j < r@.len() implies #[trigger] artist_from_cache(saved@, r@, j) by {
            assert(pre.contains(r@[j]));
            let k = choose|k: int| 0 <= k < pre.len() && pre[k] == r@[j];
            assert(loads_artist_unordered(orig[k], r@[j]));
            assert(orig[k] == saved@[k]);
            assert(loads_artist_unordered(saved@[k], r@[j]));
        }
        assert forall|k: int| 0 <= k < r@.len() implies #[trigger] r@[k].wf() by {
            assert(r@.contains(r@[k]));
            assert(r@.to_multiset().count(r@[k]) > 0);
            assert(pre.to_multiset().count(r@[k]) > 0);
            assert(pre.contains(r@[k]));
        }
        if saved_in_order(orig) {
            assert forall|k: int| 0 <= k < orig.len() implies loads_artist(orig[k], #[trigger] r@[k]) by {
                assert(saved_artist_in_order(orig[k]));
            }
        }
    }
    r
}

proof fn lemma_song_round_trip(s: Seq<FsSong>)
    ensures
        s.map_values(|x: FsSong| saved_song(x)).map_values(|y: SaveableSong| loaded_song(y)) == s,
{
    assert(s.map_values(|x: FsSong| saved_song(x)).map_values(|y: SaveableSong| loaded_song(y)) =~= s);
}

/// Saving then loading gives the library back: for artists in the library's
/// order, the cache form that `save_artists` makes loads, through
/// `load_artists`, into the same artists with the same albums and songs, every
/// cached field (path, title, length, track number, album name, release year)
/// equal.
pub proof fn lemma_cache_round_trip(
    artists: Seq<FsArtist>,
    saved: Seq<SaveableArtist>,
    loaded: Seq<FsArtist>,
)
    requires
        artists_sorted(artists),
        artists_wf(artists),
        saves(artists, saved),
        loads(saved, loaded),
    ensures
        loaded.len() == artists.len(),
        forall|k: int| 0 <= k < artists.len() ==> (#[trigger] loaded[k])@ == artists[k]@,
{
    assert forall|k: int| 0 <= k < saved.len() implies saved_artist_in_order(#[trigger] saved[k]) by {
        let art = artists[k];
        assert(saves_artist(art, saved[k]));
        assert(art.wf());
        assert forall|m: int| 0 <= m < saved[k].albums@.len() implies loaded_songs(
            #[trigger] saved[k].albums@[m],
        ) == art.albums@[m]@ by {
            lemma_song_round_trip(art.albums@[m]@);
        }
        assert forall|i: int, j: int| 0 <= i < j < saved[k].albums@.len() implies album_year(
            loaded_songs(#[trigger] saved[k].albums@[i]),
        ) <= album_year(loaded_songs(#[trigger] saved[k].albums@[j])) by {
            assert(loaded_songs(saved[k].albums@[i]) == art.albums@[i]@);
            assert(loaded_songs(saved[k].albums@[j]) == art.albums@[j]@);
        }
        assert forall|m: int| 0 <= m < saved[k].albums@.len() implies songs_sorted(
            loaded_songs(#[trigger] saved[k].albums@[m]),
        ) by {
            assert(loaded_songs(saved[k].albums@[m]) == art.albums@[m]@);
            assert(art.albums@[m].wf());
        }
    }
    assert forall|i: int, j: int| 0 <= i < j < saved.len() implies chars_le(
        lower_of(#[trigger] saved[i].name@),
        lower_of(#[trigger] saved[j].name@),
    ) by {
        assert(saves_artist(artists[i], saved[i]));
        assert(saves_artist(artists[j], saved[j]));
    }
    assert(saved_in_order(saved));
    assert forall|k: int| 0 <= k < artists.len() implies (#[trigger] loaded[k])@ == artists[k]@ by {
        let art = artists[k];
        assert(saves_artist(art, saved[k]));
        assert(loads_artist(saved[k], loaded[k]));
        assert forall|m: int| 0 <= m < art.albums@.len() implies (#[trigger] loaded[k].albums@[m])@
            == art.albums@[m]@ by {
            lemma_song_round_trip(art.albums@[m]@);
        }
        assert(albums_view(loaded[k].albums@) =~= albums_view(art.albums@));
    }
}

impl MusicRepository {
    /// The cache form of the current snapshot, to be persisted.
    pub fn cache_artists(&self) -> (r: Vec<SaveableArtist>)
        ensures
            saves(self.artists@, r@),
    {
        save_artists(&self.artists)
    }

    /// Replaces the snapshot with the artists of a cache.
    pub fn load_cached_artists(&mut self, saved: Vec<SaveableArtist>)
        ensures
            final(self).wf(),
            final(self).path == old(self).path,
            loads_up_to_order(saved@, final(self).artists@),
            loads(saved@, final(self).artists@),
    {
        self.artists = load_artists(saved);
    }
}

} // verus!
