//! The domain model: songs backed by files, albums and artists, with their orders.
use vstd::prelude::*;
use vstd::seq_lib::*;
use crate::text::{file_name_of, file_name_str, parent_of, parent_str, str_eq};

verus! {

broadcast use group_to_multiset_ensures;

/// The artist of a file in the library layout `<root>/<artist>/<album>/<file>`:
/// the name of the directory above the file's directory.
pub open spec fn artist_of_path(p: Seq<char>) -> Seq<char> {
    file_name_of(parent_of(parent_of(p)))
}

/// The container types that the library plays.
pub open spec fn is_audio_extension(e: Seq<char>) -> bool {
    e == "mp3"@ || e == "flac"@ || e == "wav"@ || e == "m4a"@
}

/// What was read from one file on disk: its detected container type and its tags.
pub struct FileProbe {
    pub path: String,
    /// The extension of the detected container type, if one was detected.
    pub extension: Option<String>,
    pub title: Option<String>,
    pub track_number: Option<u16>,
    pub album_title: Option<String>,
    pub year: Option<i32>,
    pub duration_ms: u64,
}

/// A song backed by a file of the local library.
pub struct FsSong {
    pub path: String,
    pub title: String,
    /// Duration in milliseconds.
    pub length_ms: u64,
    pub number: u16,
    pub album_name: String,
    /// Release year; 0 when unknown.
    pub release_year: i32,
}

impl Clone for FsSong {
    fn clone(&self) -> (r: Self)
        ensures
            r == *self,
    {
        FsSong {
            path: self.path.clone(),
            title: self.title.clone(),
            length_ms: self.length_ms,
            number: self.number,
            album_name: self.album_name.clone(),
            release_year: self.release_year,
        }
    }
}

impl FsSong {
    pub open spec fn artist_name_spec(&self) -> Seq<char> {
        artist_of_path(self.path@)
    }

    /// Builds a song from what was read of a file; files that are not audio of a
    /// supported type, or lack a title or a track number, give `None`.
    pub fn new(probe: FileProbe) -> (r: Option<FsSong>)
        ensures
            match r {
                Some(s) => {
                    &&& probe.extension is Some && is_audio_extension(probe.extension->0@)
                    &&& probe.title is Some && probe.track_number is Some
                    &&& s.path == probe.path && s.title == probe.title->0
                    &&& s.length_ms == probe.duration_ms && s.number == probe.track_number->0
                    &&& s.album_name@ == match probe.album_title {
                        Some(a) => a@,
                        None => Seq::<char>::empty(),
                    }
                    &&& s.release_year == match probe.year {
                        Some(y) => y,
                        None => 0,
                    }
                },
                None => !(probe.extension is Some && is_audio_extension(probe.extension->0@)
                    && probe.title is Some && probe.track_number is Some),
            },
    {
        let supported = match &probe.extension {
            Some(e) => {
                let e = e.as_str();
                proof {
                    reveal_strlit("mp3");
                    reveal_strlit("flac");
                    reveal_strlit("wav");
                    reveal_strlit("m4a");
                }
                str_eq(e, "mp3") || str_eq(e, "flac") || str_eq(e, "wav") || str_eq(e, "m4a")
            },
            None => false,
        };
        if !supported {
            return None;
        }
        let FileProbe { path, extension: _, title, track_number, album_title, year, duration_ms } =
            probe;
        let title = match title {
            Some(t) => t,
            None => return None,
        };
        let number = match track_number {
            Some(n) => n,
            None => return None,
        };
        let album_name = match album_title {
            Some(a) => a,
            None => String::new(),
        };
        let release_year = match year {
            Some(y) => y,
            None => 0,
        };
        Some(FsSong { path, title, length_ms: duration_ms, number, album_name, release_year })
    }

    /// Rebuilds a song from its cached fields, without reading the file.
    pub fn fastnew(
        path: String,
        title: String,
        length_ms: u64,
        number: u16,
        album_name: String,
        release_year: i32,
    ) -> (r: FsSong)
        ensures
            r == (FsSong { path, title, length_ms, number, album_name, release_year }),
    {
        FsSong { path, title, length_ms, number, album_name, release_year }
    }
}

/// A song, whatever backs it: its metadata.
pub trait Song: Deleteable {
    spec fn title_spec(&self) -> Seq<char>;

    spec fn artist_spec(&self) -> Seq<char>;

    spec fn album_spec(&self) -> Seq<char>;

    fn get_title(&self) -> (r: String)
        ensures
            r@ == self.title_spec(),
    ;

    fn get_artist_name(&self) -> (r: String)
        ensures
            r@ == self.artist_spec(),
    ;

    fn get_album_name(&self) -> (r: String)
        ensures
            r@ == self.album_spec(),
    ;

    /// The track number, where known.
    fn get_number(&self) -> Option<u16>;

    /// Whole seconds of the song's duration, where known.
    fn get_length_secs(&self) -> Option<u64>;

    /// The release year, where known.
    fn get_release_date(&self) -> Option<i32>;

    /// The file behind the song, for a local one.
    fn get_filepath(&self) -> Option<String>;

    fn is_local(&self) -> bool;
}

impl Song for FsSong {
    open spec fn title_spec(&self) -> Seq<char> {
        self.title@
    }

    open spec fn artist_spec(&self) -> Seq<char> {
        self.artist_name_spec()
    }

    open spec fn album_spec(&self) -> Seq<char> {
        self.album_name@
    }

    fn get_title(&self) -> (r: String)
        ensures
            r == self.title,
    {
        self.title.clone()
    }

    /// The artist, taken from the library layout of the file's path.
    fn get_artist_name(&self) -> (r: String) {
        let album_dir = parent_str(self.path.as_str());
        let artist_dir = parent_str(album_dir);
        String::from_str(file_name_str(artist_dir))
    }

    fn get_album_name(&self) -> (r: String)
        ensures
            r == self.album_name,
    {
        self.album_name.clone()
    }

    fn get_number(&self) -> (r: Option<u16>)
        ensures
            r == Some(self.number),
    {
        Some(self.number)
    }

    fn get_length_secs(&self) -> (r: Option<u64>)
        ensures
            r == Some(self.length_ms / 1000),
    {
        Some(self.length_ms / 1000)
    }

    /// The release year, or `None` where it is unknown.
    fn get_release_date(&self) -> (r: Option<i32>)
        ensures
            r == (if self.release_year == 0 {
                None
            } else {
                Some(self.release_year)
            }),
    {
        if self.release_year == 0 {
            None
        } else {
            Some(self.release_year)
        }
    }

    fn get_filepath(&self) -> (r: Option<String>)
        ensures
            r == Some(self.path),
    {
        Some(self.path.clone())
    }

    fn is_local(&self) -> (r: bool)
        ensures
            r,
    {
        true
    }
}

/// Two sequences with the same multiset hold the same elements.
pub proof fn lemma_same_members<A>(a: Seq<A>, b: Seq<A>)
    requires
        a.to_multiset() == b.to_multiset(),
    ensures
        forall|m: int| 0 <= m < a.len() ==> b.contains(#[trigger] a[m]),
        forall|w: int| 0 <= w < b.len() ==> a.contains(#[trigger] b[w]),
{
    assert forall|m: int| 0 <= m < a.len() implies b.contains(#[trigger] a[m]) by {
        assert(a.to_multiset().count(a[m]) > 0);
        assert(b.to_multiset().count(a[m]) > 0);
    }
    assert forall|w: int| 0 <= w < b.len() implies a.contains(#[trigger] b[w]) by {
        assert(b.to_multiset().count(b[w]) > 0);
        assert(a.to_multiset().count(b[w]) > 0);
    }
}

/// Songs ordered by ascending track number.
pub open spec fn songs_sorted(s: Seq<FsSong>) -> bool {
    forall|i: int, j: int| 0 <= i < j < s.len() ==> s[i].number <= s[j].number
}

/// Sorts songs by ascending track number, keeping songs of equal number in their order.
fn sort_songs(v: Vec<FsSong>) -> (r: Vec<FsSong>)
    ensures
        r@.to_multiset() == v@.to_multiset(),
        songs_sorted(r@),
        songs_sorted(v@) ==> r@ == v@,
{
    let ghost orig = v@;
    let n = v.len();
    let mut v = v;
    let mut r: Vec<FsSong> = Vec::new();
    let mut i: usize = 0;
    while i < n
        invariant
            n == orig.len(),
            i <= n,
            v@ == orig.subrange(i as int, n as int),
            r@.to_multiset() == orig.subrange(0, i as int).to_multiset(),
            songs_sorted(r@),
            songs_sorted(orig) ==> r@ == orig.subrange(0, i as int),
        decreases n - i,
    {
        let x = v.remove(0);
        let mut j: usize = r.len();
        while j > 0 && r[j - 1].number > x.number
            invariant
                j <= r.len(),
                forall|k: int| j <= k < r.len() ==> r@[k].number > x.number,
                songs_sorted(orig) ==> r@ == orig.subrange(0, i as int),
                songs_sorted(orig) ==> j == r.len(),
                i < n,
                n == orig.len(),
                x == orig[i as int],
            decreases j,
        {
            j = j - 1;
        }
        let ghost before = r@;
        r.insert(j, x);
        proof {
            assert(orig.subrange(0, i + 1) == orig.subrange(0, i as int).push(orig[i as int]));
            if songs_sorted(orig) {
                assert(r@ =~= orig.subrange(0, i + 1));
            }
            assert forall|a: int, b: int| 0 <= a < b < r@.len() implies r@[a].number
                <= r@[b].number by {
                if b < j {
                } else if b == j {
                    if a < j - 1 {
                        assert(before[a].number <= before[j - 1].number);
                    }
                } else if a == j {
                    assert(before[b - 1].number > x.number);
                } else if a < j {
                    assert(r@[b] == before[b - 1]);
                } else {
                }
            }
        }
        i = i + 1;
    }
    assert(orig.subrange(0, n as int) == orig);
    r
}

/// The first known release year among `s[i..]`, or 0.
pub open spec fn first_year_from(s: Seq<FsSong>, i: int) -> i32
    decreases s.len() - i,
{
    if i < 0 || i >= s.len() {
        0
    } else if s[i].release_year != 0 {
        s[i].release_year
    } else {
        first_year_from(s, i + 1)
    }
}

/// The release year of an album: the first known year among its songs, or 0.
pub open spec fn album_year(songs: Seq<FsSong>) -> i32 {
    first_year_from(songs, 0)
}

/// The album name of a song list: the first song's, or empty.
pub open spec fn album_name_of(songs: Seq<FsSong>) -> Seq<char> {
    if songs.len() > 0 {
        songs[0].album_name@
    } else {
        Seq::empty()
    }
}

/// The artist of a song list: the first song's, or empty.
pub open spec fn album_artist_of(songs: Seq<FsSong>) -> Seq<char> {
    if songs.len() > 0 {
        songs[0].artist_name_spec()
    } else {
        Seq::empty()
    }
}

/// Copies a list of songs.
pub fn clone_songs(v: &Vec<FsSong>) -> (r: Vec<FsSong>)
    ensures
        r@ == v@,
{
    let mut r: Vec<FsSong> = Vec::new();
    let mut i: usize = 0;
    while i < v.len()
        invariant
            i <= v.len(),
            r@ == v@.subrange(0, i as int),
        decreases v.len() - i,
    {
        r.push(v[i].clone());
        i = i + 1;
    }
    assert(r@ =~= v@);
    r
}

/// An album of the local library: songs in ascending track-number order.
pub struct FsAlbum {
    pub songs: Vec<FsSong>,
}

impl View for FsAlbum {
    type V = Seq<FsSong>;

    open spec fn view(&self) -> Seq<FsSong> {
        self.songs@
    }
}

impl Clone for FsAlbum {
    fn clone(&self) -> (r: Self)
        ensures
            r@ == self@,
    {
        FsAlbum { songs: clone_songs(&self.songs) }
    }
}

impl FsAlbum {
    /// Songs stand in ascending track-number order.
    pub open spec fn wf(&self) -> bool {
        songs_sorted(self@)
    }

    /// Makes an album of `songs`, ordered by track number.
    pub fn new(songs: Vec<FsSong>) -> (r: FsAlbum)
        ensures
            r@.to_multiset() == songs@.to_multiset(),
            r.wf(),
            songs_sorted(songs@) ==> r@ == songs@,
    {
        FsAlbum { songs: sort_songs(songs) }
    }
}

/// An album, whatever backs it: its metadata and its songs.
pub trait Album: Deleteable {
    spec fn name_spec(&self) -> Seq<char>;

    spec fn artist_spec(&self) -> Seq<char>;

    fn get_name(&self) -> (r: String)
        ensures
            r@ == self.name_spec(),
    ;

    fn get_artist_name(&self) -> (r: String)
        ensures
            r@ == self.artist_spec(),
    ;

    /// The release year, 0 where unknown.
    fn get_release_date(&self) -> i32;

    fn get_songs(&self) -> Vec<FsSong>;

    /// The album stands for a group of releases not yet resolved to one tracklist.
    fn is_groups(&self) -> bool;

    /// The catalog identifier, empty for none.
    fn get_id(&self) -> String;

    fn is_local(&self) -> bool;
}

impl Album for FsAlbum {
    open spec fn name_spec(&self) -> Seq<char> {
        album_name_of(self@)
    }

    open spec fn artist_spec(&self) -> Seq<char> {
        album_artist_of(self@)
    }

    /// The album name, taken from the first song.
    fn get_name(&self) -> (r: String)
        ensures
            r@ == album_name_of(self@),
    {
        if self.songs.len() > 0 {
            self.songs[0].get_album_name()
        } else {
            String::new()
        }
    }

    /// The artist, taken from the first song.
    fn get_artist_name(&self) -> (r: String)
        ensures
            r@ == album_artist_of(self@),
    {
        if self.songs.len() > 0 {
            self.songs[0].get_artist_name()
        } else {
            String::new()
        }
    }

    /// The first known release year among the songs, or 0.
    fn get_release_date(&self) -> (r: i32)
        ensures
            r == album_year(self@),
    {
        let mut i: usize = 0;
        while i < self.songs.len()
            invariant
                i <= self.songs.len(),
                album_year(self@) == first_year_from(self@, i as int),
            decreases self.songs.len() - i,
        {
            if self.songs[i].release_year != 0 {
                return self.songs[i].release_year;
            }
            i = i + 1;
        }
        0
    }

    fn get_songs(&self) -> (r: Vec<FsSong>)
        ensures
            r@ == self@,
    {
        clone_songs(&self.songs)
    }

    /// A local album is always one concrete tracklist.
    fn is_groups(&self) -> (r: bool)
        ensures
            !r,
    {
        false
    }

    /// Local albums carry no catalog identifier.
    fn get_id(&self) -> (r: String)
        ensures
            r@ == Seq::<char>::empty(),
    {
        String::new()
    }

    fn is_local(&self) -> (r: bool)
        ensures
            r,
    {
        true
    }
}

/// Albums of release year `y`.
pub open spec fn of_year(y: i32) -> spec_fn(FsAlbum) -> bool {
    |a: FsAlbum| album_year(a@) == y
}

proof fn lemma_filter_none<A>(s: Seq<A>, p: spec_fn(A) -> bool)
    requires
        forall|k: int| 0 <= k < s.len() ==> !p(#[trigger] s[k]),
    ensures
        s.filter(p) == Seq::<A>::empty(),
    decreases s.len(),
{
    reveal(Seq::filter);
    if s.len() > 0 {
        assert forall|k: int| 0 <= k < s.drop_last().len() implies !p(#[trigger] s.drop_last()[k]) by {
            assert(s.drop_last()[k] == s[k]);
        }
        lemma_filter_none(s.drop_last(), p);
        assert(!p(s[s.len() - 1]));
    }
}

/// Inserting `x` before a tail of albums all later than `x` adds `x` to the end of
/// its year's albums and leaves every other year's as they were.
proof fn lemma_insert_keeps_years(r: Seq<FsAlbum>, j: int, x: FsAlbum, y: i32)
    requires
        0 <= j <= r.len(),
        forall|k: int| j <= k < r.len() ==> album_year((#[trigger] r[k])@) > album_year(x@),
    ensures
        r.insert(j, x).filter(of_year(y)) == if album_year(x@) == y {
            r.filter(of_year(y)).push(x)
        } else {
            r.filter(of_year(y))
        },
{
    broadcast use Seq::filter_distributes_over_add;

    let a = r.subrange(0, j);
    let b = r.subrange(j, r.len() as int);
    assert(r == a + b);
    assert(r.insert(j, x) == (a + seq![x]) + b);
    a.lemma_filter_push(x, of_year(y));
    assert(a + seq![x] == a.push(x));
    if album_year(x@) == y {
        assert forall|k: int| 0 <= k < b.len() implies !(of_year(y))(#[trigger] b[k]) by {
            assert(b[k] == r[j + k]);
        }
        lemma_filter_none(b, of_year(y));
        assert(b.filter(of_year(y)) + Seq::<FsAlbum>::empty() == b.filter(of_year(y)));
        assert((a.filter(of_year(y)).push(x) + b.filter(of_year(y))) == (a.filter(of_year(y)) + b.filter(
            of_year(y),
        )).push(x));
    }
}

/// Albums ordered by ascending release year.
pub open spec fn albums_sorted(s: Seq<FsAlbum>) -> bool {
    forall|i: int, j: int| 0 <= i < j < s.len() ==> album_year(s[i]@) <= album_year(s[j]@)
}

/// Sorts albums by ascending release year, keeping albums of equal year in their order.
pub(crate) fn sort_albums(v: Vec<FsAlbum>) -> (r: Vec<FsAlbum>)
    ensures
        r@.to_multiset() == v@.to_multiset(),
        albums_sorted(r@),
        albums_sorted(v@) ==> r@ == v@,
        forall|y: i32| #[trigger] r@.filter(of_year(y)) == v@.filter(of_year(y)),
{
    let ghost orig = v@;
    let n = v.len();
    let mut v = v;
    let mut r: Vec<FsAlbum> = Vec::new();
    let mut i: usize = 0;
    while i < n
        invariant
            n == orig.len(),
            i <= n,
            v@ == orig.subrange(i as int, n as int),
            r@.to_multiset() == orig.subrange(0, i as int).to_multiset(),
            albums_sorted(r@),
            albums_sorted(orig) ==> r@ == orig.subrange(0, i as int),
            forall|y: i32| #[trigger] r@.filter(of_year(y)) == orig.subrange(0, i as int).filter(of_year(y)),
        decreases n - i,
    {
        let x = v.remove(0);
        let xy = x.get_release_date();
        let mut j: usize = r.len();
        while j > 0 && r[j - 1].get_release_date() > xy
            invariant
                j <= r.len(),
                xy == album_year(x@),
                forall|k: int| j <= k < r.len() ==> album_year(r@[k]@) > xy,
                albums_sorted(orig) ==> r@ == orig.subrange(0, i as int),
                albums_sorted(orig) ==> j == r.len(),
                i < n,
                n == orig.len(),
                x == orig[i as int],
            decreases j,
        {
            j = j - 1;
        }
        let ghost before = r@;
        r.insert(j, x);
        proof {
            assert(orig.subrange(0, i + 1) == orig.subrange(0, i as int).push(orig[i as int]));
            if albums_sorted(orig) {
                assert(r@ =~= orig.subrange(0, i + 1));
            }
            assert forall|y: i32| #[trigger] r@.filter(of_year(y)) == orig.subrange(0, i + 1).filter(of_year(y)) by {
                lemma_insert_keeps_years(before, j as int, x, y);
                orig.subrange(0, i as int).lemma_filter_push(orig[i as int], of_year(y));
            }
            assert forall|a: int, b: int| 0 <= a < b < r@.len() implies album_year(r@[a]@)
                <= album_year(r@[b]@) by {
                if b < j {
                } else if b == j {
                    if a < j - 1 {
                        assert(album_year(before[a]@) <= album_year(before[j - 1]@));
                    }
                } else if a == j {
                    assert(album_year(before[b - 1]@) > xy);
                } else if a < j {
                    assert(r@[b] == before[b - 1]);
                } else {
                }
            }
        }
        i = i + 1;
    }
    assert(orig.subrange(0, n as int) == orig);
    r
}

/// Copies a list of albums.
pub fn clone_albums(v: &Vec<FsAlbum>) -> (r: Vec<FsAlbum>)
    ensures
        r@.len() == v@.len(),
        forall|k: int| 0 <= k < v@.len() ==> #[trigger] r@[k]@ == v@[k]@,
{
    let mut r: Vec<FsAlbum> = Vec::new();
    let mut i: usize = 0;
    while i < v.len()
        invariant
            i <= v.len(),
            r@.len() == i,
            forall|k: int| 0 <= k < i ==> #[trigger] r@[k]@ == v@[k]@,
        decreases v.len() - i,
    {
        r.push(v[i].clone());
        i = i + 1;
    }
    r
}

/// What an artist holds: its name and the song lists of its albums.
pub open spec fn albums_view(s: Seq<FsAlbum>) -> Seq<Seq<FsSong>> {
    s.map_values(|a: FsAlbum| a@)
}

/// An artist of the local library: albums in ascending release-year order.
pub struct FsArtist {
    pub name: String,
    pub albums: Vec<FsAlbum>,
}

impl View for FsArtist {
    type V = (Seq<char>, Seq<Seq<FsSong>>);

    open spec fn view(&self) -> (Seq<char>, Seq<Seq<FsSong>>) {
        (self.name@, albums_view(self.albums@))
    }
}

impl Clone for FsArtist {
    fn clone(&self) -> (r: Self)
        ensures
            r@ == self@,
    {
        let albums = clone_albums(&self.albums);
        assert(albums_view(albums@) =~= albums_view(self.albums@));
        FsArtist { name: self.name.clone(), albums }
    }
}

impl FsArtist {
    /// Albums stand in ascending release-year order, each in track-number order.
    pub open spec fn wf(&self) -> bool {
        &&& albums_sorted(self.albums@)
        &&& forall|k: int| 0 <= k < self.albums@.len() ==> #[trigger] self.albums@[k].wf()
    }

    /// Makes an artist named `name` of `albums`, ordered by release year.
    pub fn new_2(albums: Vec<FsAlbum>, name: String) -> (r: FsArtist)
        ensures
            r.name == name,
            r.albums@.to_multiset() == albums@.to_multiset(),
            albums_sorted(r.albums@),
            albums_sorted(albums@) ==> r.albums@ == albums@,
            forall|y: i32| #[trigger] r.albums@.filter(of_year(y)) == albums@.filter(of_year(y)),
    {
        FsArtist { name, albums: sort_albums(albums) }
    }
}

/// An artist, whatever backs it: its name and its albums.
pub trait Artist: Deleteable {
    spec fn name_spec(&self) -> Seq<char>;

    fn get_albums(&self) -> Vec<FsAlbum>;

    fn get_name(&self) -> (r: String)
        ensures
            r@ == self.name_spec(),
    ;

    fn is_local(&self) -> bool;
}

impl Artist for FsArtist {
    open spec fn name_spec(&self) -> Seq<char> {
        self.name@
    }

    fn get_albums(&self) -> (r: Vec<FsAlbum>)
        ensures
            albums_view(r@) == albums_view(self.albums@),
    {
        let r = clone_albums(&self.albums);
        assert(albums_view(r@) =~= albums_view(self.albums@));
        r
    }

    fn get_name(&self) -> (r: String)
        ensures
            r == self.name,
    {
        self.name.clone()
    }

    fn is_local(&self) -> (r: bool)
        ensures
            r,
    {
        true
    }
}

/// The paths of a list of songs, in order.
pub open spec fn song_paths(s: Seq<FsSong>) -> Seq<Seq<char>> {
    s.map_values(|x: FsSong| x.path@)
}

/// The paths of every song of a list of albums, album by album.
pub open spec fn album_paths(albums: Seq<Seq<FsSong>>) -> Seq<Seq<char>> {
    albums.map_values(|a: Seq<FsSong>| song_paths(a)).flatten()
}

/// The views of a list of strings.
pub open spec fn strings_view(v: Seq<String>) -> Seq<Seq<char>> {
    v.map_values(|s: String| s@)
}

/// An entity whose files can be removed from disk. Removing the entity removes
/// exactly the files that `files_to_delete` lists, each once.
pub trait Deleteable {
    /// The files that the entity owns.
    spec fn owned_files(&self) -> Seq<Seq<char>>;

    /// Lists the files to remove when the entity is deleted.
    fn files_to_delete(&self) -> (r: Vec<String>)
        ensures
            strings_view(r@) == self.owned_files(),
    ;
}

impl Deleteable for FsSong {
    open spec fn owned_files(&self) -> Seq<Seq<char>> {
        seq![self.path@]
    }

    fn files_to_delete(&self) -> (r: Vec<String>) {
        let r = vec![self.path.clone()];
        assert(strings_view(r@) =~= seq![self.path@]);
        r
    }
}

/// Appends the paths of `songs` to `out`.
fn push_song_paths(out: &mut Vec<String>, songs: &Vec<FsSong>)
    ensures
        strings_view(final(out)@) == strings_view(old(out)@) + song_paths(songs@),
{
    let ghost start = strings_view(out@);
    let mut i: usize = 0;
    while i < songs.len()
        invariant
            i <= songs.len(),
            strings_view(out@) == start + song_paths(songs@.subrange(0, i as int)),
        decreases songs.len() - i,
    {
        let ghost prev = out@;
        out.push(songs[i].path.clone());
        proof {
            assert(strings_view(out@) =~= strings_view(prev).push(songs@[i as int].path@));
            assert(song_paths(songs@.subrange(0, i + 1)) =~= song_paths(
                songs@.subrange(0, i as int),
            ).push(songs@[i as int].path@));
            assert(strings_view(out@) =~= start + song_paths(songs@.subrange(0, i + 1)));
        }
        i = i + 1;
    }
    assert(songs@.subrange(0, songs@.len() as int) =~= songs@);
}

impl Deleteable for FsAlbum {
    open spec fn owned_files(&self) -> Seq<Seq<char>> {
        song_paths(self@)
    }

    fn files_to_delete(&self) -> (r: Vec<String>) {
        let mut r: Vec<String> = Vec::new();
        assert(strings_view(r@) =~= Seq::<Seq<char>>::empty());
        push_song_paths(&mut r, &self.songs);
        assert(strings_view(r@) =~= song_paths(self@));
        r
    }
}

impl Deleteable for FsArtist {
    open spec fn owned_files(&self) -> Seq<Seq<char>> {
        album_paths(albums_view(self.albums@))
    }

    fn files_to_delete(&self) -> (r: Vec<String>) {
        let mut r: Vec<String> = Vec::new();
        let mut i: usize = 0;
        while i < self.albums.len()
            invariant
                i <= self.albums.len(),
                strings_view(r@) == album_paths(albums_view(self.albums@.subrange(0, i as int))),
            decreases self.albums.len() - i,
        {
            push_song_paths(&mut r, &self.albums[i].songs);
            proof {
                let pre = albums_view(self.albums@.subrange(0, i as int));
                let a = self.albums@[i as int]@;
                assert(albums_view(self.albums@.subrange(0, i + 1)) =~= pre.push(a));
                assert(pre.push(a).map_values(|x: Seq<FsSong>| song_paths(x)) =~= pre.map_values(
                    |x: Seq<FsSong>| song_paths(x),
                ).push(song_paths(a)));
                pre.map_values(|x: Seq<FsSong>| song_paths(x)).lemma_flatten_push(song_paths(a));
            }
            i = i + 1;
        }
        assert(self.albums@.subrange(0, self.albums@.len() as int) =~= self.albums@);
        r
    }
}

} // verus!
