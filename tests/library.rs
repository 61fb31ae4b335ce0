use mplayer::cache::{load_artists, save_artists, SaveableAlbum, SaveableArtist, SaveableSong};
use mplayer::model::{Album, Deleteable, FileProbe, FsAlbum, FsArtist, FsSong, Song};
use mplayer::player::SongInfo;
use mplayer::repository::MusicRepository;
use mplayer::scan::scan_repository;

fn song(artist: &str, album: &str, title: &str, number: u16, year: i32) -> FsSong {
    FsSong::fastnew(
        format!("/music/lib/{}/{}/{}.mp3", artist, album, title),
        title.to_string(),
        61_500,
        number,
        album.to_string(),
        year,
    )
}

fn probe(ext: Option<&str>, title: Option<&str>, track: Option<u16>) -> FileProbe {
    FileProbe {
        path: "/music/lib/Band/Record/a.mp3".to_string(),
        extension: ext.map(|e| e.to_string()),
        title: title.map(|t| t.to_string()),
        track_number: track,
        album_title: None,
        year: Some(1999),
        duration_ms: 185_000,
    }
}

fn names(artists: &[FsArtist]) -> Vec<String> {
    artists.iter().map(|a| a.name.clone()).collect()
}

fn titles(album: &FsAlbum) -> Vec<String> {
    album.songs.iter().map(|s| s.title.clone()).collect()
}

fn library() -> MusicRepository {
    let mut repo = MusicRepository::new("/music/lib".to_string());
    repo.rescan(vec![
        song("beta", "Second", "b2", 2, 2001),
        song("beta", "Second", "b1", 1, 2001),
        song("Alpha", "Late", "l1", 1, 2010),
        song("Alpha", "Early", "e1", 1, 1990),
        song("Alpha", "Early", "e2", 2, 1990),
    ]);
    repo
}

#[test]
fn probe_of_supported_audio_makes_a_song() {
    let s = FsSong::new(probe(Some("flac"), Some("Intro"), Some(3))).unwrap();
    assert_eq!(s.title, "Intro");
    assert_eq!(s.number, 3);
    assert_eq!(s.album_name, "");
    assert_eq!(s.release_year, 1999);
    assert_eq!(s.length_ms, 185_000);
    assert_eq!(s.get_length_secs(), Some(185));
    assert_eq!(s.get_number(), Some(3));
    assert_eq!(s.get_filepath(), Some("/music/lib/Band/Record/a.mp3".to_string()));
    for ext in ["mp3", "wav", "m4a"] {
        assert!(FsSong::new(probe(Some(ext), Some("Intro"), Some(3))).is_some());
    }
}

#[test]
fn probe_without_audio_or_tags_is_skipped() {
    assert!(FsSong::new(probe(Some("png"), Some("Intro"), Some(3))).is_none());
    assert!(FsSong::new(probe(None, Some("Intro"), Some(3))).is_none());
    assert!(FsSong::new(probe(Some("mp3"), None, Some(3))).is_none());
    assert!(FsSong::new(probe(Some("mp3"), Some("Intro"), None)).is_none());
}

#[test]
fn artist_name_comes_from_the_library_layout() {
    let s = song("Some Band", "Record", "x", 1, 0);
    assert_eq!(s.get_artist_name(), "Some Band");
    assert_eq!(s.get_release_date(), None);
    assert_eq!(song("A", "B", "c", 1, 1987).get_release_date(), Some(1987));
}

#[test]
fn album_orders_songs_by_track_number() {
    let a = FsAlbum::new(vec![
        song("A", "R", "three", 3, 0),
        song("A", "R", "one", 1, 0),
        song("A", "R", "two", 2, 2004),
    ]);
    assert_eq!(titles(&a), vec!["one", "two", "three"]);
    assert_eq!(a.get_name(), "R");
    assert_eq!(a.get_artist_name(), "A");
    assert_eq!(a.get_release_date(), 2004);
    assert!(!a.is_groups());
    let empty = FsAlbum::new(vec![]);
    assert_eq!(empty.get_name(), "");
    assert_eq!(empty.get_release_date(), 0);
}

#[test]
fn artist_orders_albums_by_release_year() {
    let late = FsAlbum::new(vec![song("A", "Late", "l", 1, 2012)]);
    let early = FsAlbum::new(vec![song("A", "Early", "e", 1, 1995)]);
    let artist = FsArtist::new_2(vec![late, early], "A".to_string());
    let order: Vec<String> = artist.albums.iter().map(|a| a.get_name()).collect();
    assert_eq!(order, vec!["Early", "Late"]);
}

#[test]
fn deleting_an_artist_lists_every_song_file_once() {
    let a1 = FsAlbum::new(vec![song("A", "X", "x2", 2, 1), song("A", "X", "x1", 1, 1)]);
    let a2 = FsAlbum::new(vec![song("A", "Y", "y1", 1, 2)]);
    let artist = FsArtist::new_2(vec![a2, a1], "A".to_string());
    assert_eq!(
        artist.files_to_delete(),
        vec!["/music/lib/A/X/x1.mp3", "/music/lib/A/X/x2.mp3", "/music/lib/A/Y/y1.mp3"]
    );
    assert_eq!(song("A", "X", "x1", 1, 1).files_to_delete(), vec!["/music/lib/A/X/x1.mp3"]);
}

#[test]
fn scan_sorts_artists_ignoring_case_and_songs_by_track() {
    let repo = library();
    let artists = repo.get_artists();
    assert_eq!(names(&artists), vec!["Alpha", "beta"]);
    let alpha: Vec<String> = artists[0].albums.iter().map(|a| a.get_name()).collect();
    assert_eq!(alpha, vec!["Early", "Late"]);
    assert_eq!(titles(&artists[1].albums[0]), vec!["b1", "b2"]);
    for artist in &artists {
        for album in &artist.albums {
            assert!(album.songs.windows(2).all(|w| w[0].number <= w[1].number));
        }
    }
    for w in artists.windows(2) {
        assert!(w[0].name.to_lowercase() <= w[1].name.to_lowercase());
    }
}

#[test]
fn scan_groups_runs_and_drops_repeated_titles() {
    let artists = scan_repository(vec![
        song("Zed", "One", "a", 1, 0),
        song("Zed", "One", "a", 2, 0),
        song("Zed", "Two", "b", 1, 0),
        song("Zed", "One", "c", 3, 0),
    ]);
    assert_eq!(artists.len(), 1);
    let albums: Vec<(String, Vec<String>)> =
        artists[0].albums.iter().map(|a| (a.get_name(), titles(a))).collect();
    assert_eq!(albums.len(), 3);
    assert!(albums.contains(&("One".to_string(), vec!["a".to_string()])));
    assert!(albums.contains(&("Two".to_string(), vec!["b".to_string()])));
    assert!(albums.contains(&("One".to_string(), vec!["c".to_string()])));
    assert_eq!(artists[0].albums.iter().filter(|a| a.get_name() == "One").count(), 2);
}

#[test]
fn scan_of_nothing_is_empty() {
    assert!(scan_repository(vec![]).is_empty());
}

#[test]
fn removing_an_artist_cascades_and_forgets_it() {
    let mut repo = library();
    let target = repo.get_artists()[0].clone();
    let removed = repo.remove_artist(&target);
    assert_eq!(removed.len(), 1);
    assert_eq!(removed[0].name, "Alpha");
    assert_eq!(
        removed[0].files_to_delete(),
        vec!["/music/lib/Alpha/Early/e1.mp3", "/music/lib/Alpha/Early/e2.mp3", "/music/lib/Alpha/Late/l1.mp3"]
    );
    assert_eq!(names(&repo.get_artists()), vec!["beta"]);
}

#[test]
fn removing_an_unknown_artist_changes_nothing() {
    let mut repo = library();
    let stranger = FsArtist::new_2(vec![], "Nobody".to_string());
    assert!(repo.remove_artist(&stranger).is_empty());
    assert_eq!(names(&repo.get_artists()), vec!["Alpha", "beta"]);
}

#[test]
fn removing_an_album_keeps_the_others() {
    let mut repo = library();
    let early = repo.get_artists()[0].albums[0].clone();
    let removed = repo.remove_album(&early);
    assert_eq!(removed.len(), 1);
    assert_eq!(removed[0].get_name(), "Early");
    let alpha: Vec<String> = repo.get_artists()[0].albums.iter().map(|a| a.get_name()).collect();
    assert_eq!(alpha, vec!["Late"]);
    assert!(repo.remove_album(&FsAlbum::new(vec![])).is_empty());
}

#[test]
fn removing_a_song_keeps_the_album_in_order() {
    let mut repo = library();
    let removed = repo.remove_song(&song("Alpha", "Early", "e1", 1, 1990));
    assert_eq!(removed.len(), 1);
    assert_eq!(removed[0].path, "/music/lib/Alpha/Early/e1.mp3");
    assert_eq!(titles(&repo.get_artists()[0].albums[0]), vec!["e2"]);
    assert!(repo.remove_song(&song("Alpha", "Missing", "zz", 1, 0)).is_empty());
    assert!(repo.remove_song(&song("Ghost", "Early", "e2", 1, 0)).is_empty());
}

#[test]
fn now_playing_leads_to_its_album() {
    let repo = library();
    let info = SongInfo::new("l1".to_string(), "Alpha".to_string(), "Late".to_string(), 61);
    let album = repo.find_current_album(&info).unwrap();
    assert_eq!(titles(&album), vec!["l1"]);
    let lost = SongInfo::new("l1".to_string(), "Alpha".to_string(), "Nope".to_string(), 61);
    assert!(repo.find_current_album(&lost).is_none());
    let nobody = SongInfo::new("l1".to_string(), "Zeta".to_string(), "Late".to_string(), 61);
    assert!(repo.find_current_album(&nobody).is_none());
}

#[test]
fn cache_round_trip_keeps_every_field() {
    let repo = library();
    let saved = repo.cache_artists();
    assert_eq!(saved[0].albums[0].name, "Early");
    assert_eq!(saved[0].albums[0].songs[0].length_ms, 61_500);
    let mut other = MusicRepository::new("/music/lib".to_string());
    other.load_cached_artists(saved);
    let before = repo.get_artists();
    let after = other.get_artists();
    assert_eq!(names(&before), names(&after));
    for (a, b) in before.iter().zip(after.iter()) {
        assert_eq!(a.albums.len(), b.albums.len());
        for (x, y) in a.albums.iter().zip(b.albums.iter()) {
            assert_eq!(x.songs.len(), y.songs.len());
            for (s, t) in x.songs.iter().zip(y.songs.iter()) {
                assert_eq!(
                    (&s.path, &s.title, s.length_ms, s.number, &s.album_name, s.release_year),
                    (&t.path, &t.title, t.length_ms, t.number, &t.album_name, t.release_year)
                );
            }
        }
    }
}

#[test]
fn loading_an_unordered_cache_puts_it_in_order() {
    let rec = |title: &str, n: u16, year: i32| SaveableSong {
        path: format!("/m/{}.mp3", title),
        title: title.to_string(),
        length_ms: 1000,
        track_number: n,
        album_name: "R".to_string(),
        release_year: year,
    };
    let saved = vec![
        SaveableArtist {
            albums: vec![
                SaveableAlbum { songs: vec![rec("late", 1, 2020)], name: "R".to_string() },
                SaveableAlbum { songs: vec![rec("b", 2, 1990), rec("a", 1, 1990)], name: "R".to_string() },
            ],
            name: "zulu".to_string(),
        },
        SaveableArtist { albums: vec![], name: "Echo".to_string() },
    ];
    let artists = load_artists(saved);
    assert_eq!(names(&artists), vec!["Echo", "zulu"]);
    assert_eq!(titles(&artists[1].albums[0]), vec!["a", "b"]);
    assert_eq!(titles(&artists[1].albums[1]), vec!["late"]);
    assert_eq!(save_artists(&artists)[1].albums[0].songs[0].title, "a");
}

#[test]
fn artist_order_folds_case() {
    let artists = scan_repository(vec![
        song("Beta", "B", "b", 1, 0),
        song("alpha", "A", "a", 1, 0),
        song("Gamma", "G", "g", 1, 0),
    ]);
    assert_eq!(names(&artists), vec!["alpha", "Beta", "Gamma"]);
}

#[test]
fn removing_an_artist_removes_every_artist_of_that_name() {
    let mut repo = MusicRepository::new("/music/lib".to_string());
    repo.rescan(vec![
        song("Echo", "One", "a", 1, 0),
        song("Delta", "Two", "b", 1, 0),
        song("Echo", "Three", "c", 1, 0),
    ]);
    assert_eq!(names(&repo.get_artists()), vec!["Delta", "Echo", "Echo"]);
    let echo = FsArtist::new_2(vec![], "Echo".to_string());
    let removed = repo.remove_artist(&echo);
    assert_eq!(removed.len(), 2);
    assert_eq!(names(&repo.get_artists()), vec!["Delta"]);
}

#[test]
fn removing_an_empty_album_changes_nothing() {
    let mut repo = MusicRepository::new("/music/lib".to_string());
    repo.rescan(vec![FsSong::fastnew("loose.mp3".to_string(), "t".to_string(), 1000, 1, String::new(), 0)]);
    assert_eq!(names(&repo.get_artists()), vec![""]);
    assert!(repo.remove_album(&FsAlbum::new(vec![])).is_empty());
    assert_eq!(repo.get_artists()[0].albums.len(), 1);
}

#[test]
fn albums_of_one_year_keep_their_order() {
    let first = FsAlbum::new(vec![song("A", "First", "f", 1, 2000)]);
    let second = FsAlbum::new(vec![song("A", "Second", "s", 1, 2000)]);
    let early = FsAlbum::new(vec![song("A", "Early", "e", 1, 1990)]);
    let artist = FsArtist::new_2(vec![first, second, early], "A".to_string());
    let order: Vec<String> = artist.albums.iter().map(|a| a.get_name()).collect();
    assert_eq!(order, vec!["Early", "First", "Second"]);
}
