use mplayer::download::{album_jobs, download_name, AlbumSearch, SongSearch};
use mplayer::model::{FsAlbum, FsSong};
use mplayer::placement::{FileSorter, TagSet};
use mplayer::player::{album_commands, song_commands, MusicPlayerEvent, PlayerCore, SinkAction, SinkStatus, SongInfo};

fn info(name: &str) -> SongInfo {
    SongInfo::new(name.to_string(), "Artist".to_string(), "Album".to_string(), 200)
}

fn song(title: &str, number: u16) -> FsSong {
    FsSong::fastnew(
        format!("/music/lib/Artist/Album/{}.mp3", title),
        title.to_string(),
        200_000,
        number,
        "Album".to_string(),
        2000,
    )
}

fn links(n: usize, tag: &str) -> Vec<String> {
    (0..n).map(|i| format!("https://{}/{}", tag, i)).collect()
}

const IDLE: SinkStatus = SinkStatus { empty: true, paused: false };
const BUSY: SinkStatus = SinkStatus { empty: false, paused: false };
const HELD: SinkStatus = SinkStatus { empty: false, paused: true };

#[test]
fn pause_and_resume_count_only_time_played() {
    let s = info("a").set_start(0);
    assert_eq!(s.played_time(5_000), Some(5));
    let s = s.set_paused(5_000);
    assert_eq!(s.played_time(15_000), Some(5));
    let s = s.unpause(15_000);
    assert_eq!(s.played_time(17_000), Some(7));
    assert_eq!(info("b").played_time(1_000), None);
}

#[test]
fn played_time_is_in_whole_seconds() {
    let s = info("a").set_start(1_000);
    assert_eq!(s.played_time(2_999), Some(1));
    assert_eq!(s.played_time(500), Some(0));
    assert_eq!(info("a").unpause(10).paused_at, None);
    let restarted = info("a").set_start(0).set_paused(3_000).set_start(10_000);
    assert_eq!(restarted.paused_at, None);
    assert_eq!(restarted.played_time(12_000), Some(2));
}

#[test]
fn finished_song_gives_way_to_the_queue_without_skip() {
    let mut core = PlayerCore::new();
    assert_eq!(core.handle(MusicPlayerEvent::Play(info("first")), IDLE, 0), vec![SinkAction::Resume, SinkAction::AppendIncoming]);
    assert_eq!(core.handle(MusicPlayerEvent::Play(info("second")), BUSY, 10), vec![SinkAction::EnqueueIncoming]);
    assert_eq!(core.get_queue().len(), 1);
    assert_eq!(core.tick(false, 100), vec![]);
    assert_eq!(core.tick(true, 200_000), vec![SinkAction::AppendQueued]);
    let now = core.get_song_info().unwrap();
    assert_eq!(now.name, "second");
    assert_eq!(now.play_start, Some(200_000));
    assert!(core.get_queue().is_empty());
    assert_eq!(core.tick(true, 400_000), vec![]);
    assert!(core.get_song_info().is_none());
}

#[test]
fn skip_starts_the_next_song() {
    let mut core = PlayerCore::new();
    core.handle(MusicPlayerEvent::Play(info("a")), IDLE, 0);
    core.handle(MusicPlayerEvent::Play(info("b")), BUSY, 0);
    assert_eq!(core.handle(MusicPlayerEvent::Skip, BUSY, 3_000), vec![SinkAction::Stop, SinkAction::AppendQueued]);
    assert_eq!(core.get_song_info().unwrap().name, "b");
    assert!(core.get_queue().is_empty());
    assert_eq!(core.handle(MusicPlayerEvent::Skip, BUSY, 4_000), vec![]);
    assert_eq!(core.get_song_info().unwrap().name, "b");
}

#[test]
fn stop_clears_song_and_queue() {
    let mut core = PlayerCore::new();
    core.handle(MusicPlayerEvent::Play(info("a")), IDLE, 0);
    core.handle(MusicPlayerEvent::Play(info("b")), BUSY, 0);
    assert_eq!(core.handle(MusicPlayerEvent::Stop, BUSY, 1), vec![SinkAction::Stop, SinkAction::ClearQueued]);
    assert!(core.get_song_info().is_none());
    assert!(core.get_queue().is_empty());
}

#[test]
fn pause_toggles_and_keeps_time() {
    let mut core = PlayerCore::new();
    core.handle(MusicPlayerEvent::Play(info("a")), IDLE, 0);
    assert_eq!(core.handle(MusicPlayerEvent::Pause, BUSY, 5_000), vec![SinkAction::Pause]);
    assert_eq!(core.get_song_info().unwrap().played_time(15_000), Some(5));
    assert_eq!(core.handle(MusicPlayerEvent::Pause, HELD, 15_000), vec![SinkAction::Resume]);
    assert_eq!(core.get_song_info().unwrap().played_time(17_000), Some(7));
    assert_eq!(core.handle(MusicPlayerEvent::Pause, IDLE, 18_000), vec![]);
}

#[test]
fn volume_is_clamped() {
    let mut core = PlayerCore::new();
    assert_eq!(core.volume, 100);
    assert_eq!(core.handle(MusicPlayerEvent::Volume(10), BUSY, 0), vec![SinkAction::SetVolume(100)]);
    assert_eq!(core.handle(MusicPlayerEvent::Volume(-30), BUSY, 0), vec![SinkAction::SetVolume(70)]);
    assert_eq!(core.handle(MusicPlayerEvent::Volume(-500), BUSY, 0), vec![SinkAction::SetVolume(0)]);
    assert_eq!(core.handle(MusicPlayerEvent::Idle, BUSY, 0), vec![]);
}

#[test]
fn album_plays_as_one_command_per_song_in_track_order() {
    let album = FsAlbum::new(vec![song("two", 2), song("one", 1)]);
    let cmds = album_commands(&album, true);
    assert_eq!(cmds.len(), 3);
    assert!(matches!(cmds[0], MusicPlayerEvent::Stop));
    match (&cmds[1], &cmds[2]) {
        (MusicPlayerEvent::Play(a), MusicPlayerEvent::Play(b)) => {
            assert_eq!((a.name.as_str(), b.name.as_str()), ("one", "two"));
            assert_eq!((a.artist.as_str(), a.album.as_str(), a.length), ("Artist", "Album", 200));
        }
        _ => panic!("expected two Play commands"),
    }
    assert_eq!(album_commands(&album, false).len(), 2);
    assert_eq!(song_commands(&song("x", 1), false).len(), 1);
    assert!(matches!(song_commands(&song("x", 1), true)[0], MusicPlayerEvent::Stop));
}

#[test]
fn song_search_falls_back_in_priority_order() {
    let mut search = SongSearch::new(2);
    assert_eq!(search.next_provider(), Some(0));
    search.record(None);
    assert_eq!(search.next_provider(), Some(1));
    search.record(Some("https://b/song".to_string()));
    assert_eq!(search.next_provider(), None);
    assert_eq!(search.outcome(), Some("https://b/song".to_string()));
}

#[test]
fn song_search_stops_at_first_success_and_gives_up_after_all_fail() {
    let mut search = SongSearch::new(2);
    search.record(Some("https://a/song".to_string()));
    assert_eq!(search.next_provider(), None);
    search.record(Some("https://b/song".to_string()));
    assert_eq!(search.outcome(), Some("https://a/song".to_string()));
    let mut none = SongSearch::new(2);
    none.record(None);
    none.record(None);
    assert_eq!(none.next_provider(), None);
    assert_eq!(none.outcome(), None);
}

#[test]
fn album_search_prefers_a_full_list_over_priority() {
    let mut search = AlbumSearch::new(10, 3);
    search.record(Some(links(3, "a")));
    search.record(Some(links(7, "b")));
    assert_eq!(search.next_provider(), Some(2));
    search.record(Some(links(10, "c")));
    assert_eq!(search.next_provider(), None);
    assert_eq!(search.outcome(), Some(links(10, "c")));
}

#[test]
fn album_search_takes_the_longest_partial_list() {
    let mut search = AlbumSearch::new(10, 2);
    search.record(Some(links(3, "a")));
    search.record(Some(links(7, "b")));
    assert_eq!(search.next_provider(), None);
    assert_eq!(search.outcome(), Some(links(7, "b")));
    let mut empty = AlbumSearch::new(10, 2);
    empty.record(Some(vec![]));
    empty.record(None);
    assert_eq!(empty.outcome(), None);
    let mut full_first = AlbumSearch::new(2, 3);
    full_first.record(Some(links(2, "a")));
    assert_eq!(full_first.next_provider(), None);
}

#[test]
fn album_links_pair_with_songs_by_position() {
    let album = FsAlbum::new(vec![song("one", 1), song("two", 2), song("three", 3)]);
    let jobs = album_jobs(&album, links(2, "x"));
    assert_eq!(jobs.len(), 2);
    assert_eq!(jobs[0].link, "https://x/0");
    assert_eq!(jobs[0].song.title, "one");
    assert_eq!(jobs[1].song.title, "two");
    assert_eq!(album_jobs(&album, links(5, "y")).len(), 3);
}

#[test]
fn download_name_joins_artist_and_title() {
    assert_eq!(download_name(&song("one", 1)), "Artist-one");
}

#[test]
fn placement_fills_only_missing_tags() {
    let sorter = FileSorter::new("/home/me/Music/mplayer".to_string());
    let tags = sorter.correct_tags(
        TagSet { title: Some("Kept".to_string()), artist: None, album: None, track_number: None },
        &song("one", 4),
    );
    assert_eq!(tags.title.as_deref(), Some("Kept"));
    assert_eq!(tags.artist.as_deref(), Some("Artist"));
    assert_eq!(tags.album.as_deref(), Some("Album"));
    assert_eq!(tags.track_number, Some(4));
    let full = sorter.correct_tags(
        TagSet {
            title: Some("T".to_string()),
            artist: Some("X".to_string()),
            album: Some("Y".to_string()),
            track_number: Some(9),
        },
        &song("one", 4),
    );
    assert_eq!(full.artist.as_deref(), Some("X"));
    assert_eq!(full.album.as_deref(), Some("Y"));
    assert_eq!(full.track_number, Some(9));
}

#[test]
fn placement_files_into_artist_and_album_directories() {
    let sorter = FileSorter::new("/home/me/Music/mplayer".to_string());
    assert_eq!(sorter.destination_dir(&song("one", 1)), "/home/me/Music/mplayer/Artist/Album");
    assert_eq!(
        sorter.destination_path(&song("one", 1), "/tmp/Artist-one.mp3"),
        "/home/me/Music/mplayer/Artist/Album/Artist-one.mp3"
    );
}
