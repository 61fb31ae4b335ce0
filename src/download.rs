//! The download orchestrator's decisions. Providers are asked in priority order;
//! a song takes the first link found, an album the first list that covers every
//! track, or else the longest list offered. The asking, fetching and placing are
//! the caller's: it asks the provider that `next_provider` names and hands the
//! answer to `record`.
use vstd::prelude::*;
use crate::model::{FsAlbum, FsSong, Song};

verus! {

/// A catalog that may offer a link to a song's audio, given its title and artist.
pub trait SongProvider {
    /// A link to the song's audio, or `None` where the catalog has no match.
    fn provide_song(&self, song: &FsSong) -> Option<String>;
}

/// A catalog that may offer links to an album's tracks, given its artist and name.
pub trait AlbumProvider {
    /// Links to the album's tracks in track order, possibly fewer than it has, or
    /// `None` where the catalog has no match.
    fn provide_album(&self, album: &FsAlbum) -> Option<Vec<String>>;
}

/// A catalog that serves both songs and albums.
pub trait Downloader: SongProvider + AlbumProvider {}

/// The state of a search for one song's link among `providers` providers.
pub struct SongSearch {
    pub providers: usize,
    /// How many providers have answered.
    pub asked: usize,
    /// The link found, if any.
    pub found: Option<String>,
}

/// The search state after one more answer; answers that come once the search is
/// over change nothing.
pub open spec fn song_record_spec(s: SongSearch, answer: Option<String>) -> SongSearch {
    if s.found is Some || s.asked >= s.providers {
        s
    } else {
        SongSearch { providers: s.providers, asked: (s.asked + 1) as usize, found: answer }
    }
}

/// The search state after the answers `answers`, in order, from a fresh start.
pub open spec fn song_run_spec(providers: usize, answers: Seq<Option<String>>) -> SongSearch
    decreases answers.len(),
{
    if answers.len() == 0 {
        SongSearch { providers, asked: 0, found: None }
    } else {
        song_record_spec(song_run_spec(providers, answers.drop_last()), answers.last())
    }
}

/// The provider that a search asks next: the next in priority order while no link
/// is found.
pub open spec fn song_next_spec(s: SongSearch) -> Option<usize> {
    if s.found is Some || s.asked >= s.providers {
        None
    } else {
        Some(s.asked)
    }
}

impl SongSearch {
    /// A search that has asked nobody yet.
    pub fn new(providers: usize) -> (r: SongSearch)
        ensures
            r == (SongSearch { providers, asked: 0, found: None }),
    {
        SongSearch { providers, asked: 0, found: None }
    }

    /// The index of the provider to ask next, or `None` once a link is found or
    /// every provider has failed.
    pub fn next_provider(&self) -> (r: Option<usize>)
        ensures
            r == song_next_spec(*self),
    {
        if self.found.is_some() || self.asked >= self.providers {
            None
        } else {
            Some(self.asked)
        }
    }

    /// Takes the answer of the provider that `next_provider` named.
    pub fn record(&mut self, answer: Option<String>)
        ensures
            *final(self) == song_record_spec(*old(self), answer),
    {
        if self.found.is_none() && self.asked < self.providers {
            self.asked = self.asked + 1;
            self.found = answer;
        }
    }

    /// The link to place, if one was found.
    pub fn outcome(&self) -> (r: Option<String>)
        ensures
            r == self.found,
    {
        match &self.found {
            Some(l) => Some(l.clone()),
            None => None,
        }
    }
}

/// Falling back keeps priority order: where the first `i` providers fail and the
/// next offers `link`, the search ends with `link` after asking exactly those
/// `i + 1` providers, and asks nobody further.
pub proof fn lemma_song_fallback(providers: usize, answers: Seq<Option<String>>, link: String)
    requires
        0 < answers.len() <= providers,
        answers.last() == Some(link),
        forall|k: int| 0 <= k < answers.len() - 1 ==> #[trigger] answers[k] is None,
    ensures
        song_run_spec(providers, answers).found == Some(link),
        song_run_spec(providers, answers).asked == answers.len(),
        song_next_spec(song_run_spec(providers, answers)) is None,
{
    lemma_song_all_fail(providers, answers.drop_last());
}

proof fn lemma_song_all_fail(providers: usize, answers: Seq<Option<String>>)
    requires
        answers.len() < providers,
        forall|k: int| 0 <= k < answers.len() ==> #[trigger] answers[k] is None,
    ensures
        song_run_spec(providers, answers) == (SongSearch { providers, asked: answers.len() as usize, found: None }),
    decreases answers.len(),
{
    if answers.len() > 0 {
        assert forall|k: int| 0 <= k < answers.drop_last().len() implies #[trigger] answers.drop_last()[k] is None by {
            assert(answers.drop_last()[k] == answers[k]);
        }
        lemma_song_all_fail(providers, answers.drop_last());
    }
}

/// The state of a search for an album's links among `providers` providers, for an
/// album of `track_count` songs.
pub struct AlbumSearch {
    pub track_count: usize,
    pub providers: usize,
    /// How many providers have answered.
    pub asked: usize,
    /// The list adopted so far.
    pub best: Option<Vec<String>>,
    /// The list adopted covers every track.
    pub full: bool,
}

/// The length of an adopted list, 0 for none.
pub open spec fn best_len(best: Option<Vec<String>>) -> int {
    match best {
        Some(l) => l@.len() as int,
        None => 0,
    }
}

/// The search state after one more answer: a list with a link for every track is
/// adopted and ends the search; otherwise a non-empty list at least as long as the
/// one adopted replaces it, so that of lists of equal length the later one stands.
/// Answers that come once the search is over change nothing.
pub open spec fn album_record_spec(s: AlbumSearch, answer: Option<Vec<String>>) -> AlbumSearch {
    if s.done() {
        s
    } else {
        let asked = (s.asked + 1) as usize;
        match answer {
            Some(l) => if l@.len() == s.track_count {
                AlbumSearch { asked, best: Some(l), full: true, ..s }
            } else if l@.len() > 0 && l@.len() >= best_len(s.best) {
                AlbumSearch { asked, best: Some(l), ..s }
            } else {
                AlbumSearch { asked, ..s }
            },
            None => AlbumSearch { asked, ..s },
        }
    }
}

/// The search state after the answers `answers`, in order, from a fresh start.
pub open spec fn album_run_spec(track_count: usize, providers: usize, answers: Seq<Option<Vec<String>>>) -> AlbumSearch
    decreases answers.len(),
{
    if answers.len() == 0 {
        AlbumSearch { track_count, providers, asked: 0, best: None, full: false }
    } else {
        album_record_spec(album_run_spec(track_count, providers, answers.drop_last()), answers.last())
    }
}

/// `answer` has a link for every one of `track_count` tracks.
pub open spec fn is_full(answer: Option<Vec<String>>, track_count: usize) -> bool {
    answer matches Some(l) && l@.len() == track_count
}

proof fn lemma_album_no_full(track_count: usize, providers: usize, answers: Seq<Option<Vec<String>>>)
    requires
        answers.len() <= providers,
        forall|k: int| 0 <= k < answers.len() ==> !is_full(#[trigger] answers[k], track_count),
    ensures
        ({
            let r = album_run_spec(track_count, providers, answers);
            &&& !r.full
            &&& r.asked == answers.len()
            &&& r.track_count == track_count
            &&& r.providers == providers
            &&& match r.best {
                Some(l) => l@.len() > 0 && (exists|k: int| 0 <= k < answers.len() && #[trigger] answers[k] == Some(l))
                    && forall|j: int|
                    0 <= j < answers.len() ==> (#[trigger] answers[j] matches Some(m) ==> m@.len() <= l@.len()),
                None => forall|j: int|
                    0 <= j < answers.len() ==> (#[trigger] answers[j] matches Some(m) ==> m@.len() == 0),
            }
        }),
    decreases answers.len(),
{
    if answers.len() > 0 {
        let p = answers.drop_last();
        assert forall|k: int| 0 <= k < p.len() implies !is_full(#[trigger] p[k], track_count) by {
            assert(p[k] == answers[k]);
        }
        lemma_album_no_full(track_count, providers, p);
        let prev = album_run_spec(track_count, providers, p);
        let r = album_run_spec(track_count, providers, answers);
        assert(!is_full(answers[answers.len() - 1], track_count));
        match r.best {
            Some(l) => {
                if r.best == prev.best {
                    let k = choose|k: int| 0 <= k < p.len() && #[trigger] p[k] == Some(l);
                    assert(answers[k] == Some(l));
                }
                assert forall|j: int| 0 <= j < answers.len() implies (#[trigger] answers[j] matches Some(m)
                    ==> m@.len() <= l@.len()) by {
                    if j < p.len() {
                        assert(answers[j] == p[j]);
                    }
                }
            },
            None => {
                assert forall|j: int| 0 <= j < answers.len() implies (#[trigger] answers[j] matches Some(m)
                    ==> m@.len() == 0) by {
                    if j < p.len() {
                        assert(answers[j] == p[j]);
                    }
                }
            },
        }
    }
}

proof fn lemma_album_full_stays(
    track_count: usize,
    providers: usize,
    answers: Seq<Option<Vec<String>>>,
    i: int,
)
    requires
        0 <= i < answers.len() <= providers,
        is_full(answers[i], track_count),
        forall|k: int| 0 <= k < i ==> !is_full(#[trigger] answers[k], track_count),
    ensures
        album_run_spec(track_count, providers, answers).full,
        album_run_spec(track_count, providers, answers).best == answers[i],
    decreases answers.len(),
{
    let p = answers.drop_last();
    if answers.len() == i + 1 {
        assert forall|k: int| 0 <= k < p.len() implies !is_full(#[trigger] p[k], track_count) by {
            assert(p[k] == answers[k]);
        }
        lemma_album_no_full(track_count, providers, p);
    } else {
        assert(p[i] == answers[i]);
        assert forall|k: int| 0 <= k < i implies !is_full(#[trigger] p[k], track_count) by {
            assert(p[k] == answers[k]);
        }
        lemma_album_full_stays(track_count, providers, p, i);
    }
}

/// Album coverage: asked in priority order, the search adopts the first list that
/// has a link for every track, whatever came before or after it; where no list
/// does, it adopts one of the longest non-empty lists offered, and none where every
/// provider failed or offered nothing.
pub proof fn lemma_album_coverage(track_count: usize, providers: usize, answers: Seq<Option<Vec<String>>>)
    requires
        answers.len() <= providers,
    ensures
        ({
            let r = album_run_spec(track_count, providers, answers);
            &&& forall|i: int|
                0 <= i < answers.len() && is_full(#[trigger] answers[i], track_count) && (forall|k: int|
                    0 <= k < i ==> !is_full(#[trigger] answers[k], track_count)) ==> r.full && r.best == answers[i]
            &&& (forall|k: int| 0 <= k < answers.len() ==> !is_full(#[trigger] answers[k], track_count)) ==> match r.best {
                Some(l) => l@.len() > 0 && (exists|k: int| 0 <= k < answers.len() && #[trigger] answers[k] == Some(l))
                    && forall|j: int|
                    0 <= j < answers.len() ==> (#[trigger] answers[j] matches Some(m) ==> m@.len() <= l@.len()),
                None => forall|j: int|
                    0 <= j < answers.len() ==> (#[trigger] answers[j] matches Some(m) ==> m@.len() == 0),
            }
        }),
{
    assert forall|i: int|
        0 <= i < answers.len() && is_full(#[trigger] answers[i], track_count) && (forall|k: int|
            0 <= k < i ==> !is_full(#[trigger] answers[k], track_count)) implies album_run_spec(
        track_count,
        providers,
        answers,
    ).full && album_run_spec(track_count, providers, answers).best == answers[i] by {
        lemma_album_full_stays(track_count, providers, answers, i);
    }
    if forall|k: int| 0 <= k < answers.len() ==> !is_full(#[trigger] answers[k], track_count) {
        lemma_album_no_full(track_count, providers, answers);
    }
}

impl AlbumSearch {
    /// The search is over: a list covers every track, or every provider answered.
    pub open spec fn done(&self) -> bool {
        self.full || self.asked >= self.providers
    }

    /// A search that has asked nobody yet.
    pub fn new(track_count: usize, providers: usize) -> (r: AlbumSearch)
        ensures
            r.track_count == track_count,
            r.providers == providers,
            r.asked == 0,
            r.best is None,
            !r.full,
    {
        AlbumSearch { track_count, providers, asked: 0, best: None, full: false }
    }

    /// The index of the provider to ask next, or `None` once the search is over.
    pub fn next_provider(&self) -> (r: Option<usize>)
        ensures
            r == (if self.done() {
                None
            } else {
                Some(self.asked)
            }),
    {
        if self.full || self.asked >= self.providers {
            None
        } else {
            Some(self.asked)
        }
    }

    /// Takes the answer of the provider that `next_provider` named: a list with a
    /// link for every track is adopted and ends the search; otherwise a non-empty
    /// list at least as long as the one adopted replaces it, so that of lists of
    /// equal length the later one stands.
    pub fn record(&mut self, answer: Option<Vec<String>>)
        ensures
            *final(self) == album_record_spec(*old(self), answer),
    {
        if self.full || self.asked >= self.providers {
            return;
        }
        self.asked = self.asked + 1;
        if let Some(l) = answer {
            let current: usize = match &self.best {
                Some(b) => b.len(),
                None => 0,
            };
            if l.len() == self.track_count {
                self.best = Some(l);
                self.full = true;
            } else if l.len() > 0 && l.len() >= current {
                self.best = Some(l);
            }
        }
    }

    /// The list of links to adopt, if any provider offered one.
    pub fn outcome(self) -> (r: Option<Vec<String>>)
        ensures
            r == self.best,
    {
        self.best
    }
}

/// One unit of download work: a link and the song it is for.
pub struct DownloadJob {
    pub link: String,
    pub song: FsSong,
}

/// Pairs the adopted links with the album's songs by position; songs without a
/// link, and links without a song, are left out.
pub fn album_jobs(album: &FsAlbum, links: Vec<String>) -> (r: Vec<DownloadJob>)
    ensures
        r@.len() == if links@.len() < album@.len() {
            links@.len()
        } else {
            album@.len()
        },
        forall|k: int|
            0 <= k < r@.len() ==> (#[trigger] r@[k]).link == links@[k] && r@[k].song == album@[k],
{
    let ghost orig = links@;
    let n: usize = if links.len() < album.songs.len() {
        links.len()
    } else {
        album.songs.len()
    };
    let mut rest = links;
    let mut r: Vec<DownloadJob> = Vec::new();
    let mut i: usize = 0;
    while i < n
        invariant
            n <= orig.len(),
            n <= album@.len(),
            i <= n,
            rest@ == orig.subrange(i as int, orig.len() as int),
            r@.len() == i,
            forall|k: int| 0 <= k < i ==> (#[trigger] r@[k]).link == orig[k] && r@[k].song == album@[k],
        decreases n - i,
    {
        let link = rest.remove(0);
        r.push(DownloadJob { link, song: album.songs[i].clone() });
        i = i + 1;
    }
    r
}

/// The name under which a song's download is kept until it is placed:
/// `<artist>-<title>`.
pub fn download_name(song: &FsSong) -> (r: String)
    ensures
        r@ == song.artist_name_spec() + "-"@ + song.title@,
{
    let mut r = song.get_artist_name();
    proof {
        reveal_strlit("-");
    }
    r.append("-");
    r.append(song.title.as_str());
    r
}

} // verus!
