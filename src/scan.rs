//! Building the library from the songs found on disk: songs are grouped into
//! albums by runs of album name, albums into artists by runs of artist, and the
//! result is put in the library's order.
use vstd::prelude::*;
use vstd::seq_lib::*;
use itertools::Itertools;
use crate::model::{album_artist_of, lemma_same_members, Album, FsAlbum, FsArtist, FsSong};
use crate::repository::{artists_sorted, artists_wf, sort_artists, MusicRepository};

verus! {

broadcast use group_to_multiset_ensures;

/// `groups` are the maximal runs of consecutive songs of `songs` that share an
/// album name, in order.
pub open spec fn album_runs(groups: Seq<Vec<FsSong>>, songs: Seq<FsSong>) -> bool {
    &&& groups.map_values(|g: Vec<FsSong>| g@).flatten() == songs
    &&& forall|i: int| 0 <= i < groups.len() ==> (#[trigger] groups[i])@.len() > 0
    &&& forall|i: int, k: int|
        0 <= i < groups.len() && 0 <= k < groups[i]@.len() ==> (#[trigger] groups[i]@[k]).album_name@
            == groups[i]@[0].album_name@
    &&& forall|i: int|
        0 < i < groups.len() ==> (#[trigger] groups[i])@[0].album_name@ != groups[i - 1]@[0].album_name@
}

/// `groups` are the maximal runs of consecutive albums of `albums` that share an
/// artist, in order.
pub open spec fn artist_runs(groups: Seq<Vec<FsAlbum>>, albums: Seq<FsAlbum>) -> bool {
    &&& groups.map_values(|g: Vec<FsAlbum>| g@).flatten() == albums
    &&& forall|i: int| 0 <= i < groups.len() ==> (#[trigger] groups[i])@.len() > 0
    &&& forall|i: int, k: int|
        0 <= i < groups.len() && 0 <= k < groups[i]@.len() ==> album_artist_of(
            (#[trigger] groups[i]@[k])@,
        ) == album_artist_of(groups[i]@[0]@)
    &&& forall|i: int|
        0 < i < groups.len() ==> album_artist_of((#[trigger] groups[i])@[0]@) != album_artist_of(
            groups[i - 1]@[0]@,
        )
}

/// The songs of `s` whose title no earlier song has: the first song of each title,
/// in order.
pub open spec fn first_by_title(s: Seq<FsSong>) -> Seq<FsSong>
    decreases s.len(),
{
    if s.len() == 0 {
        s
    } else {
        let p = first_by_title(s.drop_last());
        if exists|k: int| 0 <= k < s.len() - 1 && #[trigger] s[k].title@ == s.last().title@ {
            p
        } else {
            p.push(s.last())
        }
    }
}

/// Relies on `Itertools::chunk_by` with the album name as key: consecutive songs
/// with equal keys form one group, groups in order.
#[verifier::external_body]
fn chunk_by_album(songs: Vec<FsSong>) -> (r: Vec<Vec<FsSong>>)
    ensures
        album_runs(r@, songs@),
{
    songs.into_iter().chunk_by(|s| s.album_name.clone()).into_iter().map(|(_, g)| g.collect()).collect()
}

/// Relies on `Itertools::chunk_by` with the album's artist as key: consecutive
/// albums with equal keys form one group, groups in order.
#[verifier::external_body]
fn chunk_by_artist(albums: Vec<FsAlbum>) -> (r: Vec<Vec<FsAlbum>>)
    ensures
        artist_runs(r@, albums@),
{
    albums.into_iter().chunk_by(|a| a.get_artist_name()).into_iter().map(|(_, g)| g.collect()).collect()
}

/// Relies on `Itertools::unique_by` with the title as key: keeps the first song of
/// each title, in order.
#[verifier::external_body]
fn unique_by_title(songs: Vec<FsSong>) -> (r: Vec<FsSong>)
    ensures
        r@ == first_by_title(songs@),
{
    songs.into_iter().unique_by(|s| s.title.clone()).collect()
}

proof fn lemma_flatten_contains<A>(gs: Seq<Seq<A>>, k: int, m: int)
    requires
        0 <= k < gs.len(),
        0 <= m < gs[k].len(),
    ensures
        gs.flatten().contains(gs[k][m]),
    decreases gs.len(),
{
    assert(gs.flatten() == gs.first() + gs.drop_first().flatten());
    if k == 0 {
        assert(gs.flatten()[m] == gs[0][m]);
    } else {
        lemma_flatten_contains(gs.drop_first(), k - 1, m);
        let rest = gs.drop_first().flatten();
        let w = choose|w: int| 0 <= w < rest.len() && rest[w] == gs[k][m];
        assert(gs.flatten()[gs.first().len() + w] == gs[k][m]);
    }
}

proof fn lemma_flatten_converse<A>(gs: Seq<Seq<A>>, x: A)
    requires
        gs.flatten().contains(x),
    ensures
        exists|k: int, m: int| 0 <= k < gs.len() && 0 <= m < gs[k].len() && #[trigger] gs[k][m] == x,
    decreases gs.len(),
{
    assert(gs.flatten() == gs.first() + gs.drop_first().flatten());
    let w = choose|w: int| 0 <= w < gs.flatten().len() && gs.flatten()[w] == x;
    if w < gs.first().len() {
        assert(gs[0][w] == x);
    } else {
        let rest = gs.drop_first();
        assert(rest.flatten()[w - gs.first().len()] == x);
        lemma_flatten_converse(rest, x);
        let (k, m) = choose|k: int, m: int| 0 <= k < rest.len() && 0 <= m < rest[k].len() && #[trigger] rest[k][m] == x;
        assert(gs[k + 1][m] == x);
    }
}

proof fn lemma_first_by_title_sub(s: Seq<FsSong>)
    ensures
        forall|q: int| 0 <= q < first_by_title(s).len() ==> s.contains(#[trigger] first_by_title(s)[q]),
    decreases s.len(),
{
    if s.len() > 0 {
        let p = s.drop_last();
        lemma_first_by_title_sub(p);
        assert forall|q: int| 0 <= q < first_by_title(s).len() implies s.contains(#[trigger] first_by_title(s)[q]) by {
            if q < first_by_title(p).len() {
                let w = choose|w: int| 0 <= w < p.len() && p[w] == first_by_title(p)[q];
                assert(s[w] == p[w]);
            } else {
                assert(first_by_title(s)[q] == s.last());
                assert(s[s.len() - 1] == s.last());
            }
        }
    }
}

proof fn lemma_first_by_title_covers(s: Seq<FsSong>)
    ensures
        forall|i: int| 0 <= i < s.len() ==> exists|q: int| 0 <= q < first_by_title(s).len()
            && (#[trigger] first_by_title(s)[q]).title@ == (#[trigger] s[i]).title@,
    decreases s.len(),
{
    if s.len() > 0 {
        let p = s.drop_last();
        lemma_first_by_title_covers(p);
        let f = first_by_title(s);
        let fp = first_by_title(p);
        assert forall|i: int| 0 <= i < s.len() implies exists|q: int| 0 <= q < f.len()
            && (#[trigger] f[q]).title@ == (#[trigger] s[i]).title@ by {
            if exists|k: int| 0 <= k < s.len() - 1 && #[trigger] s[k].title@ == s.last().title@ {
                assert(f == fp);
                if i < s.len() - 1 {
                    assert(s[i] == p[i]);
                    let q = choose|q: int| 0 <= q < fp.len() && (#[trigger] fp[q]).title@ == p[i].title@;
                    assert(f[q] == fp[q]);
                } else {
                    let k = choose|k: int| 0 <= k < s.len() - 1 && #[trigger] s[k].title@ == s.last().title@;
                    assert(s[k] == p[k]);
                    let q = choose|q: int| 0 <= q < fp.len() && (#[trigger] fp[q]).title@ == p[k].title@;
                    assert(f[q] == fp[q]);
                }
            } else {
                assert(f == fp.push(s.last()));
                if i < s.len() - 1 {
                    assert(s[i] == p[i]);
                    let q = choose|q: int| 0 <= q < fp.len() && (#[trigger] fp[q]).title@ == p[i].title@;
                    assert(f[q] == fp[q]);
                } else {
                    assert(f[fp.len() as int] == s[i]);
                }
            }
        }
    }
}

proof fn lemma_first_by_title_nonempty(s: Seq<FsSong>)
    requires
        s.len() > 0,
    ensures
        first_by_title(s).len() > 0,
        first_by_title(s)[0] == s[0],
    decreases s.len(),
{
    if s.len() == 1 {
        assert(first_by_title(s.drop_last()) == Seq::<FsSong>::empty());
        assert(!(exists|k: int| 0 <= k < s.len() - 1 && #[trigger] s[k].title@ == s.last().title@));
    } else {
        lemma_first_by_title_nonempty(s.drop_last());
    }
}

/// Some album of `artists` holds a song titled `title` of the album named `album`.
pub open spec fn library_has_title(artists: Seq<FsArtist>, title: Seq<char>, album: Seq<char>) -> bool {
    exists|k: int, m: int, q: int|
        0 <= k < artists.len() && 0 <= m < artists[k].albums@.len() && 0 <= q < artists[k].albums@[m]@.len()
            && (#[trigger] artists[k].albums@[m]@[q]).title@ == title && artists[k].albums@[m]@[q].album_name@
            == album
}

/// An album as a scan makes it: non-empty, every song of the first song's album
/// name, and no two songs of one title.
pub open spec fn album_ok(a: Seq<FsSong>) -> bool {
    &&& a.len() > 0
    &&& forall|q: int| 0 <= q < a.len() ==> (#[trigger] a[q]).album_name@ == a[0].album_name@
    &&& forall|p: int, q: int| 0 <= p < q < a.len() ==> (#[trigger] a[p]).title@ != (#[trigger] a[q]).title@
}

proof fn lemma_first_by_title_distinct(s: Seq<FsSong>)
    ensures
        forall|p: int, q: int|
            0 <= p < q < first_by_title(s).len() ==> (#[trigger] first_by_title(s)[p]).title@
                != (#[trigger] first_by_title(s)[q]).title@,
    decreases s.len(),
{
    if s.len() > 0 {
        let d = s.drop_last();
        lemma_first_by_title_distinct(d);
        lemma_first_by_title_sub(d);
        let f = first_by_title(s);
        let fd = first_by_title(d);
        if !(exists|k: int| 0 <= k < s.len() - 1 && #[trigger] s[k].title@ == s.last().title@) {
            assert forall|p: int, q: int| 0 <= p < q < f.len() implies (#[trigger] f[p]).title@
                != (#[trigger] f[q]).title@ by {
                if q == fd.len() {
                    assert(d.contains(fd[p]));
                    let k = choose|k: int| 0 <= k < d.len() && d[k] == fd[p];
                    assert(s[k] == d[k]);
                } else {
                    assert(f[p] == fd[p] && f[q] == fd[q]);
                }
            }
        }
    }
}

proof fn lemma_album_from_run(run: Seq<FsSong>, album: Seq<FsSong>, songs: Seq<FsSong>)
    requires
        run.len() > 0,
        album.to_multiset() == first_by_title(run).to_multiset(),
        forall|x: int| 0 <= x < run.len() ==> songs.contains(#[trigger] run[x]),
        forall|x: int| 0 <= x < run.len() ==> (#[trigger] run[x]).album_name@ == run[0].album_name@,
    ensures
        forall|q: int| 0 <= q < album.len() ==> songs.contains(#[trigger] album[q]),
        forall|x: int| 0 <= x < run.len() ==> exists|q: int| 0 <= q < album.len()
            && (#[trigger] album[q]).title@ == (#[trigger] run[x]).title@ && album[q].album_name@
            == run[x].album_name@,
        album_ok(album),
{
    let u = first_by_title(run);
    lemma_first_by_title_sub(run);
    lemma_first_by_title_covers(run);
    lemma_first_by_title_distinct(run);
    lemma_first_by_title_nonempty(run);
    assert forall|q: int| 0 <= q < album.len() implies exists|w: int| 0 <= w < u.len() && #[trigger] u[w] == #[trigger] album[q] by {
        assert(album.to_multiset().count(album[q]) > 0);
        assert(u.to_multiset().count(album[q]) > 0);
    }
    assert(u.no_duplicates()) by {
        assert forall|i: int, j: int| 0 <= i < u.len() && 0 <= j < u.len() && i != j implies u[i] != u[j] by {
            if i < j {
                assert(u[i].title@ != u[j].title@);
            } else {
                assert(u[j].title@ != u[i].title@);
            }
        }
    }
    u.lemma_multiset_has_no_duplicates();
    assert forall|x: FsSong| album.to_multiset().contains(x) implies album.to_multiset().count(x) == 1 by {
        assert(u.to_multiset().contains(x));
    }
    album.lemma_multiset_has_no_duplicates_conv();
    assert(album.to_multiset().len() == u.len());
    assert(album.len() > 0);
    assert forall|q: int| 0 <= q < album.len() implies (#[trigger] album[q]).album_name@ == album[0].album_name@ by {
        let w = choose|w: int| 0 <= w < u.len() && #[trigger] u[w] == album[q];
        let w0 = choose|w0: int| 0 <= w0 < u.len() && #[trigger] u[w0] == album[0];
        assert(run.contains(u[w]));
        assert(run.contains(u[w0]));
        let x = choose|x: int| 0 <= x < run.len() && run[x] == u[w];
        let x0 = choose|x0: int| 0 <= x0 < run.len() && run[x0] == u[w0];
    }
    assert forall|p: int, q: int| 0 <= p < q < album.len() implies (#[trigger] album[p]).title@
        != (#[trigger] album[q]).title@ by {
        let wp = choose|w: int| 0 <= w < u.len() && #[trigger] u[w] == album[p];
        let wq = choose|w: int| 0 <= w < u.len() && #[trigger] u[w] == album[q];
        assert(album[p] != album[q]);
        if wp < wq {
            assert(u[wp].title@ != u[wq].title@);
        } else if wq < wp {
            assert(u[wq].title@ != u[wp].title@);
        }
    }
    assert forall|q: int| 0 <= q < album.len() implies songs.contains(#[trigger] album[q]) by {
        assert(album.to_multiset().count(album[q]) > 0);
        assert(u.to_multiset().count(album[q]) > 0);
        let w = choose|w: int| 0 <= w < u.len() && u[w] == album[q];
        assert(run.contains(u[w]));
        let x = choose|x: int| 0 <= x < run.len() && run[x] == u[w];
    }
    assert forall|x: int| 0 <= x < run.len() implies exists|q: int| 0 <= q < album.len()
        && (#[trigger] album[q]).title@ == (#[trigger] run[x]).title@ && album[q].album_name@
        == run[x].album_name@ by {
        let w = choose|w: int| 0 <= w < u.len() && (#[trigger] u[w]).title@ == run[x].title@;
        assert(run.contains(u[w]));
        let y = choose|y: int| 0 <= y < run.len() && run[y] == u[w];
        assert(u.to_multiset().count(u[w]) > 0);
        assert(album.to_multiset().count(u[w]) > 0);
        assert(album.contains(u[w]));
        let q = choose|q: int| 0 <= q < album.len() && album[q] == u[w];
        assert(album[q].album_name@ == run[0].album_name@);
    }
}

/// `a` holds, in some order, the songs that the run at `x` of `runs` keeps: the
/// first song of each title.
pub open spec fn album_is_run(a: FsAlbum, runs: Seq<Vec<FsSong>>, x: int) -> bool {
    a@.to_multiset() == first_by_title(runs[x]@).to_multiset()
}

/// The album `a` is the album of some run of `runs`.
pub open spec fn album_from_run(runs: Seq<Vec<FsSong>>, a: FsAlbum) -> bool {
    exists|x: int| 0 <= x < runs.len() && #[trigger] album_is_run(a, runs, x)
}

/// The album of the run at `x` of `runs` is an album of `artists`.
pub open spec fn run_in_library(artists: Seq<FsArtist>, runs: Seq<Vec<FsSong>>, x: int) -> bool {
    exists|k: int, m: int|
        0 <= k < artists.len() && 0 <= m < artists[k].albums@.len() && #[trigger] album_is_run(
            artists[k].albums@[m],
            runs,
            x,
        )
}

/// The albums of `artists` are the albums of the runs of `runs`: each album is
/// one run's, and each run's album is there.
pub open spec fn albums_are_runs(runs: Seq<Vec<FsSong>>, artists: Seq<FsArtist>) -> bool {
    &&& forall|k: int, m: int|
        0 <= k < artists.len() && 0 <= m < artists[k].albums@.len() ==> #[trigger] album_from_run(
            runs,
            artists[k].albums@[m],
        )
    &&& forall|x: int| 0 <= x < runs.len() ==> #[trigger] run_in_library(artists, runs, x)
}

/// `artist` is made of the albums of `group`: well formed, each album as a scan
/// makes it and of the artist's name, each song one of `songs`, and every album
/// of `group` among its albums.
pub open spec fn artist_from_group(group: Seq<FsAlbum>, artist: FsArtist, songs: Seq<FsSong>) -> bool {
    &&& artist.wf()
    &&& forall|m: int| 0 <= m < artist.albums@.len() ==> album_ok((#[trigger] artist.albums@[m])@)
        && album_artist_of(artist.albums@[m]@) == artist.name@
    &&& forall|m: int, q: int| 0 <= m < artist.albums@.len() && 0 <= q < artist.albums@[m]@.len()
        ==> songs.contains(#[trigger] artist.albums@[m]@[q])
    &&& forall|m: int| 0 <= m < group.len() ==> exists|m2: int| 0 <= m2 < artist.albums@.len()
        && #[trigger] artist.albums@[m2] == #[trigger] group[m]
    &&& forall|m: int| 0 <= m < artist.albums@.len() ==> group.contains(#[trigger] artist.albums@[m])
}

/// The artist of a run of albums that share one: named after it, albums ordered.
fn artist_of_group(group: Vec<FsAlbum>, Ghost(songs): Ghost<Seq<FsSong>>) -> (r: FsArtist)
    requires
        group@.len() > 0,
        forall|m: int| 0 <= m < group@.len() ==> (#[trigger] group@[m]).wf() && album_ok(group@[m]@)
            && forall|q: int| 0 <= q < group@[m]@.len() ==> songs.contains(#[trigger] group@[m]@[q]),
        forall|m: int| 0 <= m < group@.len() ==> album_artist_of((#[trigger] group@[m])@) == album_artist_of(group@[0]@),
    ensures
        artist_from_group(group@, r, songs),
{
    let name = group[0].get_artist_name();
    let ghost gv = group@;
    let artist = FsArtist::new_2(group, name);
    proof {
        let av = artist.albums@;
        lemma_same_members(av, gv);
        assert forall|m: int| 0 <= m < av.len() implies #[trigger] av[m].wf() && album_ok(av[m]@)
            && album_artist_of(av[m]@) == artist.name@ && forall|q: int| 0 <= q < av[m]@.len()
            ==> songs.contains(#[trigger] av[m]@[q]) by {
            assert(gv.contains(av[m]));
            let w = choose|w: int| 0 <= w < gv.len() && gv[w] == av[m];
            assert(gv[w] == av[m]);
        }
        assert forall|m: int| 0 <= m < gv.len() implies exists|m2: int| 0 <= m2 < av.len()
            && #[trigger] av[m2] == #[trigger] gv[m] by {
            assert(av.contains(gv[m]));
        }
    }
    artist
}

/// `r` is the library that `songs`, found on disk in depth-first order of their
/// files, make: artists in name order ignoring case, each artist's albums in
/// release-year order and each album's songs in track-number order; every album
/// non-empty, of one album name, without two songs of one title, and of its
/// artist; every song one of `songs`; and of every song of
/// `songs`, a song of the same title and album kept.
pub open spec fn scan_result(songs: Seq<FsSong>, r: Seq<FsArtist>) -> bool {
    &&& artists_sorted(r)
    &&& artists_wf(r)
    &&& forall|k: int, m: int|
        0 <= k < r.len() && 0 <= m < r[k].albums@.len() ==> album_ok((#[trigger] r[k].albums@[m])@)
            && album_artist_of(r[k].albums@[m]@) == r[k].name@
    &&& forall|k: int, m: int, q: int|
        0 <= k < r.len() && 0 <= m < r[k].albums@.len() && 0 <= q < r[k].albums@[m]@.len()
            ==> songs.contains(#[trigger] r[k].albums@[m]@[q])
    &&& forall|i: int|
        0 <= i < songs.len() ==> library_has_title(r, (#[trigger] songs[i]).title@, songs[i].album_name@)
    &&& exists|runs: Seq<Vec<FsSong>>| #[trigger] album_runs(runs, songs) && albums_are_runs(runs, r)
}

/// The library as the songs found on disk make it, in depth-first order of their
/// files: albums are runs of songs with one album name, each keeping the first
/// song of every title; artists are runs of albums with one artist, named after
/// it. Grouping goes by runs, not by name over the whole walk: the walk visits the
/// files of one album directory together, so a run is an album directory, and
/// two directories whose tags carry one name stay two albums (likewise artists). Artists come in name order ignoring case, each artist's albums in release
/// year order, each album's songs in track-number order.
pub fn scan_repository(songs: Vec<FsSong>) -> (r: Vec<FsArtist>)
    ensures
        artists_sorted(r@),
        artists_wf(r@),
        forall|k: int, m: int|
            0 <= k < r@.len() && 0 <= m < r@[k].albums@.len() ==> album_ok((#[trigger] r@[k].albums@[m])@)
                && album_artist_of(r@[k].albums@[m]@) == r@[k].name@,
        forall|k: int, m: int, q: int|
            0 <= k < r@.len() && 0 <= m < r@[k].albums@.len() && 0 <= q < r@[k].albums@[m]@.len()
                ==> songs@.contains(#[trigger] r@[k].albums@[m]@[q]),
        forall|i: int|
            0 <= i < songs@.len() ==> library_has_title(r@, (#[trigger] songs@[i]).title@, songs@[i].album_name@),
        exists|runs: Seq<Vec<FsSong>>| #[trigger] album_runs(runs, songs@) && albums_are_runs(runs, r@),
{
    let ghost songs_v = songs@;
    let runs = chunk_by_album(songs);
    let ghost runs_v = runs@;
    let n = runs.len();
    let mut rest = runs;
    let mut albums: Vec<FsAlbum> = Vec::new();
    let mut i: usize = 0;
    while i < n
        invariant
            n == runs_v.len(),
            i <= n,
            rest@ == runs_v.subrange(i as int, n as int),
            albums@.len() == i,
            forall|k: int| 0 <= k < i ==> (#[trigger] albums@[k]).wf() && album_ok(albums@[k]@),
            forall|k: int| 0 <= k < i ==> #[trigger] album_is_run(albums@[k], runs_v, k),
            album_runs(runs_v, songs_v),
            forall|k: int, q: int| 0 <= k < i && 0 <= q < albums@[k]@.len() ==> songs_v.contains(
                #[trigger] albums@[k]@[q],
            ),
            forall|k: int, x: int|
                0 <= k < i && 0 <= x < runs_v[k]@.len() ==> exists|q: int| 0 <= q < albums@[k]@.len()
                    && (#[trigger] albums@[k]@[q]).title@ == (#[trigger] runs_v[k]@[x]).title@
                    && albums@[k]@[q].album_name@ == runs_v[k]@[x].album_name@,
        decreases n - i,
    {
        let run = rest.remove(0);
        proof {
            assert(run == runs_v[i as int]);
        }
        let unique = unique_by_title(run);
        proof {
            lemma_first_by_title_nonempty(runs_v[i as int]@);
        }
        let album = FsAlbum::new(unique);
        proof {
            assert(unique@.to_multiset().count(unique@[0]) > 0);
            assert(album@.to_multiset().len() == unique@.len());
            let gs = runs_v.map_values(|x: Vec<FsSong>| x@);
            assert forall|x: int| 0 <= x < run@.len() implies songs_v.contains(#[trigger] run@[x]) by {
                assert(gs[i as int] == run@);
                lemma_flatten_contains(gs, i as int, x);
            }
            lemma_album_from_run(run@, album@, songs_v);
        }
        let ghost prev = albums@;
        let ghost album_v = album@;
        let ghost album_g = album;
        proof {
            assert(album_is_run(album_g, runs_v, i as int));
        }
        albums.push(album);
        proof {
            assert forall|k: int| 0 <= k < i + 1 implies #[trigger] album_is_run(albums@[k], runs_v, k) by {
                if k < i {
                    assert(albums@[k] == prev[k]);
                }
            }
            assert forall|k: int, x: int|
                0 <= k < i + 1 && 0 <= x < runs_v[k]@.len() implies exists|q: int| 0 <= q < albums@[k]@.len()
                    && (#[trigger] albums@[k]@[q]).title@ == (#[trigger] runs_v[k]@[x]).title@
                    && albums@[k]@[q].album_name@ == runs_v[k]@[x].album_name@ by {
                if k < i {
                    assert(albums@[k] == prev[k]);
                } else {
                    assert(albums@[k]@ == album_v);
                    assert(runs_v[k] == run);
                }
            }
        }
        i = i + 1;
    }
    let groups = chunk_by_artist(albums);
    let ghost groups_v = groups@;
    let ghost albums_v = albums@;
    proof {
        assert forall|k: int, m: int|
            0 <= k < groups_v.len() && 0 <= m < groups_v[k]@.len() implies (#[trigger] groups_v[k]@[m]).wf()
                && album_ok(groups_v[k]@[m]@) && forall|q: int| 0 <= q < groups_v[k]@[m]@.len() ==> songs_v.contains(
                #[trigger] groups_v[k]@[m]@[q],
            ) by {
            let gs = groups_v.map_values(|x: Vec<FsAlbum>| x@);
            assert(gs[k] == groups_v[k]@);
            lemma_flatten_contains(gs, k, m);
            let w = choose|w: int| 0 <= w < albums_v.len() && albums_v[w] == groups_v[k]@[m];
            assert(albums_v[w].wf() && album_ok(albums_v[w]@));
        }
    }
    let g = groups.len();
    let mut rest = groups;
    let mut artists: Vec<FsArtist> = Vec::new();
    let mut i: usize = 0;
    while i < g
        invariant
            g == groups_v.len(),
            i <= g,
            rest@ == groups_v.subrange(i as int, g as int),
            artists@.len() == i,
            artist_runs(groups_v, albums_v),
            forall|k: int, m: int|
                0 <= k < g && 0 <= m < groups_v[k]@.len() ==> (#[trigger] groups_v[k]@[m]).wf()
                    && album_ok(groups_v[k]@[m]@) && forall|q: int| 0 <= q < groups_v[k]@[m]@.len()
                    ==> songs_v.contains(#[trigger] groups_v[k]@[m]@[q]),
            forall|k: int| 0 <= k < i ==> artist_from_group(groups_v[k]@, #[trigger] artists@[k], songs_v),
            albums_v.len() == runs_v.len(),
            forall|w: int| 0 <= w < albums_v.len() ==> #[trigger] album_is_run(albums_v[w], runs_v, w),
        decreases g - i,
    {
        let group = rest.remove(0);
        proof {
            assert(group == groups_v[i as int]);
        }
        let artist = artist_of_group(group, Ghost(songs_v));
        let ghost prev = artists@;
        artists.push(artist);
        proof {
            assert forall|k: int| 0 <= k < i + 1 implies artist_from_group(groups_v[k]@, #[trigger] artists@[k], songs_v) by {
                if k < i {
                    assert(artists@[k] == prev[k]);
                }
            }
        }
        i = i + 1;
    }
    let ghost pre = artists@;
    let r = sort_artists(artists);
    proof {
        assert forall|k: int| 0 <= k < r@.len() implies exists|q: int| 0 <= q < pre.len() && pre[q] == #[trigger] r@[k] by {
            assert(r@.contains(r@[k]));
            assert(r@.to_multiset().count(r@[k]) > 0);
            assert(pre.to_multiset().count(r@[k]) > 0);
            assert(pre.contains(r@[k]));
        }
        assert forall|k: int| 0 <= k < r@.len() implies #[trigger] r@[k].wf() by {
            let q = choose|q: int| 0 <= q < pre.len() && pre[q] == r@[k];
            assert(artist_from_group(groups_v[q]@, pre[q], songs_v));
        }
        assert forall|k: int, m: int|
            0 <= k < r@.len() && 0 <= m < r@[k].albums@.len() implies album_ok((#[trigger] r@[k].albums@[m])@)
                && album_artist_of(r@[k].albums@[m]@) == r@[k].name@ by {
            let q = choose|q: int| 0 <= q < pre.len() && pre[q] == r@[k];
            assert(artist_from_group(groups_v[q]@, pre[q], songs_v));
            assert(pre[q].albums@[m] == r@[k].albums@[m]);
        }
        assert forall|k: int, m: int, q: int|
            0 <= k < r@.len() && 0 <= m < r@[k].albums@.len() && 0 <= q < r@[k].albums@[m]@.len()
                implies songs_v.contains(#[trigger] r@[k].albums@[m]@[q]) by {
            let k2 = choose|k2: int| 0 <= k2 < pre.len() && pre[k2] == r@[k];
            assert(artist_from_group(groups_v[k2]@, pre[k2], songs_v));
            assert(pre[k2].albums@[m]@[q] == r@[k].albums@[m]@[q]);
        }
        let rs = runs_v.map_values(|x: Vec<FsSong>| x@);
        let gs = groups_v.map_values(|x: Vec<FsAlbum>| x@);
        assert forall|i: int| 0 <= i < songs_v.len() implies library_has_title(
            r@,
            (#[trigger] songs_v[i]).title@,
            songs_v[i].album_name@,
        ) by {
            let s0 = songs_v[i];
            assert(rs.flatten().contains(s0));
            lemma_flatten_converse(rs, s0);
            let (kr, x) = choose|kr: int, x: int| 0 <= kr < rs.len() && 0 <= x < rs[kr].len() && #[trigger] rs[kr][x] == s0;
            assert(runs_v[kr]@[x] == s0);
            let q = choose|q: int| 0 <= q < albums_v[kr]@.len()
                && (#[trigger] albums_v[kr]@[q]).title@ == runs_v[kr]@[x].title@
                && albums_v[kr]@[q].album_name@ == runs_v[kr]@[x].album_name@;
            assert(gs.flatten().contains(albums_v[kr]));
            lemma_flatten_converse(gs, albums_v[kr]);
            let (gk, m) = choose|gk: int, m: int| 0 <= gk < gs.len() && 0 <= m < gs[gk].len() && #[trigger] gs[gk][m] == albums_v[kr];
            assert(groups_v[gk]@[m] == albums_v[kr]);
            assert(artist_from_group(groups_v[gk]@, pre[gk], songs_v));
            let m2 = choose|m2: int| 0 <= m2 < pre[gk].albums@.len() && #[trigger] pre[gk].albums@[m2] == groups_v[gk]@[m];
            assert(pre.to_multiset().count(pre[gk]) > 0);
            assert(r@.to_multiset().count(pre[gk]) > 0);
            assert(r@.contains(pre[gk]));
            let k2 = choose|k2: int| 0 <= k2 < r@.len() && r@[k2] == pre[gk];
            assert(r@[k2].albums@[m2]@[q] == albums_v[kr]@[q]);
        }
        assert forall|k: int, m: int|
            0 <= k < r@.len() && 0 <= m < r@[k].albums@.len() implies #[trigger] album_from_run(
                runs_v,
                r@[k].albums@[m],
            ) by {
            let q = choose|q: int| 0 <= q < pre.len() && pre[q] == r@[k];
            assert(artist_from_group(groups_v[q]@, pre[q], songs_v));
            assert(pre[q].albums@[m] == r@[k].albums@[m]);
            assert(groups_v[q]@.contains(pre[q].albums@[m]));
            let w2 = choose|w2: int| 0 <= w2 < groups_v[q]@.len() && groups_v[q]@[w2] == pre[q].albums@[m];
            assert(gs[q] == groups_v[q]@);
            lemma_flatten_contains(gs, q, w2);
            let w = choose|w: int| 0 <= w < albums_v.len() && albums_v[w] == groups_v[q]@[w2];
            assert(album_is_run(albums_v[w], runs_v, w));
            assert(album_is_run(r@[k].albums@[m], runs_v, w));
        }
        assert forall|x: int| 0 <= x < runs_v.len() implies #[trigger] run_in_library(r@, runs_v, x) by {
            assert(gs.flatten().contains(albums_v[x]));
            lemma_flatten_converse(gs, albums_v[x]);
            let (g, m) = choose|g: int, m: int| 0 <= g < gs.len() && 0 <= m < gs[g].len() && #[trigger] gs[g][m] == albums_v[x];
            assert(groups_v[g]@[m] == albums_v[x]);
            assert(artist_from_group(groups_v[g]@, pre[g], songs_v));
            let m2 = choose|m2: int| 0 <= m2 < pre[g].albums@.len() && #[trigger] pre[g].albums@[m2] == groups_v[g]@[m];
            assert(pre.to_multiset().count(pre[g]) > 0);
            assert(r@.to_multiset().count(pre[g]) > 0);
            assert(r@.contains(pre[g]));
            let k2 = choose|k2: int| 0 <= k2 < r@.len() && r@[k2] == pre[g];
            assert(album_is_run(r@[k2].albums@[m2], runs_v, x));
        }
        assert(albums_are_runs(runs_v, r@));
        assert(album_runs(runs_v, songs_v));
    }
    r
}

impl MusicRepository {
    /// Replaces the snapshot wholesale with the library that a fresh scan found.
    pub fn rescan(&mut self, songs: Vec<FsSong>)
        ensures
            final(self).wf(),
            final(self).path == old(self).path,
            scan_result(songs@, final(self).artists@),
    {
        self.artists = scan_repository(songs);
    }
}

} // verus!
