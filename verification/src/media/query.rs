//! Filtering and sorting the library. No UI, no IO.

use vstd::prelude::*;

use crate::media::model::{file_name, spec_kind, stamp_of, MediaFile, MediaKind};
use crate::media::pathset::PathSet;
use crate::text::{
    chars_of, lemma_lex_not_lt_transitive, lemma_lex_strict_total, lex_less, lex_lt,
};

verus! {

#[derive(Debug, Clone, Copy, PartialEq, Eq, Default, Structural)]
pub enum LibraryTab {
    #[default]
    All,
    Videos,
    Photos,
    Favorites,
}

/// The tabs in the order the strip shows them.
pub open spec fn tab_position(tab: LibraryTab) -> nat {
    match tab {
        LibraryTab::All => 0,
        LibraryTab::Videos => 1,
        LibraryTab::Photos => 2,
        LibraryTab::Favorites => 3,
    }
}

impl LibraryTab {
    /// Where the tab sits on the strip.
    pub fn position(self) -> (index: usize)
        ensures
            index == tab_position(self),
    {
        match self {
            LibraryTab::All => 0,
            LibraryTab::Videos => 1,
            LibraryTab::Photos => 2,
            LibraryTab::Favorites => 3,
        }
    }

    /// The tab at a strip position, if there is one.
    pub fn at(index: usize) -> (tab: Option<LibraryTab>)
        ensures
            tab matches Some(t) ==> index < 4 && tab_position(t) == index,
            tab is None ==> index >= 4,
    {
        if index == 0 {
            Some(LibraryTab::All)
        } else if index == 1 {
            Some(LibraryTab::Videos)
        } else if index == 2 {
            Some(LibraryTab::Photos)
        } else if index == 3 {
            Some(LibraryTab::Favorites)
        } else {
            None
        }
    }

    pub fn label(self) -> (label: &'static str)
        ensures
            label@ == match self {
                LibraryTab::All => "ALL"@,
                LibraryTab::Videos => "VIDEOS"@,
                LibraryTab::Photos => "PHOTOS"@,
                LibraryTab::Favorites => "FAVORITES"@,
            },
    {
        match self {
            LibraryTab::All => "ALL",
            LibraryTab::Videos => "VIDEOS",
            LibraryTab::Photos => "PHOTOS",
            LibraryTab::Favorites => "FAVORITES",
        }
    }
}

#[derive(Debug, Clone, Copy, PartialEq, Eq, Default, Structural)]
pub enum LibrarySort {
    #[default]
    Newest,
    Oldest,
    Name,
    Rating,
}

/// The sort button cycles Newest, Oldest, Name, Rating and back.
pub open spec fn spec_next_sort(order: LibrarySort) -> LibrarySort {
    match order {
        LibrarySort::Newest => LibrarySort::Oldest,
        LibrarySort::Oldest => LibrarySort::Name,
        LibrarySort::Name => LibrarySort::Rating,
        LibrarySort::Rating => LibrarySort::Newest,
    }
}

/// The sort button's caption.
pub open spec fn sort_label(order: LibrarySort) -> Seq<char> {
    match order {
        LibrarySort::Newest => "Newest"@,
        LibrarySort::Oldest => "Oldest"@,
        LibrarySort::Name => "Name"@,
        LibrarySort::Rating => "Rating"@,
    }
}

impl LibrarySort {
    pub fn label(self) -> (label: &'static str)
        ensures
            label@ == sort_label(self),
    {
        match self {
            LibrarySort::Newest => "Newest",
            LibrarySort::Oldest => "Oldest",
            LibrarySort::Name => "Name",
            LibrarySort::Rating => "Rating",
        }
    }

    pub fn next(self) -> (next: Self)
        ensures
            next == spec_next_sort(self),
    {
        match self {
            LibrarySort::Newest => LibrarySort::Oldest,
            LibrarySort::Oldest => LibrarySort::Name,
            LibrarySort::Name => LibrarySort::Rating,
            LibrarySort::Rating => LibrarySort::Newest,
        }
    }
}

/// Four presses of the sort button come back to where they started.
pub proof fn lemma_sort_cycle(order: LibrarySort)
    ensures
        spec_next_sort(spec_next_sort(spec_next_sort(spec_next_sort(order)))) == order,
        spec_next_sort(order) != order,
{
}

/// Whether a file shows on a tab. Local favourites overlay the camera's star, the way
/// the phones keep them.
pub open spec fn shows_on(file: MediaFile, tab: LibraryTab, favorites: Set<Seq<char>>) -> bool {
    match tab {
        LibraryTab::All => true,
        LibraryTab::Videos => spec_kind(file.path@) == MediaKind::Video,
        LibraryTab::Photos => spec_kind(file.path@) == MediaKind::Photo,
        LibraryTab::Favorites => file.is_starred || favorites.contains(file.path@),
    }
}

/// The records a list of references points at.
pub open spec fn targets(files: Seq<&MediaFile>) -> Seq<MediaFile> {
    files.map_values(|file: &MediaFile| *file)
}

/// The files that show on `tab`, in their listed order.
pub fn filtered<'a>(files: &'a [MediaFile], tab: LibraryTab, local_favorites: &PathSet) -> (out: Vec<
    &'a MediaFile,
>)
    ensures
        targets(out@) == files@.filter(|file: MediaFile| shows_on(file, tab, local_favorites@)),
{
    let ghost keep = |file: MediaFile| shows_on(file, tab, local_favorites@);
    let mut out: Vec<&MediaFile> = Vec::new();
    let mut i: usize = 0;
    while i < files.len()
        invariant
            i <= files@.len(),
            keep == (|file: MediaFile| shows_on(file, tab, local_favorites@)),
            targets(out@) == files@.subrange(0, i as int).filter(keep),
        decreases files@.len() - i,
    {
        let file = &files[i];
        let shows = match tab {
            LibraryTab::All => true,
            LibraryTab::Videos => file.kind() == MediaKind::Video,
            LibraryTab::Photos => file.kind() == MediaKind::Photo,
            LibraryTab::Favorites => file.is_starred || local_favorites.contains(file.path.as_str()),
        };
        proof {
            assert(files@.subrange(0, i + 1) =~= files@.subrange(0, i as int).push(*file));
            files@.subrange(0, i as int).lemma_filter_push(*file, keep);
            assert(shows == keep(*file));
        }
        if shows {
            let ghost before = out@;
            out.push(file);
            proof {
                assert(targets(out@) =~= targets(before).push(*file));
            }
        }
        i = i + 1;
    }
    proof {
        assert(files@.subrange(0, i as int) =~= files@);
    }
    out
}

/// The capture stamp a sort reads; a file without one sorts as empty.
pub open spec fn stamp_key(file: MediaFile) -> Seq<char> {
    match stamp_of(file.path@) {
        Some(stamp) => stamp,
        None => Seq::empty(),
    }
}

/// Whether `a` goes strictly before `b` in `order`: newest or oldest stamp first, file
/// name order, or starred first and then newest.
pub open spec fn precedes(a: MediaFile, b: MediaFile, order: LibrarySort) -> bool {
    match order {
        LibrarySort::Newest => lex_lt(stamp_key(b), stamp_key(a)),
        LibrarySort::Oldest => lex_lt(stamp_key(a), stamp_key(b)),
        LibrarySort::Name => lex_lt(file_name(a.path@), file_name(b.path@)),
        LibrarySort::Rating => (a.is_starred && !b.is_starred) || (a.is_starred == b.is_starred
            && lex_lt(stamp_key(b), stamp_key(a))),
    }
}

/// How the orders relate: Oldest is Newest turned around; Rating puts a starred file
/// before an unstarred one and orders two files with the same star exactly as Newest
/// does.
pub proof fn lemma_rating_is_stars_then_newest(a: MediaFile, b: MediaFile)
    ensures
        precedes(a, b, LibrarySort::Newest) == precedes(b, a, LibrarySort::Oldest),
        a.is_starred && !b.is_starred ==> precedes(a, b, LibrarySort::Rating),
        !a.is_starred && b.is_starred ==> !precedes(a, b, LibrarySort::Rating),
        a.is_starred == b.is_starred ==> precedes(a, b, LibrarySort::Rating) == precedes(
            a,
            b,
            LibrarySort::Newest,
        ),
{
}

/// Newest puts the later capture stamp first: a file goes before another exactly when
/// its stamp is the larger of the two in character order.
pub proof fn lemma_newest_is_later_stamp_first(a: MediaFile, b: MediaFile)
    ensures
        precedes(a, b, LibrarySort::Newest) <==> lex_lt(stamp_key(b), stamp_key(a)),
        precedes(a, b, LibrarySort::Newest) ==> !precedes(b, a, LibrarySort::Newest),
{
    lemma_lex_strict_total(stamp_key(a), stamp_key(b));
}

/// No file is followed by one that should go before it.
pub open spec fn sorted_by(files: Seq<&MediaFile>, order: LibrarySort) -> bool {
    forall|i: int, j: int| 0 <= i < j < files.len() ==> !precedes(*files[j], *files[i], order)
}

proof fn lemma_precedes_asymmetric(a: MediaFile, b: MediaFile, order: LibrarySort)
    requires
        precedes(a, b, order),
    ensures
        !precedes(b, a, order),
{
    lemma_lex_strict_total(stamp_key(a), stamp_key(b));
    lemma_lex_strict_total(file_name(a.path@), file_name(b.path@));
}

proof fn lemma_precedes_not_transitive(a: MediaFile, b: MediaFile, c: MediaFile, order: LibrarySort)
    requires
        !precedes(a, b, order),
        !precedes(b, c, order),
    ensures
        !precedes(a, c, order),
{
    match order {
        LibrarySort::Newest => lemma_lex_not_lt_transitive(stamp_key(c), stamp_key(b), stamp_key(a)),
        LibrarySort::Oldest => lemma_lex_not_lt_transitive(stamp_key(a), stamp_key(b), stamp_key(c)),
        LibrarySort::Name => lemma_lex_not_lt_transitive(
            file_name(a.path@),
            file_name(b.path@),
            file_name(c.path@),
        ),
        LibrarySort::Rating => {
            if a.is_starred == b.is_starred && b.is_starred == c.is_starred {
                lemma_lex_not_lt_transitive(stamp_key(c), stamp_key(b), stamp_key(a));
            }
        },
    }
}

fn stamp_chars(file: &MediaFile) -> (key: Vec<char>)
    ensures
        key@ == stamp_key(*file),
{
    match file.filename_timestamp() {
        Some(stamp) => chars_of(stamp),
        None => Vec::new(),
    }
}

/// Whether `a` goes strictly before `b` in `order`.
fn file_precedes(a: &MediaFile, b: &MediaFile, order: LibrarySort) -> (before: bool)
    ensures
        before == precedes(*a, *b, order),
{
    match order {
        LibrarySort::Newest => lex_less(stamp_chars(b).as_slice(), stamp_chars(a).as_slice()),
        LibrarySort::Oldest => lex_less(stamp_chars(a).as_slice(), stamp_chars(b).as_slice()),
        LibrarySort::Name => lex_less(
            chars_of(a.filename()).as_slice(),
            chars_of(b.filename()).as_slice(),
        ),
        LibrarySort::Rating => {
            if a.is_starred != b.is_starred {
                a.is_starred
            } else {
                lex_less(stamp_chars(b).as_slice(), stamp_chars(a).as_slice())
            }
        },
    }
}

proof fn lemma_multiset_insert_at<A>(s: Seq<A>, p: int, x: A)
    requires
        0 <= p <= s.len(),
    ensures
        s.insert(p, x).to_multiset() =~= s.to_multiset().insert(x),
{
    let t = s.insert(p, x);
    s.insert_ensures(p, x);
    assert(t.remove(p) =~= s);
    t.to_multiset_ensures();
    assert(t.contains(x)) by {
        assert(t[p] == x);
    }
    assert(t.to_multiset().count(x) > 0);
    assert(s.to_multiset() =~= t.to_multiset().remove(x));
}

/// Where `file` goes in `ranked`: after every file it does not go before, counting
/// from the back.
pub open spec fn insert_point(ranked: Seq<MediaFile>, file: MediaFile, order: LibrarySort) -> int
    decreases ranked.len(),
{
    if ranked.len() == 0 || !precedes(file, ranked.last(), order) {
        ranked.len() as int
    } else {
        insert_point(ranked.drop_last(), file, order)
    }
}

/// The files ranked one at a time, each placed after every earlier file it does not go
/// before: a stable sort, so equal-ranked files keep the order they came in.
pub open spec fn ranked(files: Seq<MediaFile>, order: LibrarySort) -> Seq<MediaFile>
    decreases files.len(),
{
    if files.len() == 0 {
        files
    } else {
        let earlier = ranked(files.drop_last(), order);
        earlier.insert(insert_point(earlier, files.last(), order), files.last())
    }
}

/// The files in `order`, stably: equal-ranked files keep the order they came in.
pub fn sorted<'a>(files: Vec<&'a MediaFile>, order: LibrarySort) -> (out: Vec<&'a MediaFile>)
    ensures
        targets(out@) == ranked(targets(files@), order),
        out@.to_multiset() == files@.to_multiset(),
        sorted_by(out@, order),
{
    let mut out: Vec<&MediaFile> = Vec::new();
    let mut i: usize = 0;
    proof {
        assert(files@.subrange(0, 0) =~= Seq::<&MediaFile>::empty());
        out@.to_multiset_ensures();
        files@.subrange(0, 0).to_multiset_ensures();
    }
    while i < files.len()
        invariant
            i <= files@.len(),
            out@.to_multiset() == files@.subrange(0, i as int).to_multiset(),
            sorted_by(out@, order),
            targets(out@) == ranked(targets(files@.subrange(0, i as int)), order),
        decreases files@.len() - i,
    {
        let file = files[i];
        let mut p: usize = out.len();
        proof {
            assert(targets(out@).subrange(0, p as int) =~= targets(out@));
        }
        while p > 0 && file_precedes(file, out[p - 1], order)
            invariant
                p <= out@.len(),
                forall|k: int| p <= k < out@.len() ==> precedes(*file, *#[trigger] out@[k], order),
                insert_point(targets(out@), *file, order) == insert_point(
                    targets(out@).subrange(0, p as int),
                    *file,
                    order,
                ),
            decreases p,
        {
            proof {
                assert(targets(out@).subrange(0, p as int).drop_last() =~= targets(out@).subrange(
                    0,
                    p - 1,
                ));
            }
            p = p - 1;
        }
        let ghost before = out@;
        proof {
            if p > 0 {
                assert(!precedes(*file, *before[p - 1], order));
            }
            assert(insert_point(targets(before), *file, order) == p);
            assert(targets(files@.subrange(0, i + 1)).drop_last() =~= targets(
                files@.subrange(0, i as int),
            ));
        }
        out.insert(p, file);
        proof {
            assert(targets(out@) =~= targets(before).insert(p as int, *file));
            before.insert_ensures(p as int, file);
            assert forall|a: int, b: int| 0 <= a < b < out@.len() implies !precedes(
                *out@[b],
                *out@[a],
                order,
            ) by {
                if b < p {
                    assert(out@[a] == before[a] && out@[b] == before[b]);
                } else if b == p {
                    assert(out@[a] == before[a]);
                    if a < p - 1 {
                        assert(!precedes(*before[p - 1], *before[a], order));
                        lemma_precedes_not_transitive(*file, *before[p - 1], *before[a], order);
                    }
                } else if a == p {
                    assert(out@[b] == before[b - 1]);
                    lemma_precedes_asymmetric(*file, *before[b - 1], order);
                } else if a < p {
                    assert(out@[a] == before[a] && out@[b] == before[b - 1]);
                } else {
                    assert(out@[a] == before[a - 1] && out@[b] == before[b - 1]);
                }
            }
            lemma_multiset_insert_at(before, p as int, file);
            assert(files@.subrange(0, i + 1) =~= files@.subrange(0, i as int).push(file));
            files@.subrange(0, i as int).to_multiset_ensures();
        }
        i = i + 1;
    }
    proof {
        assert(files@.subrange(0, i as int) =~= files@);
    }
    out
}

} // verus!
