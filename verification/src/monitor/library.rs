//! The library and player screens: what the shell knows about the camera's card and
//! the clip on screen. The window does the fetching; this decides what to show and
//! what a tap means.

use vstd::prelude::*;

use crate::camera::command::Command;
use crate::media::model::{
    date_key_of, duration_text, extension_of, file_name, size_text, spec_kind, MediaFile,
    MediaKind,
};
use crate::media::pathset::{PathMap, PathSet};
use crate::media::query::{
    filtered, ranked, shows_on, sort_label, sorted, tab_position, targets, LibrarySort, LibraryTab,
};
use crate::monitor::shell::Toggles;
use crate::text::{
    chars_of, decimal, owned, push_char, push_decimal, push_signed, push_str, push_two_digits,
    signed_decimal, str_eq, two_digits,
};

verus! {

/// What the window must do for the library: everything that touches a socket, a
/// file or the clock.
#[derive(Debug, Clone, PartialEq)]
pub enum MediaAction {
    /// Enter playback, list the card, and fetch as the grid asks.
    OpenLibrary,
    /// Leave the library and bring live view back.
    CloseLibrary,
    /// List the card again.
    Refresh,
    Thumb(MediaFile),
    /// Fetch the proxy, or the original, and open the player on it.
    Play(MediaFile),
    /// Fetch the original to the cache.
    Download(MediaFile),
    /// Fetch the still and open the viewer on it.
    Photo(MediaFile),
    PlayerToggle,
    /// Where to go, in milliseconds.
    PlayerSeek(i64),
    /// Back to the library from the player or the viewer.
    ClosePlayer,
}

/// The card as listed, and how the operator is looking at it.
#[derive(Debug, Clone)]
pub struct Library {
    pub files: Vec<MediaFile>,
    pub tab: LibraryTab,
    /// Local: only what is on this machine.
    pub local: bool,
    pub sort: LibrarySort,
    pub selected: Option<String>,
    /// Stars the operator set here, over the camera's own.
    pub favorites: PathSet,
    /// Originals on disk.
    pub cached: PathSet,
    /// Proxies on disk.
    pub proxies: PathSet,
    /// Transfers in flight: `(done, total)`.
    pub progress: PathMap<(u64, Option<u64>)>,
    /// A word about a file: a failure, or what is on disk.
    pub notes: PathMap<String>,
    /// The file whose DELETE was tapped once; the next tap sends it.
    pub delete_armed: Option<String>,
    pub status: String,
    /// Thumbnails already asked for, so a redraw does not ask again.
    pub thumbs_asked: PathSet,
    pub listing: bool,
    /// The paths on screen, in grid order, so a tapped index finds its file. Day headers
    /// are empty paths.
    pub visible: Vec<String>,
}

impl Default for Library {
    fn default() -> (library: Self)
        ensures
            library.wf(),
            library.files@.len() == 0,
            library.tab == LibraryTab::All,
            !library.local,
            library.sort == LibrarySort::Newest,
            library.selected is None,
            library.favorites@.is_empty(),
            library.cached@.is_empty(),
            library.proxies@.is_empty(),
            library.progress@.is_empty(),
            library.notes@.is_empty(),
            library.delete_armed is None,
            library.status@.len() == 0,
            library.thumbs_asked@.is_empty(),
            !library.listing,
            library.visible@.len() == 0,
    {
        Library {
            files: Vec::new(),
            tab: LibraryTab::All,
            local: false,
            sort: LibrarySort::Newest,
            selected: None,
            favorites: PathSet::new(),
            cached: PathSet::new(),
            proxies: PathSet::new(),
            progress: PathMap::new(),
            notes: PathMap::new(),
            delete_armed: None,
            status: String::new(),
            thumbs_asked: PathSet::new(),
            listing: false,
            visible: Vec::new(),
        }
    }
}

/// On this machine: the original or a proxy is on disk.
pub open spec fn on_disk(file: MediaFile, cached: Set<Seq<char>>, proxies: Set<Seq<char>>) -> bool {
    cached.contains(file.path@) || proxies.contains(file.path@)
}

/// The first file listed under `path`, as an index, or every file is under another path.
pub open spec fn is_first_with_path(files: Seq<MediaFile>, path: Seq<char>, found: Option<MediaFile>) -> bool {
    match found {
        Some(file) => exists|i: int|
            0 <= i < files.len() && files[i] == file && file.path@ == path && forall|k: int|
                0 <= k < i ==> #[trigger] files[k].path@ != path,
        None => forall|k: int| 0 <= k < files.len() ==> #[trigger] files[k].path@ != path,
    }
}

pub open spec fn found_value(found: Option<&MediaFile>) -> Option<MediaFile> {
    match found {
        Some(file) => Some(*file),
        None => None,
    }
}

/// The day header's title: `Undated`, `Today`, `yyyy-mm-dd` for a stamp, or the key.
pub open spec fn day_title_text(key: Seq<char>, today: Seq<char>) -> Seq<char> {
    if key.len() == 0 {
        "Undated"@
    } else if key == today {
        "Today"@
    } else if key.len() == 8 {
        key.subrange(0, 4) + "-"@ + key.subrange(4, 6) + "-"@ + key.subrange(6, 8)
    } else {
        key
    }
}

/// The pieces of a file's detail line: running time for a clip, resolution, rate, size.
pub open spec fn meta_parts(file: MediaFile) -> Seq<Seq<char>> {
    (if spec_kind(file.path@) == MediaKind::Video {
        seq![duration_text(file.duration_seconds)]
    } else {
        Seq::empty()
    }) + (match file.resolution {
        Some(resolution) => seq![resolution@],
        None => Seq::empty(),
    }) + (match file.fps {
        Some(fps) => seq![signed_decimal(fps as int) + " fps"@],
        None => Seq::empty(),
    }) + (if size_text(file.size_bytes).len() > 0 {
        seq![size_text(file.size_bytes)]
    } else {
        Seq::empty()
    })
}

/// Pieces joined with `separator` between them.
pub open spec fn joined_with(parts: Seq<Seq<char>>, separator: Seq<char>) -> Seq<char>
    decreases parts.len(),
{
    if parts.len() == 0 {
        Seq::empty()
    } else if parts.len() == 1 {
        parts[0]
    } else {
        joined_with(parts.drop_last(), separator) + separator + parts.last()
    }
}

pub open spec fn path_list(paths: Seq<String>) -> Seq<Seq<char>> {
    paths.map_values(|path: String| path@)
}

pub open spec fn selected_is(selected: Option<String>, path: Seq<char>) -> bool {
    selected matches Some(s) && s@ == path
}

/// `i` is the first file listed under `path`.
pub open spec fn is_first_at(files: Seq<MediaFile>, path: Seq<char>, i: int) -> bool {
    &&& 0 <= i < files.len()
    &&& files[i].path@ == path
    &&& forall|k: int| 0 <= k < i ==> #[trigger] files[k].path@ != path
}

/// No file is listed under `path`.
pub open spec fn none_with_path(files: Seq<MediaFile>, path: Seq<char>) -> bool {
    forall|k: int| 0 <= k < files.len() ==> #[trigger] files[k].path@ != path
}

pub proof fn lemma_first_unique(files: Seq<MediaFile>, path: Seq<char>, i: int, j: int)
    requires
        is_first_at(files, path, i),
        is_first_at(files, path, j),
    ensures
        i == j,
{
    if i < j {
        assert(files[i].path@ != path);
    } else if j < i {
        assert(files[j].path@ != path);
    }
}

pub open spec fn armed_on(armed: Option<String>, path: Seq<char>) -> bool {
    armed matches Some(a) && a@ == path
}

/// A star tap turns the star on when neither the overlay nor the camera has it.
pub open spec fn star_turns_on(library: Library, path: Seq<char>) -> bool {
    !library.favorites@.contains(path) && !(exists|i: int|
        is_first_at(library.files@, path, i) && library.files@[i].is_starred)
}

/// The second DELETE tap on `file`: a vouched handle is sent and every record under its
/// path leaves the grid; any other handle sends nothing and leaves the grid alone.
pub open spec fn deleted(
    before: Library,
    after: Library,
    file: MediaFile,
    counter: u32,
    command: Option<Command>,
) -> bool {
    if file.handle != 0 && !file.handle_shared {
        &&& command == Some(Command::MediaDelete { handle: file.handle, counter })
        &&& after.files@ == before.files@.filter(|f: MediaFile| f.path@ != file.path@)
        &&& after.selected is None
        &&& after.status@ == "Deleted "@ + file_name(file.path@)
    } else {
        &&& command is None
        &&& after.files == before.files
        &&& after.selected == before.selected
        &&& after.status == before.status
    }
}

/// One slot of the grid: a day header or a tile. Its place is given in grid units: the
/// column, and above it `bands` header bands and `rows` tile rows.
#[derive(Debug, Clone, PartialEq, Eq)]
pub struct GridCell {
    pub path: String,
    pub header: bool,
    pub title: String,
    pub meta: String,
    pub column: usize,
    pub bands: usize,
    pub rows: usize,
    pub is_video: bool,
    pub starred: bool,
    pub cached: bool,
    pub selected: bool,
}

pub struct CellModel {
    pub path: Seq<char>,
    pub header: bool,
    pub title: Seq<char>,
    pub meta: Seq<char>,
    pub column: nat,
    pub bands: nat,
    pub rows: nat,
    pub is_video: bool,
    pub starred: bool,
    pub cached: bool,
    pub selected: bool,
}

impl View for GridCell {
    type V = CellModel;

    open spec fn view(&self) -> CellModel {
        CellModel {
            path: self.path@,
            header: self.header,
            title: self.title@,
            meta: self.meta@,
            column: self.column as nat,
            bands: self.bands as nat,
            rows: self.rows as nat,
            is_video: self.is_video,
            starred: self.starred,
            cached: self.cached,
            selected: self.selected,
        }
    }
}

pub open spec fn cell_views(cells: Seq<GridCell>) -> Seq<CellModel> {
    cells.map_values(|cell: GridCell| cell@)
}

/// Where the layout stands after some files: the day being laid out, the next column,
/// and the bands and rows above the current row.
pub struct LayoutAt {
    pub day: Option<Seq<char>>,
    pub column: nat,
    pub bands: nat,
    pub rows: nat,
}

pub open spec fn header_model(title: Seq<char>, bands: nat, rows: nat) -> CellModel {
    CellModel {
        path: Seq::empty(),
        header: true,
        title,
        meta: Seq::empty(),
        column: 0,
        bands,
        rows,
        is_video: false,
        starred: false,
        cached: false,
        selected: false,
    }
}

pub open spec fn tile_model(library: Library, file: MediaFile, column: nat, bands: nat, rows: nat) -> CellModel {
    let video = spec_kind(file.path@) == MediaKind::Video;
    CellModel {
        path: file.path@,
        header: false,
        title: file_name(file.path@),
        meta: if video {
            duration_text(file.duration_seconds)
        } else {
            extension_of(file.path@)
        },
        column,
        bands,
        rows,
        is_video: video,
        starred: library.spec_is_starred(file),
        cached: library.cached@.contains(file.path@),
        selected: selected_is(library.selected, file.path@),
    }
}

/// One file laid out: a new day opens a header band below the last row, a full row
/// wraps, and the tile takes the next column.
pub open spec fn place(library: Library, today: Seq<char>, columns: nat, at: LayoutAt, file: MediaFile) -> (LayoutAt, Seq<CellModel>) {
    let key = date_key_of(file.path@);
    if at.day != Some(key) {
        let rows = if at.day is Some {
            at.rows + 1
        } else {
            at.rows
        };
        let header = header_model(day_title_text(key, today), at.bands, rows);
        let tile = tile_model(library, file, 0, at.bands + 1, rows);
        (LayoutAt { day: Some(key), column: 1, bands: at.bands + 1, rows }, seq![header, tile])
    } else if at.column == columns {
        (
            LayoutAt { column: 1, rows: at.rows + 1, ..at },
            seq![tile_model(library, file, 0, at.bands, at.rows + 1)],
        )
    } else {
        (
            LayoutAt { column: at.column + 1, ..at },
            seq![tile_model(library, file, at.column, at.bands, at.rows)],
        )
    }
}

/// The grid for `files`, in order.
pub open spec fn layout(library: Library, today: Seq<char>, columns: nat, files: Seq<MediaFile>) -> (LayoutAt, Seq<CellModel>)
    decreases files.len(),
{
    if files.len() == 0 {
        (LayoutAt { day: None, column: 0, bands: 0, rows: 0 }, Seq::empty())
    } else {
        let (at, cells) = layout(library, today, columns, files.drop_last());
        let (next, added) = place(library, today, columns, at, files.last());
        (next, cells + added)
    }
}

/// What the detail panel shows for the selection.
#[derive(Debug, Clone, PartialEq, Eq)]
pub struct SelectionView {
    pub title: String,
    pub meta: String,
    pub is_video: bool,
    pub starred: bool,
    pub cached: bool,
    pub deletable: bool,
    pub delete_armed: bool,
    /// A transfer in flight: bytes done, and the total when the server gave one.
    pub progress: Option<(u64, Option<u64>)>,
    pub note: String,
}

pub open spec fn note_text(library: Library, path: Seq<char>) -> Seq<char> {
    let note = if library.notes@.contains_key(path) {
        library.notes@[path]@
    } else {
        Seq::empty()
    };
    if note.len() == 0 && library.proxies@.contains(path) {
        "Proxy on disk"@
    } else {
        note
    }
}

/// The selection panel for `file`.
pub open spec fn selection_shows(library: Library, file: MediaFile, view: SelectionView) -> bool {
    &&& view.title@ == file_name(file.path@)
    &&& view.meta@ == joined_with(meta_parts(file), " · "@)
    &&& view.is_video == (spec_kind(file.path@) == MediaKind::Video)
    &&& view.starred == library.spec_is_starred(file)
    &&& view.cached == library.cached@.contains(file.path@)
    &&& view.deletable == (file.handle != 0 && !file.handle_shared)
    &&& view.delete_armed == armed_on(library.delete_armed, file.path@)
    &&& view.progress == (if library.progress@.contains_key(file.path@) {
        Some(library.progress@[file.path@])
    } else {
        None
    })
    &&& view.note@ == note_text(library, file.path@)
}

/// The status line under the grid.
pub open spec fn status_text(library: Library) -> Seq<char> {
    let count = library.files@.len();
    if library.listing {
        if count == 0 {
            "Listing the card…"@
        } else {
            decimal(count) + " files · listing more…"@
        }
    } else if library.status@.len() > 0 {
        library.status@
    } else if count == 0 {
        "Nothing listed. Refresh to ask the camera again."@
    } else {
        decimal(count) + " files"@
    }
}

/// What the chrome draws for the library, in grid units.
#[derive(Debug, Clone, PartialEq, Eq)]
pub struct LibraryView {
    pub tab: usize,
    pub local: bool,
    pub sort_label: String,
    pub status: String,
    pub cells: Vec<GridCell>,
    /// The bands and rows above the last row, when there is one; the grid ends a row
    /// below it.
    pub content: Option<(usize, usize)>,
    pub selection: Option<SelectionView>,
}

/// A star tap on the selection: the overlay flips and the first record under the path
/// takes the new star; the camera is told when that record has a handle.
pub open spec fn star_toggled(before: Library, after: Library, counter: u32, command: Option<Command>) -> bool {
    match before.selected {
        None => command is None && after == before,
        Some(path) => {
            let on = star_turns_on(before, path@);
            &&& after == (Library { favorites: after.favorites, files: after.files, ..before })
            &&& after.favorites@ == (if on {
                before.favorites@.insert(path@)
            } else {
                before.favorites@.remove(path@)
            })
            &&& none_with_path(before.files@, path@) ==> command is None && after.files
                == before.files
            &&& forall|i: int|
                is_first_at(before.files@, path@, i) ==> after.files@ == before.files@.update(
                    i,
                    MediaFile { is_starred: on, ..before.files@[i] },
                ) && command == (if before.files@[i].handle != 0 {
                    Some(Command::MediaFavorite { handle: before.files@[i].handle, counter, on })
                } else {
                    None
                })
        },
    }
}

/// A DELETE tap on the selection: the first tap arms; the second disarms and deletes
/// the first record under the path when its handle is vouched for.
pub open spec fn delete_tap(before: Library, after: Library, counter: u32, command: Option<Command>) -> bool {
    match before.selected {
        None => command is None && after == before,
        Some(path) => {
            &&& after == (Library {
                delete_armed: after.delete_armed,
                files: after.files,
                selected: after.selected,
                status: after.status,
                ..before
            })
            &&& if !armed_on(before.delete_armed, path@) {
                &&& command is None
                &&& armed_on(after.delete_armed, path@)
                &&& after.files == before.files
                &&& after.selected == before.selected
                &&& after.status == before.status
            } else {
                &&& after.delete_armed is None
                &&& none_with_path(before.files@, path@) ==> command is None && after.files
                    == before.files && after.selected == before.selected && after.status
                    == before.status
                &&& forall|i: int|
                    is_first_at(before.files@, path@, i) ==> deleted(
                        before,
                        after,
                        before.files@[i],
                        counter,
                        command,
                    )
            }
        },
    }
}

/// One DELETE tap never deletes: the first tap on a selection only arms it, sends
/// nothing and leaves the grid as it was.
pub proof fn lemma_first_tap_only_arms(
    before: Library,
    after: Library,
    counter: u32,
    command: Option<Command>,
)
    requires
        delete_tap(before, after, counter, command),
        before.selected matches Some(path) && !armed_on(before.delete_armed, path@),
    ensures
        command is None,
        after.files == before.files,
        after.selected == before.selected,
        armed_on(after.delete_armed, before.selected->0@),
{
}

/// A tap on grid cell `index`: a file cell selects its path and disarms any delete; a
/// header or a miss changes nothing.
pub open spec fn index_selected(before: Library, after: Library, index: usize) -> bool {
    if index < before.visible@.len() && before.visible@[index as int]@.len() > 0 {
        &&& after == (Library { selected: after.selected, delete_armed: None, ..before })
        &&& after.selected matches Some(path) && path@ == before.visible@[index as int]@
    } else {
        after == before
    }
}

fn push_joined(out: &mut String, parts: &Vec<String>, separator: &str)
    ensures
        final(out)@ == old(out)@ + joined_with(path_list(parts@), separator@),
{
    let mut i: usize = 0;
    while i < parts.len()
        invariant
            i <= parts@.len(),
            out@ == old(out)@ + joined_with(path_list(parts@.subrange(0, i as int)), separator@),
        decreases parts@.len() - i,
    {
        let ghost before = out@;
        if i > 0 {
            push_str(out, separator);
        }
        push_str(out, parts[i].as_str());
        proof {
            let done = path_list(parts@.subrange(0, i + 1));
            assert(done.drop_last() =~= path_list(parts@.subrange(0, i as int)));
            assert(done.last() == parts@[i as int]@);
            if i == 0 {
                assert(done.len() == 1);
                assert(out@ =~= old(out)@ + joined_with(done, separator@));
            } else {
                assert(out@ =~= old(out)@ + joined_with(done, separator@));
            }
        }
        i = i + 1;
    }
    proof {
        assert(parts@.subrange(0, i as int) =~= parts@);
    }
}

fn owned_opt(text: &Option<String>) -> (copy: Option<String>)
    ensures
        match (copy, *text) {
            (Some(a), Some(b)) => a@ == b@,
            (None, None) => true,
            _ => false,
        },
{
    match text {
        Some(t) => Some(crate::text::owned(t.as_str())),
        None => None,
    }
}

/// Two libraries that show the same grid: the same files, tab, narrowing, order, stars,
/// and files on disk.
pub open spec fn same_grid(a: Library, b: Library) -> bool {
    &&& a.files == b.files
    &&& a.tab == b.tab
    &&& a.local == b.local
    &&& a.sort == b.sort
    &&& a.favorites@ == b.favorites@
    &&& a.cached@ == b.cached@
    &&& a.proxies@ == b.proxies@
}

/// What one call of `thumbs_wanted` does: it hands out the grid's files whose thumbnails
/// were not asked for, in grid order, notes their paths as asked, and leaves the grid.
pub open spec fn thumbs_handed(before: Library, after: Library, wanted: Seq<MediaFile>) -> bool {
    &&& wanted == before.shown().filter(
        |file: MediaFile| !before.thumbs_asked@.contains(file.path@),
    )
    &&& after.thumbs_asked@ == before.thumbs_asked@.union(
        wanted.map_values(|file: MediaFile| file.path@).to_set(),
    )
    &&& same_grid(before, after)
}

impl Library {
    /// Every set and map holds each path once.
    pub open spec fn wf(&self) -> bool {
        &&& self.favorites.wf()
        &&& self.cached.wf()
        &&& self.proxies.wf()
        &&& self.progress.wf()
        &&& self.notes.wf()
        &&& self.thumbs_asked.wf()
    }

    /// The files on the current tab, narrowed to this machine in Local.
    pub open spec fn in_tab(&self) -> Seq<MediaFile> {
        let tabbed = self.files@.filter(|file: MediaFile| shows_on(file, self.tab, self.favorites@));
        if self.local {
            tabbed.filter(|file: MediaFile| on_disk(file, self.cached@, self.proxies@))
        } else {
            tabbed
        }
    }

    /// The grid: the tab's files in the current order.
    pub open spec fn shown(&self) -> Seq<MediaFile> {
        ranked(self.in_tab(), self.sort)
    }

    pub open spec fn spec_is_starred(&self, file: MediaFile) -> bool {
        file.is_starred || self.favorites@.contains(file.path@)
    }

    fn index_of(&self, path: &str) -> (at: Option<usize>)
        ensures
            at matches Some(i) ==> i < self.files@.len() && self.files@[i as int].path@ == path@
                && forall|k: int| 0 <= k < i ==> #[trigger] self.files@[k].path@ != path@,
            at is None ==> forall|k: int|
                0 <= k < self.files@.len() ==> #[trigger] self.files@[k].path@ != path@,
    {
        let mut i: usize = 0;
        while i < self.files.len()
            invariant
                i <= self.files@.len(),
                forall|k: int| 0 <= k < i ==> #[trigger] self.files@[k].path@ != path@,
            decreases self.files@.len() - i,
        {
            if str_eq(self.files[i].path.as_str(), path) {
                return Some(i);
            }
            i = i + 1;
        }
        None
    }

    /// The first file listed under `path`.
    pub fn file(&self, path: &str) -> (found: Option<&MediaFile>)
        ensures
            is_first_with_path(self.files@, path@, found_value(found)),
    {
        match self.index_of(path) {
            Some(i) => Some(&self.files[i]),
            None => None,
        }
    }

    /// The file the operator selected, while it is still listed.
    pub fn selected_file(&self) -> (found: Option<&MediaFile>)
        ensures
            self.selected is None ==> found is None,
            self.selected matches Some(path) ==> is_first_with_path(
                self.files@,
                path@,
                found_value(found),
            ),
    {
        match &self.selected {
            Some(path) => self.file(path.as_str()),
            None => None,
        }
    }

    /// The grid in the current tab and order.
    pub fn visible_files(&self) -> (visible: Vec<&MediaFile>)
        requires
            self.wf(),
        ensures
            targets(visible@) == self.shown(),
    {
        let tabbed = filtered(self.files.as_slice(), self.tab, &self.favorites);
        let kept = if self.local {
            let ghost keep = |file: MediaFile| on_disk(file, self.cached@, self.proxies@);
            let mut kept: Vec<&MediaFile> = Vec::new();
            let mut i: usize = 0;
            while i < tabbed.len()
                invariant
                    i <= tabbed@.len(),
                    keep == (|file: MediaFile| on_disk(file, self.cached@, self.proxies@)),
                    targets(kept@) == targets(tabbed@).subrange(0, i as int).filter(keep),
                decreases tabbed@.len() - i,
            {
                let file = tabbed[i];
                proof {
                    assert(targets(tabbed@).subrange(0, i + 1) =~= targets(tabbed@).subrange(
                        0,
                        i as int,
                    ).push(*file));
                    targets(tabbed@).subrange(0, i as int).lemma_filter_push(*file, keep);
                }
                if self.cached.contains(file.path.as_str()) || self.proxies.contains(
                    file.path.as_str(),
                ) {
                    let ghost before = kept@;
                    kept.push(file);
                    proof {
                        assert(targets(kept@) =~= targets(before).push(*file));
                    }
                }
                i = i + 1;
            }
            proof {
                assert(targets(tabbed@).subrange(0, i as int) =~= targets(tabbed@));
            }
            kept
        } else {
            tabbed
        };
        sorted(kept, self.sort)
    }

    /// Starred on the camera, or here.
    pub fn is_starred(&self, file: &MediaFile) -> (starred: bool)
        ensures
            starred == self.spec_is_starred(*file),
    {
        file.is_starred || self.favorites.contains(file.path.as_str())
    }

    /// The detail line: running time for a clip, resolution, rate and size, joined by
    /// middle dots.
    pub fn meta(&self, file: &MediaFile) -> (meta: String)
        ensures
            meta@ == joined_with(meta_parts(*file), " · "@),
    {
        let mut parts: Vec<String> = Vec::new();
        if file.is_video() {
            parts.push(file.duration_label());
        }
        let ghost first = path_list(parts@);
        match &file.resolution {
            Some(resolution) => {
                parts.push(crate::text::owned(resolution.as_str()));
            },
            None => {},
        }
        let ghost second = path_list(parts@);
        match file.fps {
            Some(fps) => {
                let mut rate = String::new();
                push_signed(&mut rate, fps);
                push_str(&mut rate, " fps");
                proof {
                    assert(rate@ =~= signed_decimal(fps as int) + " fps"@);
                }
                parts.push(rate);
            },
            None => {},
        }
        let ghost third = path_list(parts@);
        let size = file.size_label();
        if crate::text::chars_of(size.as_str()).len() > 0 {
            parts.push(size);
        }
        proof {
            assert(path_list(parts@) =~= meta_parts(*file));
        }
        let mut meta = String::new();
        push_joined(&mut meta, &parts, " · ");
        proof {
            assert(meta@ =~= joined_with(meta_parts(*file), " · "@));
        }
        meta
    }

    /// The visible files whose thumbnails have not been asked for yet; from now on they
    /// have been.
    pub fn thumbs_wanted(&mut self) -> (wanted: Vec<MediaFile>)
        requires
            old(self).wf(),
        ensures
            final(self).wf(),
            thumbs_handed(*old(self), *final(self), wanted@),
            final(self).files == old(self).files,
            final(self).tab == old(self).tab,
            final(self).local == old(self).local,
            final(self).sort == old(self).sort,
            final(self).selected == old(self).selected,
            final(self).favorites == old(self).favorites,
            final(self).cached == old(self).cached,
            final(self).proxies == old(self).proxies,
            final(self).progress == old(self).progress,
            final(self).notes == old(self).notes,
            final(self).delete_armed == old(self).delete_armed,
            final(self).status == old(self).status,
            final(self).listing == old(self).listing,
            final(self).visible == old(self).visible,
    {
        let visible = self.visible_files();
        let ghost unasked = |file: MediaFile| !self.thumbs_asked@.contains(file.path@);
        let mut wanted: Vec<MediaFile> = Vec::new();
        let mut i: usize = 0;
        while i < visible.len()
            invariant
                i <= visible@.len(),
                unasked == (|file: MediaFile| !self.thumbs_asked@.contains(file.path@)),
                wanted@ == targets(visible@).subrange(0, i as int).filter(unasked),
            decreases visible@.len() - i,
        {
            let file = visible[i];
            proof {
                assert(targets(visible@).subrange(0, i + 1) =~= targets(visible@).subrange(
                    0,
                    i as int,
                ).push(*file));
                targets(visible@).subrange(0, i as int).lemma_filter_push(*file, unasked);
            }
            if !self.thumbs_asked.contains(file.path.as_str()) {
                wanted.push(file.clone());
            }
            i = i + 1;
        }
        proof {
            assert(targets(visible@).subrange(0, i as int) =~= targets(visible@));
        }
        let ghost asked = self.thumbs_asked@;
        let mut now_asked = PathSet::new();
        std::mem::swap(&mut now_asked, &mut self.thumbs_asked);
        let mut j: usize = 0;
        while j < wanted.len()
            invariant
                j <= wanted@.len(),
                now_asked.wf(),
                now_asked@ == asked.union(
                    wanted@.subrange(0, j as int).map_values(|file: MediaFile| file.path@).to_set(),
                ),
            decreases wanted@.len() - j,
        {
            let path = crate::text::owned(wanted[j].path.as_str());
            now_asked.insert(path);
            proof {
                let paths = |file: MediaFile| file.path@;
                assert(wanted@.subrange(0, j + 1).map_values(paths) =~= wanted@.subrange(
                    0,
                    j as int,
                ).map_values(paths).push(wanted@[j as int].path@));
                wanted@.subrange(0, j as int).map_values(paths).lemma_push_to_set_commute(
                    wanted@[j as int].path@,
                );
                assert(now_asked@ =~= asked.union(
                    wanted@.subrange(0, j + 1).map_values(paths).to_set(),
                ));
            }
            j = j + 1;
        }
        proof {
            assert(wanted@.subrange(0, j as int) =~= wanted@);
        }
        std::mem::swap(&mut now_asked, &mut self.thumbs_asked);
        wanted
    }

    /// A star toggled on the selection: the local overlay flips, and the camera is told
    /// when the record carries a handle to tell it with.
    pub fn toggle_favorite(&mut self, counter: u32) -> (command: Option<Command>)
        requires
            old(self).wf(),
        ensures
            final(self).wf(),
            star_toggled(*old(self), *final(self), counter, command),
    {
        let path = match &self.selected {
            Some(path) => crate::text::owned(path.as_str()),
            None => {
                return None;
            },
        };
        let at = self.index_of(path.as_str());
        let starred = match at {
            Some(i) => self.files[i].is_starred,
            None => false,
        };
        let on = !self.favorites.contains(path.as_str()) && !starred;
        proof {
            match at {
                Some(i) => {
                    assert(is_first_at(self.files@, path@, i as int));
                    assert forall|j: int| is_first_at(self.files@, path@, j) implies j == i by {
                        lemma_first_unique(self.files@, path@, i as int, j);
                    }
                },
                None => {
                    assert(none_with_path(self.files@, path@));
                },
            }
            assert(on == star_turns_on(*self, path@));
        }
        if on {
            self.favorites.insert(path);
        } else {
            self.favorites.remove(path.as_str());
        }
        match at {
            Some(i) => {
                let mut file = self.files[i].clone();
                file.is_starred = on;
                let handle = file.favorite_handle();
                self.files.set(i, file);
                if handle != 0 {
                    Some(Command::MediaFavorite { handle, counter, on })
                } else {
                    None
                }
            },
            None => None,
        }
    }

    /// DELETE tapped on the selection: the first tap arms, the second sends. Only a
    /// handle the catalogue vouched for ever goes on the wire.
    pub fn delete_tapped(&mut self, counter: u32) -> (command: Option<Command>)
        requires
            old(self).wf(),
        ensures
            final(self).wf(),
            delete_tap(*old(self), *final(self), counter, command),
    {
        let path = match &self.selected {
            Some(path) => crate::text::owned(path.as_str()),
            None => {
                return None;
            },
        };
        let armed = match &self.delete_armed {
            Some(armed) => str_eq(armed.as_str(), path.as_str()),
            None => false,
        };
        if !armed {
            self.delete_armed = Some(path);
            return None;
        }
        self.delete_armed = None;
        let at = match self.index_of(path.as_str()) {
            Some(i) => i,
            None => {
                return None;
            },
        };
        let file = self.files[at].clone();
        if !file.is_deletable() {
            return None;
        }
        let ghost before = self.files@;
        let ghost gone = |f: MediaFile| f.path@ != path@;
        let mut kept: Vec<MediaFile> = Vec::new();
        let mut i: usize = 0;
        while i < self.files.len()
            invariant
                i <= self.files@.len(),
                self.files@ == before,
                gone == (|f: MediaFile| f.path@ != path@),
                kept@ == before.subrange(0, i as int).filter(gone),
            decreases self.files@.len() - i,
        {
            proof {
                assert(before.subrange(0, i + 1) =~= before.subrange(0, i as int).push(
                    before[i as int],
                ));
                before.subrange(0, i as int).lemma_filter_push(before[i as int], gone);
            }
            if !str_eq(self.files[i].path.as_str(), path.as_str()) {
                kept.push(self.files[i].clone());
            }
            i = i + 1;
        }
        proof {
            assert(before.subrange(0, i as int) =~= before);
        }
        self.files = kept;
        self.selected = None;
        let mut status = crate::text::owned("Deleted ");
        push_str(&mut status, file.filename());
        self.status = status;
        Some(Command::MediaDelete { handle: file.handle, counter })
    }

    /// A tap on grid cell `index`: a file is selected, and any armed delete disarms. A
    /// header or a miss changes nothing.
    pub fn select_index(&mut self, index: usize)
        requires
            old(self).wf(),
        ensures
            final(self).wf(),
            index_selected(*old(self), *final(self), index),
    {
        if index < self.visible.len() {
            let count = crate::text::chars_of(self.visible[index].as_str()).len();
            if count > 0 {
                self.selected = Some(crate::text::owned(self.visible[index].as_str()));
                self.delete_armed = None;
            }
        }
    }

    fn day_title(date_key: &str, today: &str) -> (title: String)
        ensures
            title@ == day_title_text(date_key@, today@),
    {
        let key = chars_of(date_key);
        if key.len() == 0 {
            return owned("Undated");
        }
        if str_eq(date_key, today) {
            return owned("Today");
        }
        if key.len() == 8 {
            let mut title = crate::text::string_of(crate::text::prefix_of(key.as_slice(), 4).as_slice());
            push_str(&mut title, "-");
            push_char(&mut title, key[4]);
            push_char(&mut title, key[5]);
            push_str(&mut title, "-");
            push_char(&mut title, key[6]);
            push_char(&mut title, key[7]);
            proof {
                reveal_strlit("-");
                assert(title@ =~= day_title_text(date_key@, today@));
            }
            return title;
        }
        owned(date_key)
    }

    fn status_line(&self) -> (line: String)
        ensures
            line@ == status_text(*self),
    {
        let count = self.files.len();
        let mut line = String::new();
        if self.listing {
            if count == 0 {
                push_str(&mut line, "Listing the card…");
            } else {
                push_decimal(&mut line, count as u64);
                push_str(&mut line, " files · listing more…");
            }
        } else if chars_of(self.status.as_str()).len() > 0 {
            push_str(&mut line, self.status.as_str());
        } else if count == 0 {
            push_str(&mut line, "Nothing listed. Refresh to ask the camera again.");
        } else {
            push_decimal(&mut line, count as u64);
            push_str(&mut line, " files");
        }
        proof {
            assert(line@ =~= status_text(*self));
        }
        line
    }

    fn selection(&self, file: &MediaFile) -> (view: SelectionView)
        requires
            self.wf(),
        ensures
            selection_shows(*self, *file, view),
    {
        let progress = match self.progress.get(file.path.as_str()) {
            Some(entry) => Some(*entry),
            None => None,
        };
        let mut note = match self.notes.get(file.path.as_str()) {
            Some(text) => owned(text.as_str()),
            None => String::new(),
        };
        if chars_of(note.as_str()).len() == 0 && self.proxies.contains(file.path.as_str()) {
            note = owned("Proxy on disk");
        }
        let delete_armed = match &self.delete_armed {
            Some(armed) => str_eq(armed.as_str(), file.path.as_str()),
            None => false,
        };
        SelectionView {
            title: owned(file.filename()),
            meta: self.meta(file),
            is_video: file.is_video(),
            starred: self.is_starred(file),
            cached: self.cached.contains(file.path.as_str()),
            deletable: file.is_deletable(),
            delete_armed,
            progress,
            note,
        }
    }

    fn tile(&self, file: &MediaFile, column: usize, bands: usize, rows: usize) -> (cell: GridCell)
        requires
            self.wf(),
        ensures
            cell@ == tile_model(*self, *file, column as nat, bands as nat, rows as nat),
    {
        let video = file.is_video();
        let selected = match &self.selected {
            Some(path) => str_eq(path.as_str(), file.path.as_str()),
            None => false,
        };
        GridCell {
            path: owned(file.path.as_str()),
            header: false,
            title: owned(file.filename()),
            meta: if video {
                file.duration_label()
            } else {
                file.extension()
            },
            column,
            bands,
            rows,
            is_video: video,
            starred: self.is_starred(file),
            cached: self.cached.contains(file.path.as_str()),
            selected,
        }
    }

    /// What the chrome draws for a grid `columns` tiles wide (at least one): the tiles
    /// laid out under day headers. Also records the cell order for taps, headers as
    /// empty slots.
    pub fn state(&mut self, columns: usize, today: &str) -> (view: LibraryView)
        requires
            old(self).wf(),
        ensures
            final(self).wf(),
            ({
                let width = if columns == 0 {
                    1nat
                } else {
                    columns as nat
                };
                let (at, cells) = layout(*old(self), today@, width, old(self).shown());
                &&& cell_views(view.cells@) == cells
                &&& path_list(final(self).visible@) == cells.map_values(
                    |cell: CellModel| cell.path,
                )
                &&& view.content == (if old(self).shown().len() == 0 {
                    None
                } else {
                    Some((at.bands as usize, at.rows as usize))
                })
            }),
            view.tab == tab_position(old(self).tab),
            view.local == old(self).local,
            view.sort_label@ == sort_label(old(self).sort),
            view.status@ == status_text(*old(self)),
            match old(self).selected {
                None => view.selection is None,
                Some(path) => (none_with_path(old(self).files@, path@) ==> view.selection is None)
                    && forall|i: int|
                    is_first_at(old(self).files@, path@, i) ==> (view.selection matches Some(
                        panel,
                    ) && selection_shows(*old(self), old(self).files@[i], panel)),
            },
            *final(self) == (Library { visible: final(self).visible, ..*old(self) }),
    {
        let width: usize = if columns == 0 {
            1
        } else {
            columns
        };
        let refs = self.visible_files();
        let mut visible: Vec<MediaFile> = Vec::new();
        let mut k: usize = 0;
        while k < refs.len()
            invariant
                k <= refs@.len(),
                visible@ == targets(refs@).subrange(0, k as int),
            decreases refs@.len() - k,
        {
            visible.push(refs[k].clone());
            k = k + 1;
            proof {
                assert(visible@ =~= targets(refs@).subrange(0, k as int));
            }
        }
        proof {
            assert(visible@ =~= self.shown());
        }
        let ghost lib = *self;
        let mut cells: Vec<GridCell> = Vec::new();
        let mut order: Vec<String> = Vec::new();
        let mut day: Option<String> = None;
        let mut column: usize = 0;
        let mut bands: usize = 0;
        let mut rows: usize = 0;
        let mut i: usize = 0;
        while i < visible.len()
            invariant
                lib == *self,
                self.wf(),
                width >= 1,
                i <= visible@.len(),
                column <= width,
                bands <= i,
                rows <= i,
                ({
                    let (at, laid) = layout(lib, today@, width as nat, visible@.subrange(0, i as int));
                    &&& at.column == column
                    &&& at.bands == bands
                    &&& at.rows == rows
                    &&& at.day == match day {
                        Some(d) => Some(d@),
                        None => None::<Seq<char>>,
                    }
                    &&& cell_views(cells@) == laid
                    &&& path_list(order@) == laid.map_values(|cell: CellModel| cell.path)
                }),
            decreases visible@.len() - i,
        {
            let file = &visible[i];
            let ghost before_cells = cells@;
            let ghost before_order = order@;
            let ghost prev = layout(lib, today@, width as nat, visible@.subrange(0, i as int));
            let key = file.date_key();
            let same = match &day {
                Some(d) => str_eq(d.as_str(), key),
                None => false,
            };
            if !same {
                if day.is_some() {
                    rows = rows + 1;
                }
                let header = GridCell {
                    path: String::new(),
                    header: true,
                    title: Self::day_title(key, today),
                    meta: String::new(),
                    column: 0,
                    bands,
                    rows,
                    is_video: false,
                    starred: false,
                    cached: false,
                    selected: false,
                };
                cells.push(header);
                order.push(String::new());
                bands = bands + 1;
                day = Some(owned(key));
                column = 0;
            } else if column == width {
                column = 0;
                rows = rows + 1;
            }
            let cell = self.tile(file, column, bands, rows);
            cells.push(cell);
            order.push(owned(file.path.as_str()));
            column = column + 1;
            proof {
                let sub = visible@.subrange(0, i + 1);
                assert(sub.drop_last() =~= visible@.subrange(0, i as int));
                assert(sub.last() == *file);
                let (next, added) = place(lib, today@, width as nat, prev.0, *file);
                assert(layout(lib, today@, width as nat, sub) == (next, prev.1 + added));
                assert(cell_views(cells@) =~= prev.1 + added);
                let paths = |cell: CellModel| cell.path;
                assert(added.map_values(paths) =~= path_list(order@).subrange(
                    before_order.len() as int,
                    order@.len() as int,
                ));
                assert(path_list(order@) =~= path_list(before_order) + added.map_values(paths));
                assert((prev.1 + added).map_values(paths) =~= prev.1.map_values(paths)
                    + added.map_values(paths));
                assert(path_list(order@) =~= (prev.1 + added).map_values(paths));
            }
            i = i + 1;
        }
        proof {
            assert(visible@.subrange(0, i as int) =~= visible@);
        }
        let content = if visible.len() == 0 {
            None
        } else {
            Some((bands, rows))
        };
        self.visible = order;
        let selection = match self.selected_file() {
            Some(file) => Some(self.selection(file)),
            None => None,
        };
        proof {
            match lib.selected {
                Some(path) => {
                    assert forall|i: int| is_first_at(lib.files@, path@, i) implies (
                    selection matches Some(panel) && selection_shows(lib, lib.files@[i], panel)) by {
                        assert forall|j: int| is_first_at(lib.files@, path@, j) implies j == i by {
                            lemma_first_unique(lib.files@, path@, i, j);
                        }
                    }
                },
                None => {},
            }
        }
        LibraryView {
            tab: self.tab.position(),
            local: self.local,
            sort_label: owned(self.sort.label()),
            status: self.status_line(),
            cells,
            content,
            selection,
        }
    }
}

/// `n` in decimal, zero-padded to at least four digits.
pub open spec fn four_digits(n: nat) -> Seq<char> {
    if n < 10 {
        "000"@ + decimal(n)
    } else if n < 100 {
        "00"@ + decimal(n)
    } else if n < 1000 {
        "0"@ + decimal(n)
    } else {
        decimal(n)
    }
}

/// Days since 1970-01-01 to a civil date `(year, month, day)`, by eras of 400 years
/// counted from 0000-03-01.
pub open spec fn civil(days: int) -> (int, int, int) {
    let z = days + 719_468;
    let era = z / 146_097;
    let doe = z % 146_097;
    let yoe = (doe - doe / 1460 + doe / 36_524 - doe / 146_096) / 365;
    let y = yoe + era * 400;
    let doy = doe - (365 * yoe + yoe / 4 - yoe / 100);
    let mp = (5 * doy + 2) / 153;
    let d = doy - (153 * mp + 2) / 5 + 1;
    let m = if mp < 10 {
        mp + 3
    } else {
        mp - 9
    };
    (if m <= 2 {
        y + 1
    } else {
        y
    }, m, d)
}

/// The days from 1970-01-01 to the civil date `(y, m, d)`.
pub open spec fn days_from_civil(y: int, m: int, d: int) -> int {
    let shifted = if m <= 2 {
        y - 1
    } else {
        y
    };
    let era = shifted / 400;
    let yoe = shifted - era * 400;
    let mp = if m > 2 {
        m - 3
    } else {
        m + 9
    };
    let doy = (153 * mp + 2) / 5 + d - 1;
    let doe = yoe * 365 + yoe / 4 - yoe / 100 + doy;
    era * 146_097 + doe - 719_468
}

proof fn lemma_day_of_era(doe: int)
    requires
        0 <= doe < 146_097,
    ensures
        ({
            let yoe = (doe - doe / 1460 + doe / 36_524 - doe / 146_096) / 365;
            let base = 365 * yoe + yoe / 4 - yoe / 100;
            &&& 0 <= yoe < 400
            &&& base <= doe
            &&& doe - base <= 365
        }),
{
    let e: u32 = doe as u32;
    let t1: u32 = (e - e / 1460) as u32;
    let t2: u32 = (t1 + e / 36_524) as u32;
    let t3: u32 = (t2 - e / 146_096) as u32;
    let yoe: u32 = t3 / 365;
    let base: u32 = (365 * yoe + yoe / 4 - yoe / 100) as u32;
    assert(base <= e && (e - base) as u32 <= 365 && yoe < 400) by (bit_vector)
        requires
            e < 146_097,
            t1 == (e - e / 1460) as u32,
            t2 == (t1 + e / 36_524) as u32,
            t3 == (t2 - e / 146_096) as u32,
            yoe == t3 / 365,
            base == (365 * yoe + yoe / 4 - yoe / 100) as u32,
    ;
}

/// Counting the days back from the date `civil_from_days` gives returns the day count it
/// was given: every day has its own date, with a month of 1 to 12 and a day of 1 to 31.
pub proof fn lemma_civil_round_trip(days: int)
    ensures
        days_from_civil(civil(days).0, civil(days).1, civil(days).2) == days,
        1 <= civil(days).1 <= 12,
        1 <= civil(days).2 <= 31,
{
    let z = days + 719_468;
    let era = z / 146_097;
    let doe = z % 146_097;
    vstd::arithmetic::div_mod::lemma_fundamental_div_mod(z, 146_097);
    lemma_day_of_era(doe);
    let yoe = (doe - doe / 1460 + doe / 36_524 - doe / 146_096) / 365;
    let y = yoe + era * 400;
    let doy = doe - (365 * yoe + yoe / 4 - yoe / 100);
    let mp = (5 * doy + 2) / 153;
    assert(0 <= mp <= 11);
    assert((153 * mp + 2) / 5 <= doy);
    vstd::arithmetic::div_mod::lemma_fundamental_div_mod_converse(y, 400, era, yoe);
}

/// The `yyyymmdd` stamp of the day `seconds` after 1970-01-01 00:00 UTC, the same
/// stamp the camera bakes into file names.
pub open spec fn day_stamp(seconds: u64) -> Seq<char> {
    let (y, m, d) = civil((seconds / 86_400) as int);
    four_digits(y as nat) + two_digits(m as nat) + two_digits(d as nat)
}

/// The 400-year era a day count from 0000-03-01 falls in.
fn era_of(z: i64) -> (era: i64)
    ensures
        era == (z as int) / 146_097,
{
    if z >= 0 {
        ((z as u64) / 146_097) as i64
    } else {
        let n: u64 = (0i128 - (z as i128)) as u64;
        let t: u64 = (n + 146_096) / 146_097;
        proof {
            assert(t * 146_097 <= n + 146_096 && n + 146_096 < t * 146_097 + 146_097)
                by (nonlinear_arith)
                requires
                    t == (n + 146_096) / 146_097,
            ;
            let q: int = -(t as int);
            let r: int = z - q * 146_097;
            assert(0 <= r < 146_097) by (nonlinear_arith)
                requires
                    r == z + (t as int) * 146_097,
                    z == -(n as int),
                    t * 146_097 <= n + 146_096,
                    n + 146_096 < t * 146_097 + 146_097,
            ;
            vstd::arithmetic::div_mod::lemma_fundamental_div_mod_converse(z as int, 146_097, q, r);
        }
        0 - (t as i64)
    }
}

/// The year of the era, month and day for a day `doe` of an era.
fn date_in_era(doe: u32) -> (date: (u32, u32, u32))
    requires
        doe < 146_097,
    ensures
        ({
            let yoe = (doe - doe / 1460 + doe / 36_524 - doe / 146_096) / 365;
            let doy = doe - (365 * yoe + yoe / 4 - yoe / 100);
            let mp = (5 * doy + 2) / 153;
            &&& date.0 == yoe
            &&& date.1 == (if mp < 10 {
                mp + 3
            } else {
                mp - 9
            })
            &&& date.2 == doy - (153 * mp + 2) / 5 + 1
        }),
        date.0 < 400,
        1 <= date.1 <= 12,
        1 <= date.2 <= 31,
{
    let t1: u32 = doe - doe / 1460;
    let t2: u32 = t1 + doe / 36_524;
    let t3: u32 = t2 - doe / 146_096;
    let yoe: u32 = t3 / 365;
    let base: u32 = 365 * yoe + yoe / 4 - yoe / 100;
    assert(base <= doe && (doe - base) as u32 <= 365 && yoe < 400) by (bit_vector)
        requires
            doe < 146_097,
            t1 == (doe - doe / 1460) as u32,
            t2 == (t1 + doe / 36_524) as u32,
            t3 == (t2 - doe / 146_096) as u32,
            yoe == t3 / 365,
            base == (365 * yoe + yoe / 4 - yoe / 100) as u32,
    ;
    let doy: u32 = doe - base;
    let mp: u32 = (5 * doy + 2) / 153;
    let d: u32 = doy - (153 * mp + 2) / 5 + 1;
    let m: u32 = if mp < 10 {
        mp + 3
    } else {
        mp - 9
    };
    (yoe, m, d)
}

/// Days since 1970-01-01 to a civil date.
pub fn civil_from_days(days: i64) -> (date: (i64, u32, u32))
    requires
        days <= i64::MAX - 719_468,
    ensures
        date.0 == civil(days as int).0,
        date.1 == civil(days as int).1,
        date.2 == civil(days as int).2,
        1 <= date.1 <= 12,
        1 <= date.2 <= 31,
{
    let z: i64 = days + 719_468;
    let era = era_of(z);
    let doe: i64 = z - era * 146_097;
    proof {
        vstd::arithmetic::div_mod::lemma_fundamental_div_mod(z as int, 146_097);
        assert(doe == (z as int) % 146_097);
    }
    let (yoe, m, d) = date_in_era(doe as u32);
    let y: i64 = yoe as i64 + era * 400;
    let year = if m <= 2 {
        y + 1
    } else {
        y
    };
    (year, m, d)
}

/// The `yyyymmdd` stamp of the day `seconds` after the epoch.
pub fn day_key(seconds: u64) -> (key: String)
    ensures
        key@ == day_stamp(seconds),
{
    let days: i64 = (seconds / 86_400) as i64;
    let (y, m, d) = civil_from_days(days);
    let mut key = String::new();
    let year: u64 = y as u64;
    if year < 10 {
        push_str(&mut key, "000");
    } else if year < 100 {
        push_str(&mut key, "00");
    } else if year < 1000 {
        push_str(&mut key, "0");
    }
    push_decimal(&mut key, year);
    push_two_digits(&mut key, m as u64);
    push_two_digits(&mut key, d as u64);
    proof {
        reveal_strlit("000");
        reveal_strlit("00");
        reveal_strlit("0");
        assert(key@ =~= day_stamp(seconds));
    }
    key
}

/// Seconds since 1970-01-01 00:00 UTC by the system clock; zero when the clock reads
/// earlier. A thin wrapper over `SystemTime::elapsed` on the epoch. Nothing is
/// promised of the value: it is the time.
#[verifier::external_body]
fn unix_seconds() -> (seconds: u64) {
    match std::time::UNIX_EPOCH.elapsed() {
        Ok(elapsed) => elapsed.as_secs(),
        Err(_) => 0,
    }
}

/// Today as `yyyymmdd` in UTC.
pub fn today_key() -> (key: String)
    ensures
        exists|seconds: u64| key@ == day_stamp(seconds),
{
    let seconds = unix_seconds();
    day_key(seconds)
}

/// `mm:ss`, or `h:mm:ss` from an hour up, zero-padded like the time pill; negative reads
/// as zero.
pub open spec fn clock_text(ms: i64) -> Seq<char> {
    let seconds: nat = if ms < 0 {
        0
    } else {
        (ms / 1000) as nat
    };
    let hours = seconds / 3600;
    let minutes = (seconds % 3600) / 60;
    let secs = seconds % 60;
    if hours > 0 {
        decimal(hours) + ":"@ + two_digits(minutes) + ":"@ + two_digits(secs)
    } else {
        two_digits(minutes) + ":"@ + two_digits(secs)
    }
}

pub fn clock_label(ms: i64) -> (label: String)
    ensures
        label@ == clock_text(ms),
{
    let seconds: u64 = if ms < 0 {
        0
    } else {
        (ms as u64) / 1000
    };
    let hours = seconds / 3600;
    let minutes = (seconds % 3600) / 60;
    let secs = seconds % 60;
    let mut label = String::new();
    if hours > 0 {
        push_decimal(&mut label, hours);
        push_str(&mut label, ":");
    }
    push_two_digits(&mut label, minutes);
    push_str(&mut label, ":");
    push_two_digits(&mut label, secs);
    proof {
        reveal_strlit(":");
        assert(label@ =~= clock_text(ms));
    }
    label
}

/// The clip or still on screen.
#[derive(Debug, Clone, PartialEq)]
pub struct Player {
    pub file: MediaFile,
    pub playing: bool,
    pub position_ms: i64,
    pub duration_ms: i64,
    pub proxy: bool,
    pub is_photo: bool,
    pub show_info: bool,
}

/// What the chrome draws for the player. How far along the bar is, a fraction, is the
/// window's to draw from the two clocks.
#[derive(Debug, Clone, PartialEq, Eq)]
pub struct PlayerView {
    pub path: String,
    pub title: String,
    pub tag: String,
    pub info: String,
    pub show_info: bool,
    pub position_label: String,
    pub duration_label: String,
    pub playing: bool,
    pub starred: bool,
    pub cached: bool,
    pub deletable: bool,
    pub delete_armed: bool,
    pub lut_on: bool,
    pub zebra_on: bool,
    pub peaking_on: bool,
    pub is_photo: bool,
}

/// The player's corner tag: the extension for a still, else which cut is playing.
pub open spec fn player_tag(player: Player) -> Seq<char> {
    if player.is_photo {
        extension_of(player.file.path@)
    } else if player.proxy {
        "Low-Res"@
    } else {
        "Original"@
    }
}

impl Player {
    pub fn state(&self, library: &Library, toggles: Toggles) -> (view: PlayerView)
        requires
            library.wf(),
        ensures
            view.path@ == self.file.path@,
            view.title@ == file_name(self.file.path@),
            view.tag@ == player_tag(*self),
            view.info@ == joined_with(meta_parts(self.file), " · "@),
            view.show_info == self.show_info,
            view.position_label@ == clock_text(self.position_ms),
            view.duration_label@ == clock_text(self.duration_ms),
            view.playing == self.playing,
            view.starred == library.spec_is_starred(self.file),
            view.cached == library.cached@.contains(self.file.path@),
            view.deletable == (self.file.handle != 0 && !self.file.handle_shared),
            view.delete_armed == armed_on(library.delete_armed, self.file.path@),
            view.lut_on == toggles.grade,
            view.zebra_on == toggles.zebra,
            view.peaking_on == toggles.peaking,
            view.is_photo == self.is_photo,
    {
        let file = &self.file;
        let tag = if self.is_photo {
            file.extension()
        } else if self.proxy {
            owned("Low-Res")
        } else {
            owned("Original")
        };
        let delete_armed = match &library.delete_armed {
            Some(armed) => str_eq(armed.as_str(), file.path.as_str()),
            None => false,
        };
        PlayerView {
            path: owned(file.path.as_str()),
            title: owned(file.filename()),
            tag,
            info: library.meta(file),
            show_info: self.show_info,
            position_label: clock_label(self.position_ms),
            duration_label: clock_label(self.duration_ms),
            playing: self.playing,
            starred: library.is_starred(file),
            cached: library.cached.contains(file.path.as_str()),
            deletable: file.is_deletable(),
            delete_armed,
            lut_on: toggles.grade,
            zebra_on: toggles.zebra,
            peaking_on: toggles.peaking,
            is_photo: self.is_photo,
        }
    }
}

/// Thumbnails are asked for once: after one call of `thumbs_wanted`, a later call on the
/// same grid, with no asked path forgotten in between, hands out nothing.
pub proof fn lemma_thumbs_asked_once(
    lib: Library,
    first: Library,
    wanted: Seq<MediaFile>,
    later: Library,
    second: Library,
    again: Seq<MediaFile>,
)
    requires
        thumbs_handed(lib, first, wanted),
        same_grid(first, later),
        first.thumbs_asked@.subset_of(later.thumbs_asked@),
        thumbs_handed(later, second, again),
    ensures
        again.len() == 0,
{
    broadcast use vstd::seq_lib::group_filter_ensures;

    let asked_before = |file: MediaFile| !lib.thumbs_asked@.contains(file.path@);
    let asked_later = |file: MediaFile| !later.thumbs_asked@.contains(file.path@);
    let paths = |file: MediaFile| file.path@;
    assert(later.in_tab() == lib.in_tab());
    let shown = lib.shown();
    if again.len() > 0 {
        let x = again[0];
        assert(asked_later(x));
        shown.lemma_filter_contains_rev(asked_later, x);
        let i = choose|i: int| 0 <= i < shown.len() && shown[i] == x;
        if !lib.thumbs_asked@.contains(x.path@) {
            assert(asked_before(shown[i]));
            assert(wanted.contains(x));
            let j = choose|j: int| 0 <= j < wanted.len() && wanted[j] == x;
            assert(wanted.map_values(paths)[j] == x.path@);
            assert(wanted.map_values(paths).contains(x.path@));
        }
        assert(first.thumbs_asked@.contains(x.path@));
        assert(false);
    }
}

} // verus!
