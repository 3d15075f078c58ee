//! A record of the camera's catalogue, and what its path says about it.

use vstd::prelude::*;
use vstd::string::*;

use crate::text::{chars_of, owned, decimal, push_decimal, push_str, push_two_digits, two_digits};

verus! {

/// Handles at or above this are the camera's video records; the paging cursor walks
/// them downwards.
pub const VIDEO_HANDLE_BASE: u32 = 0x4000_0000;

/// What a record is, by its file name.
#[derive(Debug, Clone, Copy, PartialEq, Eq, Structural)]
pub enum MediaKind {
    Video,
    Photo,
}

/// One file on the camera, as the catalogue lists it.
#[derive(Debug, Default, PartialEq, Eq)]
pub struct MediaFile {
    pub path: String,
    pub handle: u32,
    pub cmd_handle: u32,
    pub handle_candidate: u32,
    pub handle_shared: bool,
    pub group: i64,
    pub is_starred: bool,
    pub duration_seconds: i64,
    pub resolution: Option<String>,
    pub fps: Option<i64>,
    pub size_bytes: u64,
    pub storage: i64,
    pub thumb_path: String,
    pub proxy_path: Option<String>,
}

impl Clone for MediaFile {
    fn clone(&self) -> (copy: Self)
        ensures
            copy == *self,
    {
        MediaFile {
            path: self.path.clone(),
            handle: self.handle,
            cmd_handle: self.cmd_handle,
            handle_candidate: self.handle_candidate,
            handle_shared: self.handle_shared,
            group: self.group,
            is_starred: self.is_starred,
            duration_seconds: self.duration_seconds,
            resolution: match &self.resolution {
                Some(text) => Some(text.clone()),
                None => None,
            },
            fps: self.fps,
            size_bytes: self.size_bytes,
            storage: self.storage,
            thumb_path: self.thumb_path.clone(),
            proxy_path: match &self.proxy_path {
                Some(text) => Some(text.clone()),
                None => None,
            },
        }
    }
}

/// Where the last `c` in `s` is, or -1 when there is none.
pub open spec fn last_index_of(s: Seq<char>, c: char) -> int
    decreases s.len(),
{
    if s.len() == 0 {
        -1
    } else if s.last() == c {
        s.len() - 1
    } else {
        last_index_of(s.drop_last(), c)
    }
}

/// The last path component.
pub open spec fn file_name(path: Seq<char>) -> Seq<char> {
    path.subrange(last_index_of(path, '/') + 1, path.len() as int)
}

/// What follows the last dot of the file name; empty when it has none.
pub open spec fn extension_of(path: Seq<char>) -> Seq<char> {
    let name = file_name(path);
    if last_index_of(name, '.') < 0 {
        Seq::empty()
    } else {
        name.subrange(last_index_of(name, '.') + 1, name.len() as int)
    }
}

pub open spec fn is_digit(c: char) -> bool {
    '0' <= c && c <= '9'
}

/// A camera file name reads `DJI_<yyyymmddhhmmss>_…`; the fourteen digits are its stamp.
pub open spec fn stamp_of(path: Seq<char>) -> Option<Seq<char>> {
    let name = file_name(path);
    if name.len() >= 18 && name[0] == 'D' && name[1] == 'J' && name[2] == 'I' && name[3] == '_'
        && forall|i: int| 4 <= i < 18 ==> is_digit(#[trigger] name[i]) {
        Some(name.subrange(4, 18))
    } else {
        None
    }
}

/// ASCII letters folded to upper case; anything else unchanged.
pub open spec fn upper(c: char) -> char {
    if 'a' <= c && c <= 'z' {
        ((c as int) - 32) as char
    } else {
        c
    }
}

/// A clip is an `MP4` or `MOV`, in any case; everything else the camera lists is a still.
pub open spec fn spec_kind(path: Seq<char>) -> MediaKind {
    let ext = extension_of(path);
    if ext.len() == 3 && ((upper(ext[0]) == 'M' && upper(ext[1]) == 'P' && upper(ext[2]) == '4')
        || (upper(ext[0]) == 'M' && upper(ext[1]) == 'O' && upper(ext[2]) == 'V')) {
        MediaKind::Video
    } else {
        MediaKind::Photo
    }
}

fn upper_char(c: char) -> (u: char)
    ensures
        u == upper(c),
{
    if 'a' <= c && c <= 'z' {
        ((c as u32 - 32) as u8) as char
    } else {
        c
    }
}

/// Where the last `c` in `chars` is.
fn find_last(chars: &[char], c: char) -> (at: Option<usize>)
    ensures
        at matches Some(i) ==> i == last_index_of(chars@, c),
        at is None ==> last_index_of(chars@, c) == -1,
{
    let mut i: usize = chars.len();
    proof {
        assert(chars@.subrange(0, i as int) =~= chars@);
    }
    while i > 0
        invariant
            i <= chars@.len(),
            last_index_of(chars@, c) == last_index_of(chars@.subrange(0, i as int), c),
        decreases i,
    {
        let ghost prefix = chars@.subrange(0, i as int);
        if chars[i - 1] == c {
            proof {
                assert(prefix.last() == c);
            }
            return Some(i - 1);
        }
        proof {
            assert(prefix.drop_last() =~= chars@.subrange(0, i - 1));
        }
        i = i - 1;
    }
    proof {
        assert(chars@.subrange(0, 0) =~= Seq::<char>::empty());
    }
    None
}

proof fn lemma_last_index_bounds(s: Seq<char>, c: char)
    ensures
        -1 <= last_index_of(s, c) < s.len(),
        last_index_of(s, c) >= 0 ==> s[last_index_of(s, c)] == c,
    decreases s.len(),
{
    if s.len() > 0 && s.last() != c {
        lemma_last_index_bounds(s.drop_last(), c);
    }
}

/// The day a file was captured, `yyyymmdd`, from its stamp; empty when it has none.
pub open spec fn date_key_of(path: Seq<char>) -> Seq<char> {
    match stamp_of(path) {
        Some(stamp) => stamp.subrange(0, 8),
        None => Seq::empty(),
    }
}

/// A running time: `m:ss`, or `h:mm:ss` from an hour up; negative reads as zero.
pub open spec fn duration_text(seconds: i64) -> Seq<char> {
    let total: nat = if seconds < 0 {
        0
    } else {
        seconds as nat
    };
    let hours = total / 3600;
    let minutes = (total % 3600) / 60;
    let secs = total % 60;
    if hours > 0 {
        decimal(hours) + ":"@ + two_digits(minutes) + ":"@ + two_digits(secs)
    } else {
        decimal(minutes) + ":"@ + two_digits(secs)
    }
}

/// `whole.tenth` of `bytes` in `unit`s, the tenth truncated.
pub open spec fn tenths(bytes: nat, unit: nat) -> Seq<char> {
    decimal(bytes / unit) + "."@ + decimal((bytes % unit) * 10 / unit)
}

/// A file size in decimal units with one decimal; empty when the size is unknown.
pub open spec fn size_text(bytes: u64) -> Seq<char> {
    if bytes == 0 {
        Seq::empty()
    } else if bytes < 1000 {
        decimal(bytes as nat) + " B"@
    } else if bytes < 1_000_000 {
        tenths(bytes as nat, 1000) + " KB"@
    } else if bytes < 1_000_000_000 {
        tenths(bytes as nat, 1_000_000) + " MB"@
    } else {
        tenths(bytes as nat, 1_000_000_000) + " GB"@
    }
}

fn push_tenths(s: &mut String, bytes: u64, unit: u64)
    requires
        unit > 0,
        unit <= 1_000_000_000,
    ensures
        final(s)@ == old(s)@ + tenths(bytes as nat, unit as nat),
{
    push_decimal(s, bytes / unit);
    push_str(s, ".");
    let rest: u64 = bytes % unit;
    assert(rest * 10 < 10_000_000_000) by (nonlinear_arith)
        requires
            rest < unit,
            unit <= 1_000_000_000,
    ;
    push_decimal(s, rest * 10 / unit);
    proof {
        reveal_strlit(".");
        assert(s@ =~= old(s)@ + tenths(bytes as nat, unit as nat));
    }
}

/// What the player tries, in order: the proxy the catalogue listed, then the original.
pub open spec fn preview_chain(file: MediaFile) -> Seq<Seq<char>> {
    match file.proxy_path {
        Some(proxy) => seq![proxy@, file.path@],
        None => seq![file.path@],
    }
}

impl MediaFile {
    /// The paths to try for playback, first choice first.
    pub fn preview_paths(&self) -> (paths: Vec<String>)
        ensures
            paths@.map_values(|p: String| p@) == preview_chain(*self),
    {
        let mut paths: Vec<String> = Vec::new();
        match &self.proxy_path {
            Some(proxy) => paths.push(owned(proxy.as_str())),
            None => {},
        }
        paths.push(owned(self.path.as_str()));
        proof {
            assert(paths@.map_values(|p: String| p@) =~= preview_chain(*self));
        }
        paths
    }

    /// The last path component.
    pub fn filename(&self) -> (name: &str)
        ensures
            name@ == file_name(self.path@),
    {
        let chars = chars_of(self.path.as_str());
        let n = chars.len();
        let slash = find_last(chars.as_slice(), '/');
        proof {
            lemma_last_index_bounds(self.path@, '/');
        }
        let from = match slash {
            Some(i) => i + 1,
            None => 0,
        };
        self.path.as_str().substring_char(from, n)
    }

    /// The characters after the last dot of the file name.
    pub fn extension(&self) -> (ext: String)
        ensures
            ext@ == extension_of(self.path@),
    {
        proof {
            lemma_last_index_bounds(self.path@, '/');
        }
        let name = chars_of(self.filename());
        let n = name.len();
        let dot = find_last(name.as_slice(), '.');
        proof {
            lemma_last_index_bounds(file_name(self.path@), '.');
        }
        let from = match dot {
            Some(i) => i + 1,
            None => {
                return String::new();
            },
        };
        crate::text::string_of(&name.as_slice()[from..name.len()])
    }

    pub fn kind(&self) -> (kind: MediaKind)
        ensures
            kind == spec_kind(self.path@),
    {
        let ext = chars_of(self.extension().as_str());
        if ext.len() == 3 {
            let (a, b, c) = (upper_char(ext[0]), upper_char(ext[1]), upper_char(ext[2]));
            if (a == 'M' && b == 'P' && c == '4') || (a == 'M' && b == 'O' && c == 'V') {
                return MediaKind::Video;
            }
        }
        MediaKind::Photo
    }

    pub fn is_video(&self) -> (video: bool)
        ensures
            video == (spec_kind(self.path@) == MediaKind::Video),
    {
        self.kind() == MediaKind::Video
    }

    /// The capture stamp baked into the file name, when it has one.
    pub fn filename_timestamp(&self) -> (stamp: Option<&str>)
        ensures
            stamp matches Some(text) ==> stamp_of(self.path@) == Some(text@),
            stamp is None ==> stamp_of(self.path@) is None,
    {
        let name = self.filename();
        let chars = chars_of(name);
        if chars.len() < 18 || chars[0] != 'D' || chars[1] != 'J' || chars[2] != 'I' || chars[3]
            != '_' {
            return None;
        }
        let mut i: usize = 4;
        while i < 18
            invariant
                4 <= i <= 18,
                chars@ == name@,
                name@ == file_name(self.path@),
                chars@.len() >= 18,
                forall|k: int| 4 <= k < i ==> is_digit(#[trigger] chars@[k]),
            decreases 18 - i,
        {
            if !('0' <= chars[i] && chars[i] <= '9') {
                proof {
                    assert(!is_digit(chars@[i as int]));
                    assert(file_name(self.path@)[i as int] == chars@[i as int]);
                    assert(!is_digit(file_name(self.path@)[i as int]));
                }
                return None;
            }
            i = i + 1;
        }
        Some(name.substring_char(4, 18))
    }

    /// Only a handle the catalogue did not flag as shared with a neighbour may be
    /// deleted.
    pub fn is_deletable(&self) -> (deletable: bool)
        ensures
            deletable == (self.handle != 0 && !self.handle_shared),
    {
        self.handle != 0 && !self.handle_shared
    }

    /// The handle a favourite is set with.
    pub fn favorite_handle(&self) -> (handle: u32)
        ensures
            handle == self.handle,
    {
        self.handle
    }

    /// The capture day, `yyyymmdd`; empty for a name without a stamp.
    pub fn date_key(&self) -> (key: &str)
        ensures
            key@ == date_key_of(self.path@),
    {
        match self.filename_timestamp() {
            Some(stamp) => stamp.substring_char(0, 8),
            None => {
                proof {
                    reveal_strlit("");
                }
                ""
            },
        }
    }

    /// The running time as the grid shows it.
    pub fn duration_label(&self) -> (label: String)
        ensures
            label@ == duration_text(self.duration_seconds),
    {
        let total: u64 = if self.duration_seconds < 0 {
            0
        } else {
            self.duration_seconds as u64
        };
        let hours = total / 3600;
        let minutes = (total % 3600) / 60;
        let secs = total % 60;
        let mut label = String::new();
        if hours > 0 {
            push_decimal(&mut label, hours);
            push_str(&mut label, ":");
            push_two_digits(&mut label, minutes);
            push_str(&mut label, ":");
            push_two_digits(&mut label, secs);
        } else {
            push_decimal(&mut label, minutes);
            push_str(&mut label, ":");
            push_two_digits(&mut label, secs);
        }
        proof {
            reveal_strlit(":");
            assert(label@ =~= duration_text(self.duration_seconds));
        }
        label
    }

    /// The size as the detail line shows it.
    pub fn size_label(&self) -> (label: String)
        ensures
            label@ == size_text(self.size_bytes),
    {
        let bytes = self.size_bytes;
        let mut label = String::new();
        if bytes == 0 {
        } else if bytes < 1000 {
            push_decimal(&mut label, bytes);
            push_str(&mut label, " B");
        } else if bytes < 1_000_000 {
            push_tenths(&mut label, bytes, 1000);
            push_str(&mut label, " KB");
        } else if bytes < 1_000_000_000 {
            push_tenths(&mut label, bytes, 1_000_000);
            push_str(&mut label, " MB");
        } else {
            push_tenths(&mut label, bytes, 1_000_000_000);
            push_str(&mut label, " GB");
        }
        proof {
            assert(label@ =~= size_text(self.size_bytes));
        }
        label
    }
}

} // verus!
