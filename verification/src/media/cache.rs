//! The on-disk library: the same layout the phones use, per camera.
//!
//! ```text
//! <cache>/OpenPocketCine/media/<camera>/thumbs/<path with / → _>.jpg
//!                                       files/<path with / → _>          originals
//!                                       play/<playback cache name>       proxies, .mp4
//! ```
//!
//! Paths are computed here; whether a file is on disk is the window's to ask.

use vstd::prelude::*;

use crate::media::model::{last_index_of, MediaFile};
use crate::text::{chars_of, push_all, push_char, push_str, string_of};

verus! {

/// A path component appended to a directory, with one separator between them.
pub open spec fn joined(base: Seq<char>, component: Seq<char>) -> Seq<char> {
    if base.len() == 0 {
        component
    } else if base.last() == '/' {
        base + component
    } else {
        base + seq!['/'] + component
    }
}

/// A camera path as one file name: every `/` becomes `_`.
pub open spec fn flattened(path: Seq<char>) -> Seq<char> {
    Seq::new(path.len(), |i: int| if path[i] == '/' { '_' } else { path[i] })
}

/// The name a proxy is cached under: the flattened path with its extension, if the
/// file name has one, replaced by `mp4`.
pub open spec fn playback_name(path: Seq<char>) -> Seq<char> {
    let dot = last_index_of(path, '.');
    if dot > last_index_of(path, '/') {
        flattened(path).subrange(0, dot) + ".mp4"@
    } else {
        flattened(path) + ".mp4"@
    }
}

pub open spec fn is_safe_char(c: char) -> bool {
    ('a' <= c && c <= 'z') || ('A' <= c && c <= 'Z') || ('0' <= c && c <= '9') || c == '-'
        || c == '_'
}

/// A camera id as a directory name: ASCII letters, digits, `-` and `_` kept, anything
/// else `_`, and `camera` for an empty id.
pub open spec fn safe_name(id: Seq<char>) -> Seq<char> {
    if id.len() == 0 {
        "camera"@
    } else {
        Seq::new(id.len(), |i: int| if is_safe_char(id[i]) { id[i] } else { '_' })
    }
}

fn join(base: &str, component: &str) -> (path: String)
    ensures
        path@ == joined(base@, component@),
{
    let chars = chars_of(base);
    let mut path = string_of(chars.as_slice());
    if chars.len() > 0 && chars[chars.len() - 1] != '/' {
        push_char(&mut path, '/');
    }
    push_str(&mut path, component);
    path
}

/// A camera path as one file name.
pub fn flatten(path: &str) -> (flat: String)
    ensures
        flat@ == flattened(path@),
{
    let chars = chars_of(path);
    let mut out: Vec<char> = Vec::new();
    let mut i: usize = 0;
    while i < chars.len()
        invariant
            chars@ == path@,
            i <= chars@.len(),
            out@ == flattened(path@).subrange(0, i as int),
        decreases chars@.len() - i,
    {
        if chars[i] == '/' {
            out.push('_');
        } else {
            out.push(chars[i]);
        }
        i = i + 1;
        proof {
            assert(out@ =~= flattened(path@).subrange(0, i as int));
        }
    }
    proof {
        assert(out@ =~= flattened(path@));
    }
    string_of(out.as_slice())
}

/// A camera id as a directory name.
pub fn safe_component(id: &str) -> (name: String)
    ensures
        name@ == safe_name(id@),
{
    let chars = chars_of(id);
    if chars.len() == 0 {
        return crate::text::owned("camera");
    }
    let mut out: Vec<char> = Vec::new();
    let mut i: usize = 0;
    while i < chars.len()
        invariant
            chars@ == id@,
            chars@.len() > 0,
            i <= chars@.len(),
            out@ == safe_name(id@).subrange(0, i as int),
        decreases chars@.len() - i,
    {
        let c = chars[i];
        if ('a' <= c && c <= 'z') || ('A' <= c && c <= 'Z') || ('0' <= c && c <= '9') || c == '-'
            || c == '_' {
            out.push(c);
        } else {
            out.push('_');
        }
        i = i + 1;
        proof {
            assert(out@ =~= safe_name(id@).subrange(0, i as int));
        }
    }
    proof {
        assert(out@ =~= safe_name(id@));
    }
    string_of(out.as_slice())
}

fn find_last(chars: &[char], c: char) -> (at: i64)
    requires
        chars@.len() < i64::MAX,
    ensures
        at == last_index_of(chars@, c),
{
    let mut i: usize = chars.len();
    proof {
        assert(chars@.subrange(0, i as int) =~= chars@);
    }
    while i > 0
        invariant
            i <= chars@.len(),
            chars@.len() < i64::MAX,
            last_index_of(chars@, c) == last_index_of(chars@.subrange(0, i as int), c),
        decreases i,
    {
        let ghost prefix = chars@.subrange(0, i as int);
        if chars[i - 1] == c {
            proof {
                assert(prefix.last() == c);
            }
            return (i - 1) as i64;
        }
        proof {
            assert(prefix.drop_last() =~= chars@.subrange(0, i - 1));
        }
        i = i - 1;
    }
    proof {
        assert(chars@.subrange(0, 0) =~= Seq::<char>::empty());
    }
    -1
}

proof fn lemma_last_index_below(s: Seq<char>, c: char)
    ensures
        -1 <= last_index_of(s, c) < s.len(),
    decreases s.len(),
{
    if s.len() > 0 && s.last() != c {
        lemma_last_index_below(s.drop_last(), c);
    }
}

/// The name a proxy of `camera_path` is cached under.
pub fn playback_cache_file_name(camera_path: &str) -> (name: String)
    requires
        camera_path@.len() < i64::MAX,
    ensures
        name@ == playback_name(camera_path@),
{
    let chars = chars_of(camera_path);
    let count: usize = chars.len();
    let dot = find_last(chars.as_slice(), '.');
    let slash = find_last(chars.as_slice(), '/');
    let flat_name = flatten(camera_path);
    let flat = chars_of(flat_name.as_str());
    proof {
        lemma_last_index_below(camera_path@, '.');
        lemma_last_index_below(camera_path@, '/');
        assert(count as int == camera_path@.len());
        assert(flat@ == flattened(camera_path@));
        assert(flat@.len() == camera_path@.len());
    }
    let mut name = if dot > slash {
        let cut: usize = dot as usize;
        let kept = crate::text::prefix_of(flat.as_slice(), cut);
        proof {
            assert(kept@ =~= flattened(camera_path@).subrange(0, dot as int));
        }
        string_of(kept.as_slice())
    } else {
        string_of(flat.as_slice())
    };
    push_str(&mut name, ".mp4");
    name
}

/// The library of one camera, rooted at a directory.
#[derive(Debug, Clone)]
pub struct MediaCache {
    root: String,
}

impl MediaCache {
    /// The library of `camera_id` under a cache directory.
    pub fn under(base: &str, camera_id: &str) -> (cache: Self)
        ensures
            cache.spec_root() == joined(
                joined(joined(base@, "OpenPocketCine"@), "media"@),
                safe_name(camera_id@),
            ),
    {
        let app = join(base, "OpenPocketCine");
        let media = join(app.as_str(), "media");
        let id = safe_component(camera_id);
        Self::at(join(media.as_str(), id.as_str()))
    }

    pub closed spec fn spec_root(&self) -> Seq<char> {
        self.root@
    }

    pub fn at(root: String) -> (cache: Self)
        ensures
            cache.spec_root() == root@,
    {
        MediaCache { root }
    }

    pub fn root(&self) -> (root: &str)
        ensures
            root@ == self.spec_root(),
    {
        self.root.as_str()
    }

    /// `thumbs/<flattened path>.jpg`.
    pub fn thumb_path(&self, file: &MediaFile) -> (path: String)
        ensures
            path@ == joined(
                joined(self.spec_root(), "thumbs"@),
                flattened(file.path@) + ".jpg"@,
            ),
    {
        let dir = join(self.root.as_str(), "thumbs");
        let mut name = flatten(file.path.as_str());
        push_str(&mut name, ".jpg");
        join(dir.as_str(), name.as_str())
    }

    /// `files/<flattened path>`.
    pub fn original_path(&self, file: &MediaFile) -> (path: String)
        ensures
            path@ == joined(joined(self.spec_root(), "files"@), flattened(file.path@)),
    {
        let dir = join(self.root.as_str(), "files");
        let name = flatten(file.path.as_str());
        join(dir.as_str(), name.as_str())
    }

    /// Where a proxy, or an original opened for preview, lands for the player.
    pub fn play_path(&self, camera_path: &str) -> (path: String)
        requires
            camera_path@.len() < i64::MAX,
        ensures
            path@ == joined(joined(self.spec_root(), "play"@), playback_name(camera_path@)),
    {
        let dir = join(self.root.as_str(), "play");
        let name = playback_cache_file_name(camera_path);
        join(dir.as_str(), name.as_str())
    }
}

} // verus!
