//! What the camera link reports and what the Bluetooth side exchanges.

use vstd::prelude::*;

use crate::camera::duml::DumlFrame;
use crate::text::{chars_eq, chars_of, fields, owned, push_str, split_fields, string_views};

verus! {

/// The identifiers a platform stack needs to find the camera's service.
#[derive(Debug, Clone, PartialEq, Eq)]
pub struct GattMap {
    pub service: String,
    /// Notifications arrive here. Arming pairing is also a write to this one.
    pub notify: String,
    /// Commands are written here.
    pub write: String,
    /// The client-configuration descriptor that turns notifications on.
    pub configuration: String,
}

impl GattMap {
    /// Reads the four identifiers, one per line in this order: service, notify, write,
    /// configuration. Lines past the fourth are ignored; fewer than four is no map.
    pub fn from_text(text: &str) -> (map: Option<Self>)
        ensures
            map is Some <==> fields(text@).len() >= 4,
            map matches Some(m) ==> {
                &&& m.service@ == fields(text@)[0]
                &&& m.notify@ == fields(text@)[1]
                &&& m.write@ == fields(text@)[2]
                &&& m.configuration@ == fields(text@)[3]
            },
    {
        let mut parts = split_fields(text);
        if parts.len() < 4 {
            return None;
        }
        proof {
            assert(string_views(parts@)[0] == parts@[0]@);
            assert(string_views(parts@)[1] == parts@[1]@);
            assert(string_views(parts@)[2] == parts@[2]@);
            assert(string_views(parts@)[3] == parts@[3]@);
        }
        parts.truncate(4);
        let configuration = parts.pop().unwrap();
        let write = parts.pop().unwrap();
        let notify = parts.pop().unwrap();
        let service = parts.pop().unwrap();
        Some(GattMap { service, notify, write, configuration })
    }
}

/// What a camera's advertisement says about it.
#[derive(Debug, Clone, Copy, PartialEq, Eq)]
pub struct Advert {
    /// `None` when the advert does not carry one; the advertised name is the fallback.
    pub model_id: Option<i32>,
    pub new_format: bool,
    pub raw_product_type: Option<i32>,
}

impl Advert {
    /// The advert the core decoded: its status (1 when it read one) and its three
    /// outputs, where a negative model id or product type means the advert had none.
    pub fn from_decoded(status: i32, model: i32, new_format: i32, raw: i32) -> (advert: Option<
        Self,
    >)
        ensures
            advert is Some <==> status == 1,
            advert matches Some(a) ==> {
                &&& a.model_id == (if model >= 0 { Some(model) } else { None::<i32> })
                &&& a.new_format == (new_format != 0)
                &&& a.raw_product_type == (if raw >= 0 { Some(raw) } else { None::<i32> })
            },
    {
        if status != 1 {
            return None;
        }
        Some(Advert {
            model_id: if model >= 0 { Some(model) } else { None },
            new_format: new_format != 0,
            raw_product_type: if raw >= 0 { Some(raw) } else { None },
        })
    }
}

/// A camera seen in a scan.
#[derive(Debug, Clone, PartialEq, Eq)]
pub struct Discovered {
    pub name: String,
    /// Whatever the platform uses to address this device again.
    pub address: String,
    pub advert: Option<Advert>,
}

/// A character with ASCII capitals folded to small letters.
pub open spec fn ascii_lower(c: char) -> char {
    if 'A' <= c && c <= 'Z' {
        ((c as int) + 32) as char
    } else {
        c
    }
}

fn lower_char(c: char) -> (lower: char)
    ensures
        lower == ascii_lower(c),
{
    if 'A' <= c && c <= 'Z' {
        let code = c as u8;
        assert(code as int == c as int);
        (code + 32) as char
    } else {
        c
    }
}

/// `text` with ASCII capitals folded to small letters and every other character kept,
/// as `str::to_ascii_lowercase` folds it.
fn ascii_lowercase(text: &str) -> (lower: String)
    ensures
        lower@ == text@.map_values(|c: char| ascii_lower(c)),
{
    let chars = chars_of(text);
    let mut lower = String::new();
    let mut i: usize = 0;
    while i < chars.len()
        invariant
            chars@ == text@,
            i <= chars@.len(),
            lower@ == chars@.subrange(0, i as int).map_values(|c: char| ascii_lower(c)),
        decreases chars@.len() - i,
    {
        crate::text::push_char(&mut lower, lower_char(chars[i]));
        i = i + 1;
        proof {
            assert(lower@ =~= chars@.subrange(0, i as int).map_values(|c: char| ascii_lower(c)));
        }
    }
    proof {
        assert(chars@.subrange(0, i as int) =~= chars@);
    }
    lower
}

/// Whether `word` occurs in `text`.
pub open spec fn has_word(text: Seq<char>, word: Seq<char>) -> bool {
    exists|i: int|
        0 <= i && i + word.len() <= text.len() && #[trigger] text.subrange(i, i + word.len()) == word
}

fn find_word(text: &[char], word: &[char]) -> (found: bool)
    ensures
        found == has_word(text@, word@),
{
    if word.len() > text.len() {
        return false;
    }
    if word.len() == 0 {
        proof {
            assert(text@.subrange(0, 0int + word@.len()) =~= word@);
        }
        return true;
    }
    let n = text.len();
    let m = word.len();
    let last = n - m;
    let mut i: usize = 0;
    while i <= last
        invariant
            0 < word@.len() <= text@.len(),
            n == text@.len(),
            m == word@.len(),
            last == n - m,
            i <= last + 1,
            forall|k: int| 0 <= k < i ==> #[trigger] text@.subrange(k, k + word@.len()) != word@,
        decreases last + 1 - i,
    {
        let piece = &text[i..i + m];
        if chars_eq(piece, word) {
            return true;
        }
        i = i + 1;
    }
    false
}

/// A name that reads as a Pocket or an Osmo, whatever its case.
pub open spec fn looks_like_pocket(name: Seq<char>) -> bool {
    let lower = name.map_values(|c: char| ascii_lower(c));
    has_word(lower, "pocket"@) || has_word(lower, "osmo"@)
}

/// A rung of the recover ladder for a feed that stopped.
#[derive(Debug, Clone, Copy, PartialEq, Eq, Structural)]
pub enum Recovery {
    /// Ask for live view again.
    ResendEnable,
    /// The decoder is wedged; the shell rebuilds it.
    RebuildDecoder,
    /// Tear the datalink down and open a new session.
    ReopenDatalink,
    /// Start over from Bluetooth.
    FullRejoin,
}

/// What happened while polling the datalink.
#[derive(Debug, Clone, PartialEq)]
pub enum SessionEvent {
    /// The camera answered the session open.
    Opened,
    /// A complete HEVC access unit.
    Picture(Vec<u8>),
    /// A command reply or a piece of telemetry.
    Frame(DumlFrame),
    /// The camera said something the HUD shows.
    StatusChanged,
    /// The camera never answered the handshake.
    Unreachable,
    /// The feed stalled and the watchdog acted.
    Recovering(Recovery),
}

impl Discovered {
    /// What a scan keeps of a device: one that offers the camera's service or whose
    /// name reads as a Pocket or an Osmo, named by its address when it has no name.
    /// Many cameras leave the service out of their advertisement, hence the name check.
    pub fn from_scan(name: &str, address: &str, has_service: bool, model_id: Option<i32>) -> (found:
        Option<Self>)
        ensures
            found is Some <==> has_service || looks_like_pocket(name@),
            found matches Some(d) ==> {
                &&& d.name@ == (if name@.len() == 0 {
                    "Osmo Pocket ("@ + address@ + ")"@
                } else {
                    name@
                })
                &&& d.address@ == address@
                &&& d.advert == Some(
                    Advert { model_id, new_format: false, raw_product_type: None },
                )
            },
    {
        let lower = chars_of(ascii_lowercase(name).as_str());
        let pocket = chars_of("pocket");
        let osmo = chars_of("osmo");
        let looks = find_word(lower.as_slice(), pocket.as_slice()) || find_word(
            lower.as_slice(),
            osmo.as_slice(),
        );
        if !has_service && !looks {
            return None;
        }
        let display = if name.is_empty() {
            let mut display = owned("Osmo Pocket (");
            push_str(&mut display, address);
            push_str(&mut display, ")");
            display
        } else {
            owned(name)
        };
        Some(
            Discovered {
                name: display,
                address: owned(address),
                advert: Some(Advert { model_id, new_format: false, raw_product_type: None }),
            },
        )
    }
}

} // verus!
