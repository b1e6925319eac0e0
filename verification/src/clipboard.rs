//! Selections offered by the browser, and the payload of a browser drag.
use vstd::prelude::*;
use vstd::string::StrSliceExecFns;

verus! {

/// The characters of each string.
pub open spec fn string_views(list: Seq<String>) -> Seq<Seq<char>> {
    list.map_values(|m: String| m@)
}

/// Whether two strings hold the same characters.
pub fn str_eq(a: &str, b: &str) -> (same: bool)
    ensures
        same == (a@ == b@),
{
    let n = a.unicode_len();
    if n != b.unicode_len() {
        return false;
    }
    let mut i: usize = 0;
    while i < n
        invariant
            n == a@.len(),
            n == b@.len(),
            0 <= i <= n,
            forall|j: int| 0 <= j < i ==> a@[j] == b@[j],
        decreases n - i,
    {
        if a.get_char(i) != b.get_char(i) {
            return false;
        }
        i += 1;
    }
    proof {
        assert(a@ =~= b@);
    }
    true
}

/// Whether `s` begins with `prefix`.
pub fn has_prefix(s: &str, prefix: &str) -> (starts: bool)
    ensures
        starts == prefix@.is_prefix_of(s@),
{
    let n = prefix.unicode_len();
    if n > s.unicode_len() {
        return false;
    }
    let mut i: usize = 0;
    while i < n
        invariant
            n == prefix@.len(),
            n <= s@.len(),
            0 <= i <= n,
            forall|j: int| 0 <= j < i ==> prefix@[j] == s@[j],
        decreases n - i,
    {
        if prefix.get_char(i) != s.get_char(i) {
            proof {
                assert(prefix@[i as int] != s@.subrange(0, n as int)[i as int]);
            }
            return false;
        }
        i += 1;
    }
    proof {
        assert(prefix@ =~= s@.subrange(0, n as int));
    }
    true
}

/// The text MIME types that answer for one another.
pub open spec fn is_text_alias(mime: Seq<char>) -> bool {
    mime == "text/plain"@ || mime == "text/plain;charset=utf-8"@ || mime == "UTF8_STRING"@
}

/// A MIME type holding plain text.
pub open spec fn is_text_like(mime: Seq<char>) -> bool {
    "text/plain"@.is_prefix_of(mime) || mime == "UTF8_STRING"@
}

/// Item `i` is the first whose MIME type is exactly `mime`.
pub open spec fn first_exact(items: Seq<(String, Vec<u8>)>, mime: Seq<char>, i: int) -> bool {
    &&& 0 <= i < items.len()
    &&& items[i].0@ == mime
    &&& forall|j: int| 0 <= j < i ==> items[j].0@ != mime
}

pub open spec fn has_exact(items: Seq<(String, Vec<u8>)>, mime: Seq<char>) -> bool {
    exists|i: int| 0 <= i < items.len() && items[i].0@ == mime
}

/// Item `i` is the first holding plain text.
pub open spec fn first_text_like(items: Seq<(String, Vec<u8>)>, i: int) -> bool {
    &&& 0 <= i < items.len()
    &&& is_text_like(items[i].0@)
    &&& forall|j: int| 0 <= j < i ==> !is_text_like(items[j].0@)
}

pub open spec fn has_text_like(items: Seq<(String, Vec<u8>)>) -> bool {
    exists|i: int| 0 <= i < items.len() && is_text_like(items[i].0@)
}

/// The MIME types of `items`, in order.
pub open spec fn item_mimes(items: Seq<(String, Vec<u8>)>) -> Seq<Seq<char>> {
    items.map_values(|item: (String, Vec<u8>)| item.0@)
}

/// The text aliases a selection holding text also advertises: those it
/// does not already name, in the fixed alias order.
pub open spec fn alias_tail(mimes: Seq<Seq<char>>) -> Seq<Seq<char>> {
    let a1 = if mimes.contains("text/plain"@) {
        Seq::empty()
    } else {
        seq!["text/plain"@]
    };
    let a2 = if mimes.contains("text/plain;charset=utf-8"@) {
        Seq::empty()
    } else {
        seq!["text/plain;charset=utf-8"@]
    };
    let a3 = if mimes.contains("UTF8_STRING"@) {
        Seq::empty()
    } else {
        seq!["UTF8_STRING"@]
    };
    a1 + a2 + a3
}

/// Everything a selection advertises: its own types, then the aliases.
pub open spec fn advertised_mimes(items: Seq<(String, Vec<u8>)>) -> Seq<Seq<char>> {
    if has_text_like(items) {
        item_mimes(items) + alias_tail(item_mimes(items))
    } else {
        item_mimes(items)
    }
}

fn is_text_like_str(mime: &str) -> (text: bool)
    ensures
        text == is_text_like(mime@),
{
    has_prefix(mime, "text/plain") || str_eq(mime, "UTF8_STRING")
}

fn is_text_alias_str(mime: &str) -> (alias: bool)
    ensures
        alias == is_text_alias(mime@),
{
    str_eq(mime, "text/plain") || str_eq(mime, "text/plain;charset=utf-8") || str_eq(
        mime,
        "UTF8_STRING",
    )
}

fn contains_str(list: &Vec<String>, s: &str) -> (found: bool)
    ensures
        found == string_views(list@).contains(s@),
{
    let mut i: usize = 0;
    while i < list.len()
        invariant
            0 <= i <= list@.len(),
            forall|j: int| 0 <= j < i ==> list@[j]@ != s@,
        decreases list@.len() - i,
    {
        if str_eq(list[i].as_str(), s) {
            proof {
                assert(string_views(list@)[i as int] == s@);
            }
            return true;
        }
        i += 1;
    }
    proof {
        if string_views(list@).contains(s@) {
            let k = choose|k: int|
                0 <= k < list@.len() && #[trigger] string_views(list@)[k] == s@;
            assert(list@[k]@ == s@);
        }
    }
    false
}

/// The browser's (or CLI's) clipboard selection: MIME type and bytes.
#[derive(Debug)]
pub struct ExternalClipboard {
    pub items: Vec<(String, Vec<u8>)>,
}

impl ExternalClipboard {
    /// Whether this selection answers to `mime_type`, and with what.
    ///
    /// Text picks up the conventional aliases: a client asking for
    /// `UTF8_STRING` wants the same bytes as one asking for `text/plain`.
    /// Anything else answers to its own type alone.
    pub fn data(&self, mime_type: &str) -> (bytes: Option<&[u8]>)
        ensures
            match bytes {
                Some(b) => {
                    ||| exists|i: int| first_exact(self.items@, mime_type@, i) && b@ == self.items@[i].1@
                    ||| !has_exact(self.items@, mime_type@) && is_text_alias(mime_type@) && exists|i: int|
                        first_text_like(self.items@, i) && b@ == self.items@[i].1@
                },
                None => !has_exact(self.items@, mime_type@) && (!is_text_alias(mime_type@)
                    || !has_text_like(self.items@)),
            },
            bytes is Some <==> answers(self.items@, mime_type@),
    {
        let n = self.items.len();
        let mut i: usize = 0;
        while i < n
            invariant
                n == self.items@.len(),
                0 <= i <= n,
                forall|j: int| 0 <= j < i ==> self.items@[j].0@ != mime_type@,
            decreases n - i,
        {
            if str_eq(self.items[i].0.as_str(), mime_type) {
                proof {
                    assert(first_exact(self.items@, mime_type@, i as int));
                }
                return Some(self.items[i].1.as_slice());
            }
            i += 1;
        }
        if !is_text_alias_str(mime_type) {
            return None;
        }
        let mut k: usize = 0;
        while k < n
            invariant
                n == self.items@.len(),
                0 <= k <= n,
                forall|j: int| 0 <= j < n ==> self.items@[j].0@ != mime_type@,
                is_text_alias(mime_type@),
                forall|j: int| 0 <= j < k ==> !is_text_like(self.items@[j].0@),
            decreases n - k,
        {
            if is_text_like_str(self.items[k].0.as_str()) {
                proof {
                    assert(first_text_like(self.items@, k as int));
                }
                return Some(self.items[k].1.as_slice());
            }
            k += 1;
        }
        None
    }

    /// Every MIME type to advertise for this selection, its own first.
    pub fn mime_types(&self) -> (mimes: Vec<String>)
        ensures
            string_views(mimes@) == advertised_mimes(self.items@),
    {
        let n = self.items.len();
        let mut mimes: Vec<String> = Vec::new();
        let mut text = false;
        let mut i: usize = 0;
        while i < n
            invariant
                n == self.items@.len(),
                0 <= i <= n,
                string_views(mimes@) == item_mimes(self.items@.take(i as int)),
                text == exists|j: int| 0 <= j < i && is_text_like(self.items@[j].0@),
            decreases n - i,
        {
            let mime = self.items[i].0.clone();
            if is_text_like_str(self.items[i].0.as_str()) {
                text = true;
            }
            let ghost before = string_views(mimes@);
            mimes.push(mime);
            proof {
                assert(self.items@.take(i + 1) == self.items@.take(i as int).push(
                    self.items@[i as int],
                ));
                assert(string_views(mimes@) =~= before.push(self.items@[i as int].0@));
                assert(item_mimes(self.items@.take(i + 1)) =~= item_mimes(
                    self.items@.take(i as int),
                ).push(self.items@[i as int].0@));
            }
            i += 1;
        }
        proof {
            assert(self.items@.take(n as int) == self.items@);
        }
        if !text {
            return mimes;
        }
        let ghost own = string_views(mimes@);
        let t1 = contains_str(&mimes, "text/plain");
        let t2 = contains_str(&mimes, "text/plain;charset=utf-8");
        let t3 = contains_str(&mimes, "UTF8_STRING");
        if !t1 {
            mimes.push("text/plain".to_owned());
        }
        let ghost after1 = string_views(mimes@);
        if !t2 {
            mimes.push("text/plain;charset=utf-8".to_owned());
        }
        let ghost after2 = string_views(mimes@);
        if !t3 {
            mimes.push("UTF8_STRING".to_owned());
        }
        proof {
            let a1: Seq<Seq<char>> = if t1 {
                Seq::empty()
            } else {
                seq!["text/plain"@]
            };
            let a2: Seq<Seq<char>> = if t2 {
                Seq::empty()
            } else {
                seq!["text/plain;charset=utf-8"@]
            };
            let a3: Seq<Seq<char>> = if t3 {
                Seq::empty()
            } else {
                seq!["UTF8_STRING"@]
            };
            assert(after1 =~= own + a1);
            assert(after2 =~= own + a1 + a2);
            assert(string_views(mimes@) =~= own + a1 + a2 + a3);
            assert(alias_tail(own) =~= a1 + a2 + a3);
        }
        mimes
    }
}

/// Whether a selection holding `items` answers a request for `mime`.
pub open spec fn answers(items: Seq<(String, Vec<u8>)>, mime: Seq<char>) -> bool {
    has_exact(items, mime) || (is_text_alias(mime) && has_text_like(items))
}

/// Whatever a selection advertises, it can serve: every advertised MIME
/// type is answered with bytes, so no client is offered a type that then
/// reads empty.
pub proof fn lemma_advertised_mimes_are_answered(items: Seq<(String, Vec<u8>)>, mime: Seq<char>)
    requires
        advertised_mimes(items).contains(mime),
    ensures
        answers(items, mime),
{
    let own = item_mimes(items);
    if own.contains(mime) {
        let i = choose|i: int| 0 <= i < own.len() && own[i] == mime;
        assert(items[i].0@ == mime);
    } else {
        assert(has_text_like(items));
        let tail = alias_tail(own);
        let k = choose|k: int| 0 <= k < advertised_mimes(items).len() && advertised_mimes(items)[k] == mime;
        assert(advertised_mimes(items) == own + tail);
        assert(k >= own.len());
        assert(tail.contains(mime)) by {
            assert(tail[k - own.len()] == mime);
        }
        assert(is_text_alias(mime));
    }
}

/// Offer `i` is the only one not holding `text/uri-list`.
pub open spec fn sole_non_uri_list(offers: Seq<(String, Vec<u8>)>, i: int) -> bool {
    &&& 0 <= i < offers.len()
    &&& offers[i].0@ != "text/uri-list"@
    &&& forall|j: int| 0 <= j < offers.len() && j != i ==> offers[j].0@ == "text/uri-list"@
}

/// The staged bytes a browser-drag session serves for `mime`.
///
/// Beyond the exact match, `application/octet-stream` falls back to the
/// single non-uri-list offer when there is exactly one; with zero or several
/// candidates the fallback is ambiguous and answers nothing.
pub fn browser_drag_bytes<'a>(offers: &'a [(String, Vec<u8>)], mime: &str) -> (bytes: Option<&'a [u8]>)
    ensures
        match bytes {
            Some(b) => {
                ||| exists|i: int| first_exact(offers@, mime@, i) && b@ == offers@[i].1@
                ||| !has_exact(offers@, mime@) && mime@ == "application/octet-stream"@ && exists|i: int|
                    sole_non_uri_list(offers@, i) && b@ == offers@[i].1@
            },
            None => !has_exact(offers@, mime@) && (mime@ != "application/octet-stream"@
                || !exists|i: int| sole_non_uri_list(offers@, i)),
        },
{
    let n = offers.len();
    let mut i: usize = 0;
    while i < n
        invariant
            n == offers@.len(),
            0 <= i <= n,
            forall|j: int| 0 <= j < i ==> offers@[j].0@ != mime@,
        decreases n - i,
    {
        if str_eq(offers[i].0.as_str(), mime) {
            proof {
                assert(first_exact(offers@, mime@, i as int));
            }
            return Some(offers[i].1.as_slice());
        }
        i += 1;
    }
    if !str_eq(mime, "application/octet-stream") {
        return None;
    }
    let mut found: Option<usize> = None;
    let mut k: usize = 0;
    while k < n
        invariant
            n == offers@.len(),
            0 <= k <= n,
            forall|j: int| 0 <= j < n ==> offers@[j].0@ != mime@,
            mime@ == "application/octet-stream"@,
            match found {
                Some(f) => f < k && offers@[f as int].0@ != "text/uri-list"@ && forall|j: int|
                    0 <= j < k && j != f ==> offers@[j].0@ == "text/uri-list"@,
                None => forall|j: int| 0 <= j < k ==> offers@[j].0@ == "text/uri-list"@,
            },
        decreases n - k,
    {
        if !str_eq(offers[k].0.as_str(), "text/uri-list") {
            match found {
                Some(f) => {
                    proof {
                        assert forall|x: int| !sole_non_uri_list(offers@, x) by {
                            if sole_non_uri_list(offers@, x) {
                                if x == f {
                                    assert(offers@[k as int].0@ == "text/uri-list"@);
                                } else {
                                    assert(offers@[f as int].0@ == "text/uri-list"@);
                                }
                            }
                        }
                    }
                    return None;
                },
                None => {
                    found = Some(k);
                },
            }
        }
        k += 1;
    }
    match found {
        Some(f) => {
            proof {
                assert(sole_non_uri_list(offers@, f as int));
            }
            Some(offers[f].1.as_slice())
        },
        None => {
            proof {
                assert forall|x: int| !sole_non_uri_list(offers@, x) by {
                    if sole_non_uri_list(offers@, x) {
                        assert(offers@[x].0@ == "text/uri-list"@);
                    }
                }
            }
            None
        },
    }
}

/// Where a clipboard read is answered from.
#[derive(Clone, Copy, Debug, PartialEq, Eq, Structural)]
pub enum ClipboardRead {
    /// The request names an older clipboard generation: answer nothing.
    Stale,
    /// The browser's selection answers from its own bytes.
    External,
    /// The Wayland client that owns the selection is asked to send them.
    Wayland,
    /// Nobody owns the selection.
    Empty,
}

/// Route a generation-pinned clipboard read: a stale generation is refused,
/// the browser's selection answers while no Wayland client owns one, and
/// otherwise the owning client is asked.
pub fn clipboard_read_route(
    current_generation: u64,
    requested_generation: u64,
    external_present: bool,
    wayland_owned: bool,
) -> (route: ClipboardRead)
    ensures
        route == if current_generation != requested_generation {
            ClipboardRead::Stale
        } else if external_present && !wayland_owned {
            ClipboardRead::External
        } else if wayland_owned {
            ClipboardRead::Wayland
        } else {
            ClipboardRead::Empty
        },
{
    if current_generation != requested_generation {
        ClipboardRead::Stale
    } else if external_present && !wayland_owned {
        ClipboardRead::External
    } else if wayland_owned {
        ClipboardRead::Wayland
    } else {
        ClipboardRead::Empty
    }
}

fn clone_strings(list: &Vec<String>) -> (copy: Vec<String>)
    ensures
        string_views(copy@) == string_views(list@),
{
    let mut copy: Vec<String> = Vec::new();
    let mut i: usize = 0;
    while i < list.len()
        invariant
            0 <= i <= list@.len(),
            copy@.len() == i,
            forall|k: int| 0 <= k < i ==> (#[trigger] copy@[k])@ == list@[k]@,
        decreases list@.len() - i,
    {
        let c = list[i].clone();
        copy.push(c);
        i += 1;
    }
    proof {
        assert(string_views(copy@) =~= string_views(list@));
    }
    copy
}

/// The MIME types the current clipboard offers: the owning Wayland
/// client's, else the browser selection's when it holds anything, else
/// none.
pub open spec fn spec_clipboard_mimes(
    wayland_mimes: Option<Seq<String>>,
    external: Option<Seq<(String, Vec<u8>)>>,
) -> Seq<Seq<char>> {
    match wayland_mimes {
        Some(m) => string_views(m),
        None => match external {
            Some(items) => if items.len() > 0 {
                advertised_mimes(items)
            } else {
                Seq::empty()
            },
            None => Seq::empty(),
        },
    }
}

/// Collect every MIME type available on the current clipboard.
pub fn collect_clipboard_mime_types(
    wayland_mimes: Option<&Vec<String>>,
    external: Option<&ExternalClipboard>,
) -> (mimes: Vec<String>)
    ensures
        string_views(mimes@) == spec_clipboard_mimes(
            match wayland_mimes {
                Some(m) => Some(m@),
                None => None,
            },
            match external {
                Some(cb) => Some(cb.items@),
                None => None,
            },
        ),
{
    if let Some(m) = wayland_mimes {
        return clone_strings(m);
    }
    if let Some(cb) = external {
        if cb.items.len() > 0 {
            return cb.mime_types();
        }
    }
    Vec::new()
}

/// The most a clipboard read takes from a client before giving up.
pub const MAX_CLIPBOARD_READ_BYTES: usize = 8 * 1024 * 1024;

/// Whether `n` more bytes may join `buffered` bytes of a clipboard read.
pub fn clipboard_chunk_fits(buffered: usize, n: usize) -> (fits: bool)
    ensures
        fits == (buffered + n <= MAX_CLIPBOARD_READ_BYTES),
{
    buffered <= MAX_CLIPBOARD_READ_BYTES && n <= MAX_CLIPBOARD_READ_BYTES - buffered
}

} // verus!
