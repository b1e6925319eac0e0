//! Process ancestry: the parent named in a `/proc/<pid>/status` text, and
//! whether a client descends from the X11 bridge.
use vstd::prelude::*;

verus! {

/// Who a Wayland connection belongs to, stamped by whoever created the
/// socket it arrived on and never asserted by the client itself.
#[derive(Debug, Clone, PartialEq, Eq)]
pub struct AppIdentity {
    /// What created the socket.
    pub sandbox_engine: String,
    /// Stable across restarts of the same application.
    pub app_id: String,
    /// Distinguishes two concurrent runs of one application.
    pub instance_id: String,
}

/// The characters of a string, in order.
pub fn chars_of(s: &str) -> (v: Vec<char>)
    ensures
        v@ == s@,
{
    let mut v: Vec<char> = Vec::new();
    for c in it: s.chars()
        invariant
            v@ == it.seq().take(it.index()),
    {
        v.push(c);
    }
    v
}

/// `char::is_whitespace`: the Unicode `White_Space` characters.
pub open spec fn is_whitespace(c: char) -> bool {
    let u = c as u32;
    (9 <= u <= 13) || u == 32 || u == 0x85 || u == 0xA0 || u == 0x1680 || (0x2000 <= u <= 0x200A)
        || u == 0x2028 || u == 0x2029 || u == 0x202F || u == 0x205F || u == 0x3000
}

fn whitespace(c: char) -> (ws: bool)
    ensures
        ws == is_whitespace(c),
{
    let u = c as u32;
    (9 <= u && u <= 13) || u == 32 || u == 0x85 || u == 0xA0 || u == 0x1680 || (0x2000 <= u && u
        <= 0x200A) || u == 0x2028 || u == 0x2029 || u == 0x202F || u == 0x205F || u == 0x3000
}

/// `str::trim_start`.
pub open spec fn trim_start(t: Seq<char>) -> Seq<char>
    decreases t.len(),
{
    if t.len() > 0 && is_whitespace(t[0]) {
        trim_start(t.skip(1))
    } else {
        t
    }
}

/// `str::trim_end`.
pub open spec fn trim_end(t: Seq<char>) -> Seq<char>
    decreases t.len(),
{
    if t.len() > 0 && is_whitespace(t.last()) {
        trim_end(t.drop_last())
    } else {
        t
    }
}

/// `str::trim`.
pub open spec fn trim(t: Seq<char>) -> Seq<char> {
    trim_end(trim_start(t))
}

/// The decimal value of a run of ASCII digits.
pub open spec fn digits_value(d: Seq<char>) -> nat
    decreases d.len(),
{
    if d.len() == 0 {
        0
    } else {
        digits_value(d.drop_last()) * 10 + (d.last() as nat - '0' as nat) as nat
    }
}

pub open spec fn is_digit(c: char) -> bool {
    '0' <= c <= '9'
}

/// A number's text without its optional leading `+`.
pub open spec fn strip_plus(t: Seq<char>) -> Seq<char> {
    if t.len() > 0 && t[0] == '+' {
        t.skip(1)
    } else {
        t
    }
}

/// One or more ASCII digits whose value fits in 32 bits, read as a `u32`.
pub open spec fn spec_parse_digits(d: Seq<char>) -> Option<u32> {
    if d.len() == 0 || exists|i: int| 0 <= i < d.len() && !is_digit(#[trigger] d[i]) || digits_value(
        d,
    ) > u32::MAX {
        None
    } else {
        Some(digits_value(d) as u32)
    }
}

/// `u32::from_str`: an optional `+`, then one or more ASCII digits whose
/// value fits in 32 bits.
pub open spec fn spec_parse_u32(t: Seq<char>) -> Option<u32> {
    spec_parse_digits(strip_plus(t))
}

/// The end of the line that holds position `p`: the next newline, or the
/// end of the text.
pub open spec fn line_end(s: Seq<char>, p: int) -> int
    decreases s.len() - p,
{
    if p >= s.len() || p < 0 {
        s.len() as int
    } else if s[p] == '\n' {
        p
    } else {
        line_end(s, p + 1)
    }
}

/// Whether the text at `p` reads `PPid:`.
pub open spec fn ppid_key_at(s: Seq<char>, p: int) -> bool {
    0 <= p && p + 5 <= s.len() && s[p] == 'P' && s[p + 1] == 'P' && s[p + 2] == 'i' && s[p + 3]
        == 'd' && s[p + 4] == ':'
}

/// From position `p` on (`at_line_start` when `p` begins a line): the span
/// after `PPid:` on the first line that begins with it.
pub open spec fn ppid_span(s: Seq<char>, p: int, at_line_start: bool) -> Option<(int, int)>
    decreases s.len() - p,
{
    if p >= s.len() || p < 0 {
        None
    } else if at_line_start && ppid_key_at(s, p) {
        Some((p + 5, line_end(s, p + 5)))
    } else {
        ppid_span(s, p + 1, s[p] == '\n')
    }
}

/// The parent pid a `/proc/<pid>/status` text names: the rest of the
/// first line that begins with `PPid:`, trimmed and read as a `u32`.
pub open spec fn spec_status_parent_pid(s: Seq<char>) -> Option<u32> {
    match ppid_span(s, 0, true) {
        None => None,
        Some((a, e)) => spec_parse_u32(trim(s.subrange(a, e))),
    }
}

proof fn lemma_line_end_bounds(s: Seq<char>, p: int)
    requires
        0 <= p <= s.len(),
    ensures
        p <= line_end(s, p) <= s.len(),
    decreases s.len() - p,
{
    if p < s.len() && s[p] != '\n' {
        lemma_line_end_bounds(s, p + 1);
    }
}

proof fn lemma_trim_start_skip(t: Seq<char>, lo: int)
    requires
        0 <= lo < t.len(),
        is_whitespace(t[lo]),
    ensures
        trim_start(t.subrange(lo, t.len() as int)) == trim_start(t.subrange(lo + 1, t.len() as int)),
{
    assert(t.subrange(lo, t.len() as int).skip(1) =~= t.subrange(lo + 1, t.len() as int));
}

proof fn lemma_trim_end_drop(t: Seq<char>, hi: int)
    requires
        0 < hi <= t.len(),
        is_whitespace(t[hi - 1]),
    ensures
        trim_end(t.subrange(0, hi)) == trim_end(t.subrange(0, hi - 1)),
{
    assert(t.subrange(0, hi).drop_last() =~= t.subrange(0, hi - 1));
}

/// Read the parent pid out of a `/proc/<pid>/status` text.
pub fn status_parent_pid(status: &str) -> (ppid: Option<u32>)
    ensures
        ppid == spec_status_parent_pid(status@),
{
    let v = chars_of(status);
    let n = v.len();
    let ghost s = status@;
    // Find the first line that begins with `PPid:`.
    let mut p: usize = 0;
    let mut at_start = true;
    let mut found = false;
    while p < n
        invariant_except_break
            n == s.len(),
            v@ == s,
            0 <= p <= n,
            !found,
            ppid_span(s, 0, true) == ppid_span(s, p as int, at_start),
        ensures
            n == s.len(),
            v@ == s,
            0 <= p <= n,
            found ==> p + 5 <= n && ppid_span(s, 0, true) == Some((p + 5, line_end(s, p + 5))),
            !found ==> ppid_span(s, 0, true) is None,
        decreases n - p,
    {
        if at_start && n - p >= 5 && v[p] == 'P' && v[p + 1] == 'P' && v[p + 2] == 'i' && v[p + 3]
            == 'd' && v[p + 4] == ':' {
            found = true;
            break;
        }
        at_start = v[p] == '\n';
        p += 1;
    }
    if !found {
        return None;
    }
    let a = p + 5;
    let mut e = a;
    while e < n && v[e] != '\n'
        invariant
            n == s.len(),
            v@ == s,
            a <= e <= n,
            line_end(s, a as int) == line_end(s, e as int),
        decreases n - e,
    {
        e += 1;
    }
    // Trim the field.
    let ghost field = s.subrange(a as int, e as int);
    let mut lo = a;
    while lo < e && whitespace(v[lo])
        invariant
            n == s.len(),
            v@ == s,
            a <= lo <= e <= n,
            field == s.subrange(a as int, e as int),
            trim_start(field) == trim_start(s.subrange(lo as int, e as int)),
        decreases e - lo,
    {
        proof {
            let f = s.subrange(a as int, e as int);
            lemma_trim_start_skip(s.subrange(0, e as int), lo as int);
            assert(s.subrange(0, e as int).subrange(lo as int, e as int) =~= s.subrange(lo as int, e as int));
            assert(s.subrange(0, e as int).subrange(lo + 1, e as int) =~= s.subrange(lo + 1, e as int));
        }
        lo += 1;
    }
    proof {
        assert(trim_start(s.subrange(lo as int, e as int)) == s.subrange(lo as int, e as int));
    }
    let mut hi = e;
    while hi > lo && whitespace(v[hi - 1])
        invariant
            n == s.len(),
            v@ == s,
            a <= lo <= hi <= e <= n,
            trim(field) == trim_end(s.subrange(lo as int, hi as int)),
        decreases hi - lo,
    {
        proof {
            let t = s.subrange(lo as int, e as int);
            lemma_trim_end_drop(t, hi - lo);
            assert(t.subrange(0, hi - lo) =~= s.subrange(lo as int, hi as int));
            assert(t.subrange(0, hi - lo - 1) =~= s.subrange(lo as int, hi - 1));
        }
        hi -= 1;
    }
    proof {
        assert(trim(field) == s.subrange(lo as int, hi as int));
    }
    // Parse the trimmed text as a u32.
    let ghost t = s.subrange(lo as int, hi as int);
    let mut k = lo;
    if k < hi && v[k] == '+' {
        k += 1;
    }
    let ghost d = s.subrange(k as int, hi as int);
    proof {
        if lo < hi && s[lo as int] == '+' {
            assert(t.skip(1) =~= d);
        } else {
            assert(t =~= d);
        }
    }
    if k == hi {
        return None;
    }
    proof {
        assert(spec_status_parent_pid(s) == spec_parse_digits(d));
    }
    let mut acc: u64 = 0;
    let mut j = k;
    while j < hi
        invariant
            n == s.len(),
            v@ == s,
            k <= j <= hi <= n,
            s == status@,
            d == s.subrange(k as int, hi as int),
            spec_status_parent_pid(s) == spec_parse_digits(d),
            forall|i: int| k <= i < j ==> is_digit(s[i]),
            acc == digits_value(s.subrange(k as int, j as int)),
            acc <= u32::MAX,
        decreases hi - j,
    {
        let c = v[j];
        if !('0' <= c && c <= '9') {
            proof {
                assert(!is_digit(d[j - k]));
            }
            return None;
        }
        proof {
            assert(s.subrange(k as int, j + 1).drop_last() =~= s.subrange(k as int, j as int));
        }
        acc = acc * 10 + (c as u64 - '0' as u64);
        if acc > 0xFFFF_FFFF {
            proof {
                if forall|i: int| 0 <= i < d.len() ==> is_digit(#[trigger] d[i]) {
                    lemma_digits_value_grows(d, (j + 1 - k) as int);
                    assert(d.subrange(0, j + 1 - k) =~= s.subrange(k as int, j + 1));
                }
            }
            return None;
        }
        j += 1;
    }
    proof {
        assert(s.subrange(k as int, hi as int) =~= d);
        assert forall|i: int| 0 <= i < d.len() implies is_digit(#[trigger] d[i]) by {
            assert(d[i] == s[k + i]);
        }
    }
    Some(acc as u32)
}

/// A longer run of digits is worth at least as much as its prefix.
proof fn lemma_digits_value_grows(d: Seq<char>, m: int)
    requires
        0 <= m <= d.len(),
        forall|i: int| 0 <= i < d.len() ==> is_digit(#[trigger] d[i]),
    ensures
        digits_value(d) >= digits_value(d.subrange(0, m)),
    decreases d.len(),
{
    if m < d.len() {
        assert(d.drop_last().subrange(0, m) =~= d.subrange(0, m));
        lemma_digits_value_grows(d.drop_last(), m);
    } else {
        assert(d.subrange(0, m) =~= d);
    }
}

/// How many generations the ancestry walk climbs: the bridge sits one or
/// two levels above its connections, and the bound keeps a pid cycle from
/// hanging the caller.
pub const ANCESTRY_STEPS: u32 = 8;

/// Whether walking up from `pid` for at most `steps` generations, asking
/// `parent_of` for each parent and stopping at init (pid 1 or below) or an
/// unknown parent, can answer `found` about reaching `target`.
pub open spec fn walk_yields<F: Fn(u32) -> Option<u32>>(
    parent_of: F,
    pid: u32,
    target: u32,
    steps: nat,
    found: bool,
) -> bool
    decreases steps,
{
    if steps == 0 {
        !found
    } else if pid == target {
        found
    } else {
        exists|q: Option<u32>|
            #[trigger] call_ensures(parent_of, (pid,), q) && if q is Some && q->0 > 1 {
                walk_yields(parent_of, q->0, target, (steps - 1) as nat, found)
            } else {
                !found
            }
    }
}

/// Whether `pid` is the X11 bridge (`xwayland_pid`) or one of its
/// descendants, looking parents up with `parent_of`. With no bridge
/// running nothing descends from it.
pub fn descends_from_xwayland<F: Fn(u32) -> Option<u32>>(
    xwayland_pid: Option<u32>,
    pid: u32,
    parent_of: F,
) -> (found: bool)
    requires
        forall|p: u32| parent_of.requires((p,)),
    ensures
        match xwayland_pid {
            None => !found,
            Some(target) => walk_yields(parent_of, pid, target, ANCESTRY_STEPS as nat, found),
        },
{
    let target = match xwayland_pid {
        Some(t) => t,
        None => return false,
    };
    let mut cur = pid;
    let mut i: u32 = 0;
    while i < ANCESTRY_STEPS
        invariant
            0 <= i <= ANCESTRY_STEPS,
            xwayland_pid == Some(target),
            forall|p: u32| parent_of.requires((p,)),
            forall|r: bool|
                walk_yields(parent_of, cur, target, (ANCESTRY_STEPS - i) as nat, r) ==> walk_yields(
                    parent_of,
                    pid,
                    target,
                    ANCESTRY_STEPS as nat,
                    r,
                ),
        decreases ANCESTRY_STEPS - i,
    {
        let ghost steps = (ANCESTRY_STEPS - i) as nat;
        if cur == target {
            assert(walk_yields(parent_of, cur, target, steps, true));
            return true;
        }
        let q = parent_of(cur);
        match q {
            Some(parent) if parent > 1 => {
                proof {
                    assert forall|r: bool|
                        walk_yields(parent_of, parent, target, (steps - 1) as nat, r) implies walk_yields(
                        parent_of,
                        cur,
                        target,
                        steps,
                        r,
                    ) by {
                        assert(call_ensures(parent_of, (cur,), q));
                    }
                }
                cur = parent;
            },
            _ => {
                proof {
                    assert(call_ensures(parent_of, (cur,), q));
                    assert(walk_yields(parent_of, cur, target, steps, false));
                }
                return false;
            },
        }
        i += 1;
    }
    assert(walk_yields(parent_of, cur, target, 0, false));
    false
}

/// Whether a program directory holds one of the files every Chromium
/// build ships beside its executable (`chrome_crashpad_handler`,
/// `v8_context_snapshot.bin`, `icudtl.dat`), as `sibling_exists` reports
/// them. The process name is no use here: Electron apps rename the binary.
pub fn dir_is_chromium<F: Fn(&str) -> bool>(sibling_exists: F) -> (chromium: bool)
    requires
        forall|name: &str| sibling_exists.requires((name,)),
    ensures
        chromium ==> call_ensures(sibling_exists, ("chrome_crashpad_handler",), true)
            || call_ensures(sibling_exists, ("v8_context_snapshot.bin",), true) || call_ensures(
            sibling_exists,
            ("icudtl.dat",),
            true,
        ),
        !chromium ==> call_ensures(sibling_exists, ("chrome_crashpad_handler",), false)
            && call_ensures(sibling_exists, ("v8_context_snapshot.bin",), false) && call_ensures(
            sibling_exists,
            ("icudtl.dat",),
            false,
        ),
{
    if sibling_exists("chrome_crashpad_handler") {
        return true;
    }
    if sibling_exists("v8_context_snapshot.bin") {
        return true;
    }
    sibling_exists("icudtl.dat")
}

} // verus!
