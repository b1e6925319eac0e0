//! `xdg-foreign-v2` handles: 32 lowercase hex digits drawn from 16 random
//! bytes, and the portal's `wayland:<handle>` parent strings that name them.
use vstd::prelude::*;

verus! {

/// The lowercase hex digit of a nibble.
pub open spec fn hex_char(n: int) -> char {
    if n < 10 {
        ('0' as int + n) as char
    } else {
        ('a' as int + n - 10) as char
    }
}

/// The handle text of random bytes: two lowercase hex digits per byte,
/// high nibble first.
pub open spec fn spec_hex(bytes: Seq<u8>) -> Seq<char>
    decreases bytes.len(),
{
    if bytes.len() == 0 {
        Seq::empty()
    } else {
        let b = bytes.last();
        spec_hex(bytes.drop_last()) + seq![hex_char(b as int / 16), hex_char(b as int % 16)]
    }
}

/// `u8::is_ascii_hexdigit`, on a character.
pub open spec fn is_hex_digit(c: char) -> bool {
    ('0' <= c <= '9') || ('a' <= c <= 'f') || ('A' <= c <= 'F')
}

/// The portal's parent prefix for a Wayland window.
pub open spec fn wayland_prefix() -> Seq<char> {
    seq!['w', 'a', 'y', 'l', 'a', 'n', 'd', ':']
}

/// The handle a portal parent string names: the text after `wayland:`,
/// when it is exactly 32 hex digits.
pub open spec fn spec_foreign_handle(parent: Seq<char>) -> Option<Seq<char>> {
    if parent.len() == 40 && parent.subrange(0, 8) == wayland_prefix() && forall|i: int|
        8 <= i < 40 ==> is_hex_digit(#[trigger] parent[i]) {
        Some(parent.subrange(8, 40))
    } else {
        None
    }
}

fn hex_digit(n: u8) -> (d: &'static str)
    requires
        n < 16,
    ensures
        d@ == seq![hex_char(n as int)],
{
    let d = match n {
        0 => "0",
        1 => "1",
        2 => "2",
        3 => "3",
        4 => "4",
        5 => "5",
        6 => "6",
        7 => "7",
        8 => "8",
        9 => "9",
        10 => "a",
        11 => "b",
        12 => "c",
        13 => "d",
        14 => "e",
        _ => "f",
    };
    proof {
        reveal_strlit("0");
        reveal_strlit("1");
        reveal_strlit("2");
        reveal_strlit("3");
        reveal_strlit("4");
        reveal_strlit("5");
        reveal_strlit("6");
        reveal_strlit("7");
        reveal_strlit("8");
        reveal_strlit("9");
        reveal_strlit("a");
        reveal_strlit("b");
        reveal_strlit("c");
        reveal_strlit("d");
        reveal_strlit("e");
        reveal_strlit("f");
    }
    d
}

/// Format random bytes as a foreign-toplevel handle.
pub fn foreign_handle_hex(random: &[u8; 16]) -> (handle: String)
    ensures
        handle@ == spec_hex(random@),
        handle@.len() == 32,
{
    let mut handle = String::from_str("");
    proof {
        reveal_strlit("");
    }
    let mut i: usize = 0;
    while i < 16
        invariant
            0 <= i <= 16,
            random@.len() == 16,
            handle@ == spec_hex(random@.subrange(0, i as int)),
            handle@.len() == 2 * i,
        decreases 16 - i,
    {
        let b = random[i];
        handle.append(hex_digit(b / 16));
        handle.append(hex_digit(b % 16));
        proof {
            assert(random@.subrange(0, i + 1).drop_last() =~= random@.subrange(0, i as int));
            assert(handle@ =~= spec_hex(random@.subrange(0, i + 1)));
        }
        i += 1;
    }
    proof {
        assert(random@.subrange(0, 16) =~= random@);
    }
    handle
}

fn hex_digit_char(c: char) -> (h: bool)
    ensures
        h == is_hex_digit(c),
{
    ('0' <= c && c <= '9') || ('a' <= c && c <= 'f') || ('A' <= c && c <= 'F')
}

/// The `xdg-foreign-v2` handle inside a portal parent string
/// `wayland:<handle>`, or `None` for an empty, malformed or non-Wayland
/// parent.
pub fn foreign_parent_handle(parent: &str) -> (handle: Option<&str>)
    ensures
        match spec_foreign_handle(parent@) {
            None => handle is None,
            Some(h) => handle matches Some(s) && s@ == h,
        },
{
    let n = parent.unicode_len();
    if n != 40 {
        return None;
    }
    let prefix = "wayland:";
    proof {
        reveal_strlit("wayland:");
    }
    let mut i: usize = 0;
    while i < 8
        invariant
            0 <= i <= 8,
            n == parent@.len() == 40,
            prefix@ == wayland_prefix(),
            forall|j: int| 0 <= j < i ==> parent@[j] == wayland_prefix()[j],
        decreases 8 - i,
    {
        if parent.get_char(i) != prefix.get_char(i) {
            proof {
                assert(parent@.subrange(0, 8)[i as int] != wayland_prefix()[i as int]);
            }
            return None;
        }
        i += 1;
    }
    proof {
        assert(parent@.subrange(0, 8) =~= wayland_prefix());
    }
    let mut k: usize = 8;
    while k < 40
        invariant
            8 <= k <= 40,
            n == parent@.len() == 40,
            parent@.subrange(0, 8) == wayland_prefix(),
            forall|j: int| 8 <= j < k ==> is_hex_digit(#[trigger] parent@[j]),
        decreases 40 - k,
    {
        if !hex_digit_char(parent.get_char(k)) {
            return None;
        }
        k += 1;
    }
    Some(parent.substring_char(8, 40))
}

/// A freshly formatted handle is what its `wayland:` parent string names.
pub proof fn lemma_handle_round_trip(random: Seq<u8>)
    requires
        random.len() == 16,
    ensures
        spec_foreign_handle(wayland_prefix() + spec_hex(random)) == Some(spec_hex(random)),
{
    lemma_hex_shape(random);
    let p = wayland_prefix() + spec_hex(random);
    assert(p.subrange(0, 8) =~= wayland_prefix());
    assert(p.subrange(8, 40) =~= spec_hex(random));
    assert forall|i: int| 8 <= i < 40 implies is_hex_digit(#[trigger] p[i]) by {
        assert(p[i] == spec_hex(random)[i - 8]);
    }
}

/// Hex text is two lowercase hex digits per byte.
pub proof fn lemma_hex_shape(bytes: Seq<u8>)
    ensures
        spec_hex(bytes).len() == 2 * bytes.len(),
        forall|i: int| 0 <= i < spec_hex(bytes).len() ==> is_hex_digit(#[trigger] spec_hex(bytes)[i]),
    decreases bytes.len(),
{
    if bytes.len() > 0 {
        lemma_hex_shape(bytes.drop_last());
        let prev = spec_hex(bytes.drop_last());
        let b = bytes.last();
        assert forall|i: int| 0 <= i < spec_hex(bytes).len() implies is_hex_digit(
            #[trigger] spec_hex(bytes)[i],
        ) by {
            if i < prev.len() {
                assert(spec_hex(bytes)[i] == prev[i]);
            }
        }
    }
}

} // verus!
