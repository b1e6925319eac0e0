//! US-QWERTY key synthesis and XKB modifier state.
use vstd::prelude::*;
use vstd::string::StrSliceExecFns;

verus! {

/// Evdev keycodes of the keys the synthesiser uses.
pub const KEY_1: u32 = 2;
pub const KEY_2: u32 = 3;
pub const KEY_3: u32 = 4;
pub const KEY_4: u32 = 5;
pub const KEY_5: u32 = 6;
pub const KEY_6: u32 = 7;
pub const KEY_7: u32 = 8;
pub const KEY_8: u32 = 9;
pub const KEY_9: u32 = 10;
pub const KEY_0: u32 = 11;
pub const KEY_MINUS: u32 = 12;
pub const KEY_EQUAL: u32 = 13;
pub const KEY_TAB: u32 = 15;
pub const KEY_LEFTBRACE: u32 = 26;
pub const KEY_RIGHTBRACE: u32 = 27;
pub const KEY_ENTER: u32 = 28;
pub const KEY_SEMICOLON: u32 = 39;
pub const KEY_APOSTROPHE: u32 = 40;
pub const KEY_GRAVE: u32 = 41;
pub const KEY_LEFTSHIFT: u32 = 42;
pub const KEY_BACKSLASH: u32 = 43;
pub const KEY_COMMA: u32 = 51;
pub const KEY_DOT: u32 = 52;
pub const KEY_SLASH: u32 = 53;
pub const KEY_SPACE: u32 = 57;
pub const KEY_CAPSLOCK: u32 = 58;

/// Bitmask values matching the `modifier_map` in the US-QWERTY keymap.
pub const MOD_SHIFT: u32 = 1;
pub const MOD_LOCK: u32 = 2;
pub const MOD_CONTROL: u32 = 4;
/// Alt.
pub const MOD_MOD1: u32 = 8;
/// Super / Meta.
pub const MOD_MOD4: u32 = 64;

/// The evdev keycode of the letter at `index` in `a..=z`.
pub open spec fn letter_keycode(index: int) -> u32 {
    if index == 0 {
        30
    } else if index == 1 {
        48
    } else if index == 2 {
        46
    } else if index == 3 {
        32
    } else if index == 4 {
        18
    } else if index == 5 {
        33
    } else if index == 6 {
        34
    } else if index == 7 {
        35
    } else if index == 8 {
        23
    } else if index == 9 {
        36
    } else if index == 10 {
        37
    } else if index == 11 {
        38
    } else if index == 12 {
        50
    } else if index == 13 {
        49
    } else if index == 14 {
        24
    } else if index == 15 {
        25
    } else if index == 16 {
        16
    } else if index == 17 {
        19
    } else if index == 18 {
        31
    } else if index == 19 {
        20
    } else if index == 20 {
        22
    } else if index == 21 {
        47
    } else if index == 22 {
        17
    } else if index == 23 {
        45
    } else if index == 24 {
        21
    } else {
        44
    }
}

/// The key and Shift state that type `ch` on US-QWERTY, or `None` for a
/// character the layout has no key for.
pub open spec fn us_qwerty_key(ch: char) -> Option<(u32, bool)> {
    let c = ch as u32;
    if 'a' as u32 <= c <= 'z' as u32 {
        Some((letter_keycode(c - 'a' as u32), false))
    } else if 'A' as u32 <= c <= 'Z' as u32 {
        Some((letter_keycode(c - 'A' as u32), true))
    } else if ch == '0' {
        Some((KEY_0, false))
    } else if '1' as u32 <= c <= '9' as u32 {
        Some(((KEY_1 + (c - '1' as u32)) as u32, false))
    } else if ch == ' ' {
        Some((KEY_SPACE, false))
    } else if ch == '-' {
        Some((KEY_MINUS, false))
    } else if ch == '=' {
        Some((KEY_EQUAL, false))
    } else if ch == '[' {
        Some((KEY_LEFTBRACE, false))
    } else if ch == ']' {
        Some((KEY_RIGHTBRACE, false))
    } else if ch == ';' {
        Some((KEY_SEMICOLON, false))
    } else if ch == '\'' {
        Some((KEY_APOSTROPHE, false))
    } else if ch == ',' {
        Some((KEY_COMMA, false))
    } else if ch == '.' {
        Some((KEY_DOT, false))
    } else if ch == '/' {
        Some((KEY_SLASH, false))
    } else if ch == '\\' {
        Some((KEY_BACKSLASH, false))
    } else if ch == '`' {
        Some((KEY_GRAVE, false))
    } else if ch == '\t' {
        Some((KEY_TAB, false))
    } else if ch == '\n' {
        Some((KEY_ENTER, false))
    } else if ch == '!' {
        Some((KEY_1, true))
    } else if ch == '@' {
        Some((KEY_2, true))
    } else if ch == '#' {
        Some((KEY_3, true))
    } else if ch == '$' {
        Some((KEY_4, true))
    } else if ch == '%' {
        Some((KEY_5, true))
    } else if ch == '^' {
        Some((KEY_6, true))
    } else if ch == '&' {
        Some((KEY_7, true))
    } else if ch == '*' {
        Some((KEY_8, true))
    } else if ch == '(' {
        Some((KEY_9, true))
    } else if ch == ')' {
        Some((KEY_0, true))
    } else if ch == '_' {
        Some((KEY_MINUS, true))
    } else if ch == '+' {
        Some((KEY_EQUAL, true))
    } else if ch == '{' {
        Some((KEY_LEFTBRACE, true))
    } else if ch == '}' {
        Some((KEY_RIGHTBRACE, true))
    } else if ch == ':' {
        Some((KEY_SEMICOLON, true))
    } else if ch == '"' {
        Some((KEY_APOSTROPHE, true))
    } else if ch == '<' {
        Some((KEY_COMMA, true))
    } else if ch == '>' {
        Some((KEY_DOT, true))
    } else if ch == '?' {
        Some((KEY_SLASH, true))
    } else if ch == '|' {
        Some((KEY_BACKSLASH, true))
    } else if ch == '~' {
        Some((KEY_GRAVE, true))
    } else {
        None
    }
}

fn letter_kc(index: u32) -> (kc: u32)
    requires
        index < 26,
    ensures
        kc == letter_keycode(index as int),
{
    if index == 0 {
        30
    } else if index == 1 {
        48
    } else if index == 2 {
        46
    } else if index == 3 {
        32
    } else if index == 4 {
        18
    } else if index == 5 {
        33
    } else if index == 6 {
        34
    } else if index == 7 {
        35
    } else if index == 8 {
        23
    } else if index == 9 {
        36
    } else if index == 10 {
        37
    } else if index == 11 {
        38
    } else if index == 12 {
        50
    } else if index == 13 {
        49
    } else if index == 14 {
        24
    } else if index == 15 {
        25
    } else if index == 16 {
        16
    } else if index == 17 {
        19
    } else if index == 18 {
        31
    } else if index == 19 {
        20
    } else if index == 20 {
        22
    } else if index == 21 {
        47
    } else if index == 22 {
        17
    } else if index == 23 {
        45
    } else if index == 24 {
        21
    } else {
        44
    }
}

/// Map an ASCII character to its evdev keycode under a US-QWERTY layout.
/// Returns `(keycode, needs_shift)`, or `None` for characters not on the
/// layout (non-ASCII, control chars other than \t/\n).
pub fn char_to_keycode(ch: char) -> (key: Option<(u32, bool)>)
    ensures
        key == us_qwerty_key(ch),
{
    let c = ch as u32;
    if 'a' as u32 <= c && c <= 'z' as u32 {
        return Some((letter_kc(c - 'a' as u32), false));
    }
    if 'A' as u32 <= c && c <= 'Z' as u32 {
        return Some((letter_kc(c - 'A' as u32), true));
    }
    if '1' as u32 <= c && c <= '9' as u32 {
        return Some((KEY_1 + (c - '1' as u32), false));
    }
    let key = match ch {
        '0' => (KEY_0, false),
        ' ' => (KEY_SPACE, false),
        '-' => (KEY_MINUS, false),
        '=' => (KEY_EQUAL, false),
        '[' => (KEY_LEFTBRACE, false),
        ']' => (KEY_RIGHTBRACE, false),
        ';' => (KEY_SEMICOLON, false),
        '\'' => (KEY_APOSTROPHE, false),
        ',' => (KEY_COMMA, false),
        '.' => (KEY_DOT, false),
        '/' => (KEY_SLASH, false),
        '\\' => (KEY_BACKSLASH, false),
        '`' => (KEY_GRAVE, false),
        '\t' => (KEY_TAB, false),
        '\n' => (KEY_ENTER, false),
        '!' => (KEY_1, true),
        '@' => (KEY_2, true),
        '#' => (KEY_3, true),
        '$' => (KEY_4, true),
        '%' => (KEY_5, true),
        '^' => (KEY_6, true),
        '&' => (KEY_7, true),
        '*' => (KEY_8, true),
        '(' => (KEY_9, true),
        ')' => (KEY_0, true),
        '_' => (KEY_MINUS, true),
        '+' => (KEY_EQUAL, true),
        '{' => (KEY_LEFTBRACE, true),
        '}' => (KEY_RIGHTBRACE, true),
        ':' => (KEY_SEMICOLON, true),
        '"' => (KEY_APOSTROPHE, true),
        '<' => (KEY_COMMA, true),
        '>' => (KEY_DOT, true),
        '?' => (KEY_SLASH, true),
        '|' => (KEY_BACKSLASH, true),
        '~' => (KEY_GRAVE, true),
        _ => return None,
    };
    Some(key)
}

/// The glyphs US-QWERTY types with Shift held: the capital letters and the
/// upper legends of the digit and punctuation keys.
pub open spec fn shifted_glyph(ch: char) -> bool {
    ||| ('A' as u32 <= ch as u32 && ch as u32 <= 'Z' as u32)
    ||| ch == '~' || ch == '!' || ch == '@' || ch == '#' || ch == '$' || ch == '%'
    ||| ch == '^' || ch == '&' || ch == '*' || ch == '(' || ch == ')' || ch == '_'
    ||| ch == '+' || ch == '{' || ch == '}' || ch == '|' || ch == ':' || ch == '"'
    ||| ch == '<' || ch == '>' || ch == '?'
}

/// Printable ASCII (letters, digits, space and the punctuation glyphs),
/// tab and newline: what the layout has keys for.
pub open spec fn typeable(ch: char) -> bool {
    ||| ('a' as u32 <= ch as u32 && ch as u32 <= 'z' as u32)
    ||| ('A' as u32 <= ch as u32 && ch as u32 <= 'Z' as u32)
    ||| ch == '0' || ('1' as u32 <= ch as u32 && ch as u32 <= '9' as u32)
    ||| ch == '\t' || ch == '\n'
    ||| ch == ' ' || ch == '!' || ch == '"' || ch == '#' || ch == '$' || ch == '%' || ch == '&' || ch == '\''
    ||| ch == '(' || ch == ')' || ch == '*' || ch == '+' || ch == ',' || ch == '-' || ch == '.' || ch == '/'
    ||| ch == ':' || ch == ';' || ch == '<' || ch == '=' || ch == '>' || ch == '?' || ch == '@' || ch == '['
    ||| ch == '\\' || ch == ']' || ch == '^' || ch == '_' || ch == '`' || ch == '{' || ch == '|' || ch == '}'
    ||| ch == '~'
}

proof fn lemma_letter_keycode_range(i: int)
    requires
        0 <= i < 26,
    ensures
        ({
            let k = letter_keycode(i);
            (16 <= k <= 25) || (30 <= k <= 38) || (44 <= k <= 50)
        }),
{
}

proof fn lemma_letter_keycode_injective(i: int, j: int)
    requires
        0 <= i < 26,
        0 <= j < 26,
        letter_keycode(i) == letter_keycode(j),
    ensures
        i == j,
{
    if i != j {
        if i < 13 {
            if j < 13 {
                assert(letter_keycode(i) != letter_keycode(j));
            } else {
                assert(letter_keycode(i) != letter_keycode(j));
            }
        } else {
            assert(letter_keycode(i) != letter_keycode(j));
        }
    }
}

proof fn lemma_key_pair_injective(c1: char, c2: char)
    requires
        us_qwerty_key(c1) is Some,
        us_qwerty_key(c1) == us_qwerty_key(c2),
    ensures
        c1 == c2,
{
    let x1 = c1 as u32;
    let x2 = c2 as u32;
    let l1 = ('a' as u32 <= x1 <= 'z' as u32) || ('A' as u32 <= x1 <= 'Z' as u32);
    let l2 = ('a' as u32 <= x2 <= 'z' as u32) || ('A' as u32 <= x2 <= 'Z' as u32);
    if l1 {
        let i1: int = if x1 >= 'a' as u32 { x1 - 'a' as u32 } else { x1 - 'A' as u32 };
        lemma_letter_keycode_range(i1);
        if l2 {
            let i2: int = if x2 >= 'a' as u32 { x2 - 'a' as u32 } else { x2 - 'A' as u32 };
            lemma_letter_keycode_injective(i1, i2);
        }
    } else if l2 {
        let i2: int = if x2 >= 'a' as u32 { x2 - 'a' as u32 } else { x2 - 'A' as u32 };
        lemma_letter_keycode_range(i2);
    }
}

/// The layout's laws: distinct characters are typed by distinct key and
/// Shift combinations; Shift is held exactly for the shifted glyphs; and
/// every printable ASCII character, tab and newline has a key, and nothing
/// else does.
pub proof fn lemma_us_qwerty_layout()
    ensures
        forall|c1: char, c2: char|
            #[trigger] us_qwerty_key(c1) is Some && us_qwerty_key(c1) == #[trigger] us_qwerty_key(c2)
                ==> c1 == c2,
        forall|ch: char|
            #[trigger] us_qwerty_key(ch) matches Some((_, shift)) ==> (shift <==> shifted_glyph(ch)),
        forall|ch: char| #[trigger] us_qwerty_key(ch) is Some <==> typeable(ch),
{
    assert forall|c1: char, c2: char|
        #[trigger] us_qwerty_key(c1) is Some && us_qwerty_key(c1) == #[trigger] us_qwerty_key(c2)
            implies c1 == c2 by {
        lemma_key_pair_injective(c1, c2);
    }
}

/// A shifted glyph is typed on the same key as its unshifted partner: a
/// capital on its lower-case letter's key, and each upper legend on the key
/// whose lower legend is its partner.
pub proof fn lemma_shift_partners_share_keys()
    ensures
        forall|c: char|
            'a' as u32 <= c as u32 <= 'z' as u32 ==> #[trigger] us_qwerty_key(c) is Some && !typed_with_shift(us_qwerty_key(c))
                && us_qwerty_key(((c as u32) - 32) as char) == Some((key_of(us_qwerty_key(c)), true)),
        forall|lower: char, upper: char|
            #![trigger us_qwerty_key(lower), us_qwerty_key(upper)]
            shift_partners(lower, upper) ==> us_qwerty_key(lower) is Some && !typed_with_shift(us_qwerty_key(lower))
                && us_qwerty_key(upper) == Some((key_of(us_qwerty_key(lower)), true)),
{
    assert forall|c: char|
        'a' as u32 <= c as u32 <= 'z' as u32 implies #[trigger] us_qwerty_key(c) is Some && !typed_with_shift(us_qwerty_key(c))
            && us_qwerty_key(((c as u32) - 32) as char) == Some((key_of(us_qwerty_key(c)), true)) by {
        let u = ((c as u32) - 32) as char;
        assert(u as u32 == (c as u32) - 32);
    }
}

/// The unshifted legends of row `r` of US-QWERTY, top to bottom, left to
/// right (the digit row, then the three letter rows).
pub open spec fn qwerty_row(r: int) -> Seq<char> {
    if r == 0 {
        seq!['1', '2', '3', '4', '5', '6', '7', '8', '9', '0', '-', '=']
    } else if r == 1 {
        seq!['q', 'w', 'e', 'r', 't', 'y', 'u', 'i', 'o', 'p', '[', ']']
    } else if r == 2 {
        seq!['a', 's', 'd', 'f', 'g', 'h', 'j', 'k', 'l', ';', '\'', '`']
    } else {
        seq!['z', 'x', 'c', 'v', 'b', 'n', 'm', ',', '.', '/']
    }
}

/// The evdev keycode of the first key of row `r`.
pub open spec fn qwerty_row_base(r: int) -> int {
    if r == 0 {
        2
    } else if r == 1 {
        16
    } else if r == 2 {
        30
    } else {
        44
    }
}

/// Each row of US-QWERTY lies on consecutive evdev keycodes, left to
/// right; backslash, space, tab and newline have keys of their own.
pub proof fn lemma_us_qwerty_rows()
    ensures
        forall|r: int, i: int|
            0 <= r < 4 && 0 <= i < qwerty_row(r).len() ==> #[trigger] us_qwerty_key(qwerty_row(r)[i])
                == Some(((qwerty_row_base(r) + i) as u32, false)),
        us_qwerty_key('\\') == Some((43u32, false)),
        us_qwerty_key(' ') == Some((57u32, false)),
        us_qwerty_key('\t') == Some((15u32, false)),
        us_qwerty_key('\n') == Some((28u32, false)),
{
    assert forall|r: int, i: int|
        0 <= r < 4 && 0 <= i < qwerty_row(r).len() implies #[trigger] us_qwerty_key(qwerty_row(r)[i])
            == Some(((qwerty_row_base(r) + i) as u32, false)) by {
        if r == 0 {
            let row = qwerty_row(0);
            if i == 0 {
                assert(row[0] == '1');
            }
            if i == 1 {
                assert(row[1] == '2');
            }
            if i == 2 {
                assert(row[2] == '3');
            }
            if i == 3 {
                assert(row[3] == '4');
            }
            if i == 4 {
                assert(row[4] == '5');
            }
            if i == 5 {
                assert(row[5] == '6');
            }
            if i == 6 {
                assert(row[6] == '7');
            }
            if i == 7 {
                assert(row[7] == '8');
            }
            if i == 8 {
                assert(row[8] == '9');
            }
            if i == 9 {
                assert(row[9] == '0');
            }
            if i == 10 {
                assert(row[10] == '-');
            }
            if i == 11 {
                assert(row[11] == '=');
            }
        }
        if r == 1 {
            let row = qwerty_row(1);
            if i == 0 {
                assert(row[0] == 'q');
            }
            if i == 1 {
                assert(row[1] == 'w');
            }
            if i == 2 {
                assert(row[2] == 'e');
            }
            if i == 3 {
                assert(row[3] == 'r');
            }
            if i == 4 {
                assert(row[4] == 't');
            }
            if i == 5 {
                assert(row[5] == 'y');
            }
            if i == 6 {
                assert(row[6] == 'u');
            }
            if i == 7 {
                assert(row[7] == 'i');
            }
            if i == 8 {
                assert(row[8] == 'o');
            }
            if i == 9 {
                assert(row[9] == 'p');
            }
            if i == 10 {
                assert(row[10] == '[');
            }
            if i == 11 {
                assert(row[11] == ']');
            }
        }
        if r == 2 {
            let row = qwerty_row(2);
            if i == 0 {
                assert(row[0] == 'a');
            }
            if i == 1 {
                assert(row[1] == 's');
            }
            if i == 2 {
                assert(row[2] == 'd');
            }
            if i == 3 {
                assert(row[3] == 'f');
            }
            if i == 4 {
                assert(row[4] == 'g');
            }
            if i == 5 {
                assert(row[5] == 'h');
            }
            if i == 6 {
                assert(row[6] == 'j');
            }
            if i == 7 {
                assert(row[7] == 'k');
            }
            if i == 8 {
                assert(row[8] == 'l');
            }
            if i == 9 {
                assert(row[9] == ';');
            }
            if i == 10 {
                assert(row[10] == '\'');
            }
            if i == 11 {
                assert(row[11] == '`');
            }
        }
        if r == 3 {
            let row = qwerty_row(3);
            if i == 0 {
                assert(row[0] == 'z');
            }
            if i == 1 {
                assert(row[1] == 'x');
            }
            if i == 2 {
                assert(row[2] == 'c');
            }
            if i == 3 {
                assert(row[3] == 'v');
            }
            if i == 4 {
                assert(row[4] == 'b');
            }
            if i == 5 {
                assert(row[5] == 'n');
            }
            if i == 6 {
                assert(row[6] == 'm');
            }
            if i == 7 {
                assert(row[7] == ',');
            }
            if i == 8 {
                assert(row[8] == '.');
            }
            if i == 9 {
                assert(row[9] == '/');
            }
        }
    }
}

/// The key of a mapping (0 for none).
pub open spec fn key_of(k: Option<(u32, bool)>) -> u32 {
    match k {
        Some((code, _)) => code,
        None => 0,
    }
}

/// Whether a mapping holds Shift.
pub open spec fn typed_with_shift(k: Option<(u32, bool)>) -> bool {
    match k {
        Some((_, shift)) => shift,
        None => false,
    }
}

/// The lower and upper legends of the US-QWERTY digit and punctuation keys.
pub open spec fn shift_partners(lower: char, upper: char) -> bool {
    ||| lower == '1' && upper == '!'
    ||| lower == '2' && upper == '@'
    ||| lower == '3' && upper == '#'
    ||| lower == '4' && upper == '$'
    ||| lower == '5' && upper == '%'
    ||| lower == '6' && upper == '^'
    ||| lower == '7' && upper == '&'
    ||| lower == '8' && upper == '*'
    ||| lower == '9' && upper == '('
    ||| lower == '0' && upper == ')'
    ||| lower == '-' && upper == '_'
    ||| lower == '=' && upper == '+'
    ||| lower == '[' && upper == '{'
    ||| lower == ']' && upper == '}'
    ||| lower == '\\' && upper == '|'
    ||| lower == ';' && upper == ':'
    ||| lower == '\'' && upper == '"'
    ||| lower == ',' && upper == '<'
    ||| lower == '.' && upper == '>'
    ||| lower == '/' && upper == '?'
    ||| lower == '`' && upper == '~'
}

/// The XKB modifier bit an evdev keycode drives, or 0 for a non-modifier.
pub open spec fn modifier_bit(keycode: u32) -> u32 {
    if keycode == 42 || keycode == 54 {
        MOD_SHIFT
    } else if keycode == 58 {
        MOD_LOCK
    } else if keycode == 29 || keycode == 97 {
        MOD_CONTROL
    } else if keycode == 56 || keycode == 100 {
        MOD_MOD1
    } else if keycode == 125 || keycode == 126 {
        MOD_MOD4
    } else {
        0
    }
}

/// Return the XKB modifier bit for an evdev keycode, or 0 if the key is
/// not a modifier.
pub fn keycode_to_mod(keycode: u32) -> (m: u32)
    ensures
        m == modifier_bit(keycode),
{
    match keycode {
        42 | 54 => MOD_SHIFT,
        58 => MOD_LOCK,
        29 | 97 => MOD_CONTROL,
        56 | 100 => MOD_MOD1,
        125 | 126 => MOD_MOD4,
        _ => 0,
    }
}

/// The seat's XKB modifier masks.
#[derive(Clone, Copy, Debug, PartialEq, Eq)]
pub struct ModifierState {
    /// Currently depressed (held down) modifiers.
    pub depressed: u32,
    /// Locked modifiers: CapsLock, toggled by its key.
    pub locked: u32,
}

/// The masks after one key transition; CapsLock toggles its lock on press.
pub open spec fn modifiers_after_key(s: ModifierState, keycode: u32, pressed: bool) -> ModifierState {
    let m = modifier_bit(keycode);
    if m == 0 {
        s
    } else if keycode == KEY_CAPSLOCK {
        if pressed {
            ModifierState { locked: s.locked ^ MOD_LOCK, ..s }
        } else {
            s
        }
    } else if pressed {
        ModifierState { depressed: s.depressed | m, ..s }
    } else {
        ModifierState { depressed: s.depressed & !m, ..s }
    }
}

/// The masks after a client-observed CapsLock state replaces the toggle.
pub open spec fn modifiers_with_caps(s: ModifierState, locked: bool) -> ModifierState {
    ModifierState {
        locked: (s.locked & !MOD_LOCK) | if locked {
            MOD_LOCK
        } else {
            0
        },
        ..s
    }
}

/// Which `wl_keyboard.modifiers` announcements one key event owes.
#[derive(Clone, Copy, Debug, PartialEq, Eq)]
pub struct KeyModifierUpdates {
    /// The observed CapsLock state changed the locked mask.
    pub lock_snapshot_changed: bool,
    /// The key itself is a modifier whose transition was applied.
    pub key_is_modifier: bool,
}

impl ModifierState {
    /// Nothing held, nothing locked.
    pub fn new() -> (s: Self)
        ensures
            s.depressed == 0,
            s.locked == 0,
    {
        ModifierState { depressed: 0, locked: 0 }
    }

    /// Apply one key transition. Returns whether the key is a modifier, that
    /// is whether a `wl_keyboard.modifiers` update is owed.
    pub fn update_modifiers(&mut self, keycode: u32, pressed: bool) -> (is_modifier: bool)
        ensures
            is_modifier == (modifier_bit(keycode) != 0),
            *final(self) == modifiers_after_key(*old(self), keycode, pressed),
    {
        let m = keycode_to_mod(keycode);
        if m == 0 {
            return false;
        }
        if keycode == KEY_CAPSLOCK {
            if pressed {
                self.locked = self.locked ^ MOD_LOCK;
            }
        } else if pressed {
            self.depressed = self.depressed | m;
        } else {
            self.depressed = self.depressed & !m;
        }
        true
    }

    /// Replace the CapsLock lock with an observed state. Returns whether the
    /// locked mask changed.
    pub fn apply_caps_lock(&mut self, locked: bool) -> (changed: bool)
        ensures
            *final(self) == modifiers_with_caps(*old(self), locked),
            changed == (final(self).locked != old(self).locked),
    {
        let lock_bit: u32 = if locked {
            MOD_LOCK
        } else {
            0
        };
        let new_locked = (self.locked & !MOD_LOCK) | lock_bit;
        let changed = new_locked != self.locked;
        self.locked = new_locked;
        changed
    }

    /// The modifier half of a browser key event: an observed CapsLock state
    /// is applied first; the key's own transition follows, except for a
    /// CapsLock key whose effect the observed state already includes.
    pub fn key_input(&mut self, keycode: u32, pressed: bool, caps_lock: Option<bool>) -> (updates: KeyModifierUpdates)
        ensures
            ({
                let s1 = match caps_lock {
                    Some(l) => modifiers_with_caps(*old(self), l),
                    None => *old(self),
                };
                let applies = keycode != KEY_CAPSLOCK || caps_lock is None;
                &&& updates.lock_snapshot_changed == (s1.locked != old(self).locked)
                &&& updates.key_is_modifier == (applies && modifier_bit(keycode) != 0)
                &&& *final(self) == if applies {
                    modifiers_after_key(s1, keycode, pressed)
                } else {
                    s1
                }
            }),
    {
        let lock_snapshot_changed = match caps_lock {
            Some(locked) => self.apply_caps_lock(locked),
            None => false,
        };
        let key_is_modifier = if keycode != KEY_CAPSLOCK || caps_lock.is_none() {
            self.update_modifiers(keycode, pressed)
        } else {
            false
        };
        KeyModifierUpdates { lock_snapshot_changed, key_is_modifier }
    }

    /// The masks text synthesis types under: the browser already resolved
    /// Shift and CapsLock into the text, so neither may apply a second time.
    pub fn for_synthesis(&self) -> (s: ModifierState)
        ensures
            s.depressed == self.depressed & !MOD_SHIFT,
            s.locked == self.locked & !MOD_LOCK,
    {
        ModifierState { depressed: self.depressed & !MOD_SHIFT, locked: self.locked & !MOD_LOCK }
    }
}

/// Pressing and then releasing a held modifier (not CapsLock) leaves its
/// bit clear and every other bit as it was.
pub proof fn lemma_press_release_clears_modifier(s: ModifierState, keycode: u32)
    requires
        modifier_bit(keycode) != 0,
        keycode != KEY_CAPSLOCK,
    ensures
        ({
            let m = modifier_bit(keycode);
            let after = modifiers_after_key(modifiers_after_key(s, keycode, true), keycode, false);
            &&& after.depressed == s.depressed & !m
            &&& after.locked == s.locked
        }),
{
    let m = modifier_bit(keycode);
    let d = s.depressed;
    assert((d | m) & !m == d & !m) by (bit_vector);
}

/// Two CapsLock presses restore the locked mask.
pub proof fn lemma_caps_lock_toggles_back(s: ModifierState)
    ensures
        modifiers_after_key(
            modifiers_after_key(s, KEY_CAPSLOCK, true),
            KEY_CAPSLOCK,
            true,
        ) == s,
{
    let l = s.locked;
    assert((l ^ 2u32) ^ 2u32 == l) by (bit_vector);
}

/// One step of typing a string: a key press/release pair (with Shift held
/// around it when `shift`), or a run of characters the keymap cannot type,
/// committed through the input method.
#[derive(Clone, Debug, PartialEq, Eq)]
pub enum TextInputStep {
    Key { keycode: u32, shift: bool },
    Commit(Vec<char>),
}

/// The same step as a mathematical value.
pub enum PlannedStep {
    Key(u32, bool),
    Commit(Seq<char>),
}

impl TextInputStep {
    pub open spec fn planned(&self) -> PlannedStep {
        match self {
            TextInputStep::Key { keycode, shift } => PlannedStep::Key(*keycode, *shift),
            TextInputStep::Commit(run) => PlannedStep::Commit(run@),
        }
    }
}

/// The steps that type `text`, in source order: one key step per character
/// the layout has, and maximal runs of the others between them, so a mixed
/// string still reaches the app in order.
pub open spec fn text_plan(text: Seq<char>) -> Seq<PlannedStep>
    decreases text.len(),
{
    if text.len() == 0 {
        Seq::empty()
    } else {
        let prev = text_plan(text.drop_last());
        let c = text.last();
        match us_qwerty_key(c) {
            Some((kc, shift)) => prev.push(PlannedStep::Key(kc, shift)),
            None => {
                let open_run = if prev.len() > 0 {
                    Some(prev.last())
                } else {
                    None
                };
                match open_run {
                    Some(PlannedStep::Commit(run)) => prev.update(
                        prev.len() - 1,
                        PlannedStep::Commit(run.push(c)),
                    ),
                    _ => prev.push(PlannedStep::Commit(seq![c])),
                }
            },
        }
    }
}

/// Plan the key sequences that type `text` on US-QWERTY.
pub fn plan_text_input(text: &str) -> (steps: Vec<TextInputStep>)
    ensures
        steps@.map_values(|s: TextInputStep| s.planned()) == text_plan(text@),
{
    let n = text.unicode_len();
    let mut steps: Vec<TextInputStep> = Vec::new();
    let mut run: Vec<char> = Vec::new();
    let mut i: usize = 0;
    while i < n
        invariant
            n == text@.len(),
            0 <= i <= n,
            ({
                let done = steps@.map_values(|s: TextInputStep| s.planned());
                if run@.len() == 0 {
                    done == text_plan(text@.take(i as int)) && (done.len() == 0
                        || done.last() is Key)
                } else {
                    done.push(PlannedStep::Commit(run@)) == text_plan(text@.take(i as int))
                        && (done.len() == 0 || done.last() is Key)
                }
            }),
        decreases n - i,
    {
        let ch = text.get_char(i);
        let ghost done = steps@.map_values(|s: TextInputStep| s.planned());
        proof {
            assert(text@.take(i + 1).drop_last() == text@.take(i as int));
            assert(text@.take(i + 1).last() == ch);
        }
        match char_to_keycode(ch) {
            Some((keycode, shift)) => {
                if run.len() > 0 {
                    let mut flushed: Vec<char> = Vec::new();
                    std::mem::swap(&mut flushed, &mut run);
                    steps.push(TextInputStep::Commit(flushed));
                    proof {
                        assert(steps@.map_values(|s: TextInputStep| s.planned()) == done.push(
                            PlannedStep::Commit(flushed@),
                        ));
                    }
                }
                let ghost before = steps@.map_values(|s: TextInputStep| s.planned());
                steps.push(TextInputStep::Key { keycode, shift });
                proof {
                    assert(steps@.map_values(|s: TextInputStep| s.planned()) == before.push(
                        PlannedStep::Key(keycode, shift),
                    ));
                }
            },
            None => {
                let ghost old_run = run@;
                run.push(ch);
                proof {
                    if old_run.len() > 0 {
                        let prev = done.push(PlannedStep::Commit(old_run));
                        assert(prev.update(prev.len() - 1, PlannedStep::Commit(old_run.push(ch)))
                            == done.push(PlannedStep::Commit(run@)));
                    } else {
                        assert(run@ == seq![ch]);
                    }
                }
            },
        }
        i += 1;
    }
    proof {
        assert(text@.take(n as int) == text@);
    }
    if run.len() > 0 {
        let ghost done = steps@.map_values(|s: TextInputStep| s.planned());
        steps.push(TextInputStep::Commit(run));
        proof {
            assert(steps@.map_values(|s: TextInputStep| s.planned()) == done.push(
                PlannedStep::Commit(run@),
            ));
        }
    }
    steps
}

} // verus!
