//! The sixteen-key hexadecimal keypad, held as a bitmask with one bit per key.

use vstd::prelude::*;

verus! {

/// Number of keys on the keypad.
pub const KEYS: u8 = 16;

/// Whether hexadecimal key `digit` is held in `mask`: bit `digit` of the mask is set.
/// There is no key beyond `F`, so no such key is ever held.
pub open spec fn key_down(mask: u16, digit: int) -> bool {
    0 <= digit < KEYS && (mask >> (digit as u16)) & 1 == 1
}

/// The highest key at or below `digit` that is held in `mask`, or zero if there is none.
pub open spec fn highest_key_from(mask: u16, digit: int) -> int
    decreases digit,
{
    if digit <= 0 {
        0
    } else if key_down(mask, digit) {
        digit
    } else {
        highest_key_from(mask, digit - 1)
    }
}

/// The highest key held in `mask`, or zero if no key is held.
pub open spec fn highest_key(mask: u16) -> int {
    highest_key_from(mask, KEYS - 1)
}

/// A key of the host keyboard that stands for a key of the keypad. The keypad
///
/// ```text
/// 1 2 3 C
/// 4 5 6 D
/// 7 8 9 E
/// A 0 B F
/// ```
///
/// lies on the left of the keyboard:
///
/// ```text
/// 1 2 3 4
/// Q W E R
/// A S D F
/// Z X C V
/// ```
#[derive(Clone, Copy, Debug, PartialEq, Eq, Structural)]
pub enum Key {
    Key1,
    Key2,
    Key3,
    Key4,
    Q,
    W,
    E,
    R,
    A,
    S,
    D,
    F,
    Z,
    X,
    C,
    V,
}

/// The mask in which key `digit` alone is held.
pub open spec fn key_bit(digit: int) -> u16 {
    1u16 << (digit as u16)
}

impl Key {
    /// The keypad key that the key stands for.
    pub open spec fn digit(self) -> int {
        match self {
            Key::Key1 => 0x1,
            Key::Key2 => 0x2,
            Key::Key3 => 0x3,
            Key::Key4 => 0xC,
            Key::Q => 0x4,
            Key::W => 0x5,
            Key::E => 0x6,
            Key::R => 0xD,
            Key::A => 0x7,
            Key::S => 0x8,
            Key::D => 0x9,
            Key::F => 0xE,
            Key::Z => 0xA,
            Key::X => 0x0,
            Key::C => 0xB,
            Key::V => 0xF,
        }
    }
}

/// The bindings of the keyboard layout above: each key with the mask of its keypad key.
pub open spec fn default_bindings() -> Seq<(Key, u16)> {
    seq![
        (Key::Key1, key_bit(Key::Key1.digit())),
        (Key::Key2, key_bit(Key::Key2.digit())),
        (Key::Key3, key_bit(Key::Key3.digit())),
        (Key::Key4, key_bit(Key::Key4.digit())),
        (Key::Q, key_bit(Key::Q.digit())),
        (Key::W, key_bit(Key::W.digit())),
        (Key::E, key_bit(Key::E.digit())),
        (Key::R, key_bit(Key::R.digit())),
        (Key::A, key_bit(Key::A.digit())),
        (Key::S, key_bit(Key::S.digit())),
        (Key::D, key_bit(Key::D.digit())),
        (Key::F, key_bit(Key::F.digit())),
        (Key::Z, key_bit(Key::Z.digit())),
        (Key::X, key_bit(Key::X.digit())),
        (Key::C, key_bit(Key::C.digit())),
        (Key::V, key_bit(Key::V.digit())),
    ]
}

/// Whether, under `bindings`, one of the keys in `keys` holds keypad key `digit` down: the
/// key has a binding whose mask has bit `digit` set.
pub open spec fn holds(bindings: Seq<(Key, u16)>, keys: Seq<Key>, digit: int) -> bool {
    exists|pressed: int, binding: int|
        0 <= pressed < keys.len() && 0 <= binding < bindings.len() && (
        #[trigger] bindings[binding]).0 == #[trigger] keys[pressed] && key_down(
            bindings[binding].1,
            digit,
        )
}

/// Whether key `digit` is held in `mask`.
pub fn is_key_down(mask: u16, digit: u8) -> (down: bool)
    ensures
        down == key_down(mask, digit as int),
{
    digit < KEYS && (mask >> (digit as u16)) & 1 == 1
}

/// The highest key held in `mask`, if any key is held.
pub fn highest_key_down(mask: u16) -> (key: Option<u8>)
    ensures
        mask == 0 <==> key is None,
        key matches Some(digit) ==> digit == highest_key(mask) && key_down(mask, digit as int)
            && forall|other: int| digit < other ==> !key_down(mask, other),
{
    if mask == 0 {
        return None;
    }
    let mut digit: u8 = KEYS - 1;
    while digit > 0
        invariant
            mask != 0,
            digit < KEYS,
            highest_key(mask) == highest_key_from(mask, digit as int),
            forall|other: int| digit < other ==> !key_down(mask, other),
        decreases digit,
    {
        if is_key_down(mask, digit) {
            return Some(digit);
        }
        digit -= 1;
    }
    proof {
        assert(key_down(mask, 0)) by {
            assert(forall|other: int| 0 < other < 16 ==> !key_down(mask, other));
            assert(!key_down(mask, 1) && !key_down(mask, 2) && !key_down(mask, 3)
                && !key_down(mask, 4) && !key_down(mask, 5) && !key_down(mask, 6)
                && !key_down(mask, 7) && !key_down(mask, 8) && !key_down(mask, 9)
                && !key_down(mask, 10) && !key_down(mask, 11) && !key_down(mask, 12)
                && !key_down(mask, 13) && !key_down(mask, 14) && !key_down(mask, 15));
            assert(mask != 0 && (mask >> 1) & 1 != 1 && (mask >> 2) & 1 != 1 && (mask >> 3) & 1 != 1
                && (mask >> 4) & 1 != 1 && (mask >> 5) & 1 != 1 && (mask >> 6) & 1 != 1 && (mask
                >> 7) & 1 != 1 && (mask >> 8) & 1 != 1 && (mask >> 9) & 1 != 1 && (mask >> 10) & 1
                != 1 && (mask >> 11) & 1 != 1 && (mask >> 12) & 1 != 1 && (mask >> 13) & 1 != 1
                && (mask >> 14) & 1 != 1 && (mask >> 15) & 1 != 1 ==> (mask >> 0) & 1 == 1)
                by (bit_vector);
        }
    }
    Some(0)
}

/// A key is held in the union of two masks exactly when it is held in one of them.
proof fn lemma_or_holds_both(a: u16, b: u16, digit: int)
    ensures
        key_down(a | b, digit) <==> key_down(a, digit) || key_down(b, digit),
{
    if 0 <= digit < KEYS {
        let d = digit as u16;
        assert(((a | b) >> d) & 1 == 1 <==> (a >> d) & 1 == 1 || (b >> d) & 1 == 1)
            by (bit_vector);
    }
}

/// Where a key stands in the default bindings.
spec fn slot(key: Key) -> int {
    match key {
        Key::Key1 => 0,
        Key::Key2 => 1,
        Key::Key3 => 2,
        Key::Key4 => 3,
        Key::Q => 4,
        Key::W => 5,
        Key::E => 6,
        Key::R => 7,
        Key::A => 8,
        Key::S => 9,
        Key::D => 10,
        Key::F => 11,
        Key::Z => 12,
        Key::X => 13,
        Key::C => 14,
        Key::V => 15,
    }
}

/// In the mask of one keypad key, that key is held and no other.
pub proof fn lemma_key_bit(digit: int, other: int)
    requires
        0 <= digit < KEYS,
    ensures
        key_down(key_bit(digit), other) <==> other == digit,
{
    if 0 <= other < KEYS {
        let (d, o) = (digit as u16, other as u16);
        assert(d < 16 && o < 16 ==> (((1u16 << d) >> o) & 1 == 1 <==> o == d)) by (bit_vector);
    }
}

/// Under the default bindings a keypad key is held exactly when one of the pressed keys
/// stands for it.
pub proof fn lemma_default_bindings(keys: Seq<Key>, digit: int)
    ensures
        holds(default_bindings(), keys, digit) <==> exists|pressed: int|
            0 <= pressed < keys.len() && (#[trigger] keys[pressed]).digit() == digit,
{
    let bindings = default_bindings();
    assert forall|binding: int| 0 <= binding < bindings.len() implies (
    #[trigger] bindings[binding]).1 == key_bit(bindings[binding].0.digit()) && slot(
        bindings[binding].0,
    ) == binding by {}
    if holds(bindings, keys, digit) {
        let (p, b) = choose|p: int, b: int|
            0 <= p < keys.len() && 0 <= b < bindings.len() && (#[trigger] bindings[b]).0
                == #[trigger] keys[p] && key_down(bindings[b].1, digit);
        lemma_key_bit(keys[p].digit(), digit);
    }
    if exists|pressed: int|
        0 <= pressed < keys.len() && (#[trigger] keys[pressed]).digit() == digit {
        let p = choose|pressed: int|
            0 <= pressed < keys.len() && (#[trigger] keys[pressed]).digit() == digit;
        let b = slot(keys[p]);
        assert(bindings[b].0 == keys[p]);
        lemma_key_bit(digit, digit);
    }
}

/// The bindings of the default keyboard layout.
pub fn create_bindings() -> (bindings: Vec<(Key, u16)>)
    ensures
        bindings@ == default_bindings(),
{
    let bindings = vec![
        (Key::Key1, 0b1 << 1),
        (Key::Key2, 0b1 << 2),
        (Key::Key3, 0b1 << 3),
        (Key::Key4, 0b1 << 12),
        (Key::Q, 0b1 << 4),
        (Key::W, 0b1 << 5),
        (Key::E, 0b1 << 6),
        (Key::R, 0b1 << 13),
        (Key::A, 0b1 << 7),
        (Key::S, 0b1 << 8),
        (Key::D, 0b1 << 9),
        (Key::F, 0b1 << 14),
        (Key::Z, 0b1 << 10),
        (Key::X, 0b1 << 0),
        (Key::C, 0b1 << 11),
        (Key::V, 0b1 << 15),
    ];
    assert(bindings@ =~= default_bindings());
    bindings
}

/// The keypad mask for the keys in `keys`: a keypad key is held exactly when one of the keys
/// is bound to it. Keys without a binding hold nothing down.
pub fn key_mask(bindings: &[(Key, u16)], keys: &[Key]) -> (mask: u16)
    ensures
        forall|digit: int| key_down(mask, digit) <==> holds(bindings@, keys@, digit),
{
    let mut mask: u16 = 0;
    let mut pressed: usize = 0;
    assert(forall|digit: u16| (0u16 >> digit) & 1 != 1) by (bit_vector);
    while pressed < keys.len()
        invariant
            pressed <= keys@.len(),
            forall|digit: int|
                key_down(mask, digit) <==> holds(bindings@, keys@.take(pressed as int), digit),
        decreases keys@.len() - pressed,
    {
        let key = keys[pressed];
        let mut binding: usize = 0;
        while binding < bindings.len()
            invariant
                pressed < keys@.len(),
                key == keys@[pressed as int],
                binding <= bindings@.len(),
                forall|digit: int|
                    key_down(mask, digit) <==> holds(
                        bindings@,
                        keys@.take(pressed as int),
                        digit,
                    ) || holds(bindings@.take(binding as int), seq![key], digit),
            decreases bindings@.len() - binding,
        {
            let ghost before = mask;
            let entry = bindings[binding];
            if entry.0 == key {
                mask = mask | entry.1;
            }
            proof {
                let bound = entry.1;
                assert forall|digit: int|
                    key_down(mask, digit) <==> holds(
                        bindings@,
                        keys@.take(pressed as int),
                        digit,
                    ) || holds(bindings@.take(binding + 1), seq![key], digit) by {
                    let shorter = bindings@.take(binding as int);
                    let longer = bindings@.take(binding + 1);
                    lemma_or_holds_both(before, bound, digit);
                    if holds(shorter, seq![key], digit) {
                        let (p, b) = choose|p: int, b: int|
                            0 <= p < 1 && 0 <= b < shorter.len() && (#[trigger] shorter[b]).0
                                == #[trigger] seq![key][p] && key_down(shorter[b].1, digit);
                        assert(longer[b] == shorter[b]);
                    }
                    if holds(longer, seq![key], digit) {
                        let (p, b) = choose|p: int, b: int|
                            0 <= p < 1 && 0 <= b < longer.len() && (#[trigger] longer[b]).0
                                == #[trigger] seq![key][p] && key_down(longer[b].1, digit);
                        if b < binding {
                            assert(shorter[b] == longer[b]);
                        } else {
                            assert(longer[b] == entry);
                            assert(seq![key][p] == key);
                        }
                    }
                    if entry.0 == key && key_down(bound, digit) {
                        assert(longer[binding as int] == entry);
                        assert(seq![key][0] == key);
                    }
                }
            }
            binding += 1;
        }
        proof {
            assert(bindings@.take(binding as int) =~= bindings@);
            let shorter = keys@.take(pressed as int);
            let longer = keys@.take(pressed + 1);
            assert forall|digit: int|
                holds(bindings@, longer, digit) <==> holds(bindings@, shorter, digit) || holds(
                    bindings@,
                    seq![key],
                    digit,
                ) by {
                if holds(bindings@, longer, digit) {
                    let (p, b) = choose|p: int, b: int|
                        0 <= p < longer.len() && 0 <= b < bindings@.len() && (
                        #[trigger] bindings@[b]).0 == #[trigger] longer[p] && key_down(
                            bindings@[b].1,
                            digit,
                        );
                    if p < pressed {
                        assert(shorter[p] == longer[p]);
                    } else {
                        assert(seq![key][0] == longer[p]);
                    }
                }
                if holds(bindings@, shorter, digit) {
                    let (p, b) = choose|p: int, b: int|
                        0 <= p < shorter.len() && 0 <= b < bindings@.len() && (
                        #[trigger] bindings@[b]).0 == #[trigger] shorter[p] && key_down(
                            bindings@[b].1,
                            digit,
                        );
                    assert(longer[p] == shorter[p]);
                }
                if holds(bindings@, seq![key], digit) {
                    let (p, b) = choose|p: int, b: int|
                        0 <= p < 1 && 0 <= b < bindings@.len() && (#[trigger] bindings@[b]).0
                            == #[trigger] seq![key][p] && key_down(bindings@[b].1, digit);
                    assert(longer[pressed as int] == key);
                }
            }
        }
        pressed += 1;
    }
    assert(keys@.take(pressed as int) =~= keys@);
    mask
}

} // verus!
