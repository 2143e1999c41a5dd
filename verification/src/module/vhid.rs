use vstd::prelude::*;

verus! {

/// USB VID of the virtual HID devices (assigned by Input Club)
pub const IC_VID: u16 = 0x308F;

/// USB PID of the virtual keyboard
pub const IC_PID_KEYBOARD: u16 = 0x0030;

/// USB PID of the virtual mouse
pub const IC_PID_MOUSE: u16 = 0x0031;

/// Whether a HID code is a modifier (224-231, byte 0 of the reports).
pub open spec fn is_modifier(key: u8) -> bool {
    224 <= key <= 231
}

/// Whether a HID code is a normal key (4-164 keyboard section, 176-221 keypad section).
pub open spec fn is_normal_key(key: u8) -> bool {
    (4 <= key <= 164) || (176 <= key <= 221)
}

/// Byte and bit of a HID code in the NKRO bitmap, if it has one: the modifiers in byte
/// 0, the keyboard section (4-164) after 4 padding bits (byte `k / 8 + 1`), the keypad
/// section (176-221) after 3 more padding bits (byte `k / 8`, bytes 22-27).
pub open spec fn nkro_position(key: u8) -> Option<(int, u8)> {
    if is_modifier(key) {
        Some((0int, (key - 224) as u8))
    } else if 4 <= key <= 164 {
        Some(((key / 8) + 1, (key % 8) as u8))
    } else if 176 <= key <= 221 {
        Some(((key / 8) as int, (key % 8) as u8))
    } else {
        None
    }
}

/// Bit `b` of byte `x`.
pub open spec fn bit_set(x: u8, b: u8) -> bool {
    x & (1u8 << b) != 0
}

proof fn lemma_set_bit(x: u8, b0: u8, b: u8)
    requires
        b0 < 8,
        b < 8,
    ensures
        bit_set(x | (1u8 << b0), b) == (bit_set(x, b) || b == b0),
{
    assert((x | (1u8 << b0)) & (1u8 << b) != 0 <==> (x & (1u8 << b) != 0 || b == b0)) by (bit_vector)
        requires b0 < 8, b < 8;
}

proof fn lemma_zero_bits(b: u8)
    requires
        b < 8,
    ensures
        !bit_set(0u8, b),
{
    assert(0u8 & (1u8 << b) == 0) by (bit_vector);
}

/// NKRO keyboard report (28 bytes), as its report descriptor packs it: byte 0 holds the
/// modifiers (224-231), bytes 1-21 the keyboard section (key `k` at bit `k % 8` of byte
/// `k / 8 + 1`), bytes 22-27 the keypad section (key `k` at bit `k % 8` of byte `k / 8`).
/// Codes of no section are ignored.
pub fn keyboard_nkro_report(keyboard_hid_codes: &Vec<u8>) -> (r: Vec<u8>)
    ensures
        r@.len() == 28,
        forall|j: int, b: u8|
            0 <= j < 28 && b < 8 ==> (#[trigger] bit_set(r@[j], b) <==> exists|i: int|
                0 <= i < keyboard_hid_codes@.len() && #[trigger] nkro_position(keyboard_hid_codes@[i])
                    == Some((j, b))),
{
    let mut data: Vec<u8> = Vec::new();
    let mut z: usize = 0;
    while z < 28
        invariant
            z <= 28,
            data@.len() == z,
            forall|j: int| 0 <= j < z ==> data@[j] == 0,
        decreases 28 - z,
    {
        data.push(0);
        z = z + 1;
    }
    assert forall|j: int, b: u8| 0 <= j < 28 && b < 8 implies !#[trigger] bit_set(data@[j], b) by {
        lemma_zero_bits(b);
    }
    let mut k: usize = 0;
    while k < keyboard_hid_codes.len()
        invariant
            k <= keyboard_hid_codes@.len(),
            data@.len() == 28,
            forall|j: int, b: u8|
                0 <= j < 28 && b < 8 ==> (#[trigger] bit_set(data@[j], b) <==> exists|i: int|
                    0 <= i < k && #[trigger] nkro_position(keyboard_hid_codes@[i]) == Some((j, b))),
        decreases keyboard_hid_codes@.len() - k,
    {
        let key = keyboard_hid_codes[k];
        let ghost old_data = data@;
        let pos: Option<(usize, u8)> = if 224 <= key && key <= 231 {
            Some((0, key - 224))
        } else if 4 <= key && key <= 164 {
            Some(((key / 8) as usize + 1, key % 8))
        } else if 176 <= key && key <= 221 {
            Some(((key / 8) as usize, key % 8))
        } else {
            None
        };
        match pos {
            Some((j0, b0)) => {
                assert(j0 < 28);
                let v = data[j0] | (1u8 << b0);
                data.set(j0, v);
                assert forall|j: int, b: u8| 0 <= j < 28 && b < 8 implies (#[trigger] bit_set(data@[j], b) <==> exists|i: int|
                    0 <= i < k + 1 && #[trigger] nkro_position(keyboard_hid_codes@[i]) == Some((j, b))) by {
                    if j == j0 {
                        lemma_set_bit(old_data[j], b0, b);
                    }
                    if exists|i: int| 0 <= i < k + 1 && #[trigger] nkro_position(keyboard_hid_codes@[i]) == Some((j, b)) {
                        let i = choose|i: int| 0 <= i < k + 1 && #[trigger] nkro_position(keyboard_hid_codes@[i]) == Some((j, b));
                        if i < k {
                            assert(exists|i2: int| 0 <= i2 < k && #[trigger] nkro_position(keyboard_hid_codes@[i2]) == Some((j, b)));
                        }
                    }
                    if exists|i: int| 0 <= i < k && #[trigger] nkro_position(keyboard_hid_codes@[i]) == Some((j, b)) {
                        let i = choose|i: int| 0 <= i < k && #[trigger] nkro_position(keyboard_hid_codes@[i]) == Some((j, b));
                        assert(0 <= i < k + 1);
                    }
                    if j == j0 && b == b0 {
                        assert(nkro_position(keyboard_hid_codes@[k as int]) == Some((j, b)));
                    }
                }
            },
            None => {
                assert forall|j: int, b: u8| 0 <= j < 28 && b < 8 implies (#[trigger] bit_set(data@[j], b) <==> exists|i: int|
                    0 <= i < k + 1 && #[trigger] nkro_position(keyboard_hid_codes@[i]) == Some((j, b))) by {
                    if exists|i: int| 0 <= i < k + 1 && #[trigger] nkro_position(keyboard_hid_codes@[i]) == Some((j, b)) {
                        let i = choose|i: int| 0 <= i < k + 1 && #[trigger] nkro_position(keyboard_hid_codes@[i]) == Some((j, b));
                        if i < k {
                            assert(exists|i2: int| 0 <= i2 < k && #[trigger] nkro_position(keyboard_hid_codes@[i2]) == Some((j, b)));
                        }
                    }
                    if exists|i: int| 0 <= i < k && #[trigger] nkro_position(keyboard_hid_codes@[i]) == Some((j, b)) {
                        let i = choose|i: int| 0 <= i < k && #[trigger] nkro_position(keyboard_hid_codes@[i]) == Some((j, b));
                        assert(0 <= i < k + 1);
                    }
                }
            },
        }
        k = k + 1;
    }
    data
}


/// The normal keys of a code list, in order.
pub open spec fn normal_keys(codes: Seq<u8>) -> Seq<u8> {
    codes.filter(|k: u8| is_normal_key(k))
}

/// Boot keyboard report (8 bytes): byte 0 holds the modifiers (224-231, bit
/// `code - 224`), byte 1 is reserved (0), bytes 2-7 hold the first six normal keys in
/// the order given (0 where there are fewer). Further keys and other codes are ignored.
pub fn keyboard_6kro_report(keyboard_hid_codes: &Vec<u8>) -> (r: Vec<u8>)
    ensures
        r@.len() == 8,
        r@[1] == 0,
        forall|b: u8|
            b < 8 ==> (#[trigger] bit_set(r@[0], b) <==> exists|i: int|
                0 <= i < keyboard_hid_codes@.len() && is_modifier(#[trigger] keyboard_hid_codes@[i])
                    && keyboard_hid_codes@[i] - 224 == b),
        forall|i: int|
            0 <= i < 6 ==> #[trigger] r@[2 + i] == if i < normal_keys(keyboard_hid_codes@).len() {
                normal_keys(keyboard_hid_codes@)[i]
            } else {
                0u8
            },
{
    let mut data: Vec<u8> = Vec::new();
    let mut z: usize = 0;
    while z < 8
        invariant
            z <= 8,
            data@.len() == z,
            forall|j: int| 0 <= j < z ==> data@[j] == 0,
        decreases 8 - z,
    {
        data.push(0);
        z = z + 1;
    }
    assert forall|b: u8| b < 8 implies !#[trigger] bit_set(data@[0], b) by {
        lemma_zero_bits(b);
    }
    let ghost codes = keyboard_hid_codes@;
    let ghost pred = |k: u8| is_normal_key(k);
    assert(codes.take(0).filter(pred) =~= Seq::<u8>::empty());
    let mut key_pos: usize = 2;
    let mut k: usize = 0;
    while k < keyboard_hid_codes.len()
        invariant
            codes == keyboard_hid_codes@,
            pred == (|k: u8| is_normal_key(k)),
            k <= codes.len(),
            data@.len() == 8,
            data@[1] == 0,
            2 <= key_pos <= 8,
            key_pos - 2 == if codes.take(k as int).filter(pred).len() < 6 {
                codes.take(k as int).filter(pred).len()
            } else {
                6
            },
            forall|i: int|
                0 <= i < 6 ==> #[trigger] data@[2 + i] == if i < codes.take(k as int).filter(pred).len() {
                    codes.take(k as int).filter(pred)[i]
                } else {
                    0u8
                },
            forall|b: u8|
                b < 8 ==> (#[trigger] bit_set(data@[0], b) <==> exists|i: int|
                    0 <= i < k && is_modifier(#[trigger] codes[i]) && codes[i] - 224 == b),
        decreases codes.len() - k,
    {
        let key = keyboard_hid_codes[k];
        let ghost old_data = data@;
        let ghost f = codes.take(k as int).filter(pred);
        assert(codes.take(k + 1).drop_last() =~= codes.take(k as int));
        assert(codes.take(k + 1).last() == key);
        proof {
            reveal_with_fuel(Seq::<u8>::filter, 1);
        }
        assert(codes.take(k + 1).filter(pred) == if pred(key) { f.push(key) } else { f });
        if 224 <= key && key <= 231 {
            let b0 = key - 224;
            let v = data[0] | (1u8 << b0);
            data.set(0, v);
            assert forall|b: u8| b < 8 implies (#[trigger] bit_set(data@[0], b) <==> exists|i: int|
                0 <= i < k + 1 && is_modifier(#[trigger] codes[i]) && codes[i] - 224 == b) by {
                lemma_set_bit(old_data[0], b0, b);
                if exists|i: int| 0 <= i < k + 1 && is_modifier(#[trigger] codes[i]) && codes[i] - 224 == b {
                    let i = choose|i: int| 0 <= i < k + 1 && is_modifier(#[trigger] codes[i]) && codes[i] - 224 == b;
                    if i < k {
                        assert(exists|i2: int| 0 <= i2 < k && is_modifier(#[trigger] codes[i2]) && codes[i2] - 224 == b);
                    }
                }
                if exists|i: int| 0 <= i < k && is_modifier(#[trigger] codes[i]) && codes[i] - 224 == b {
                    let i = choose|i: int| 0 <= i < k && is_modifier(#[trigger] codes[i]) && codes[i] - 224 == b;
                    assert(0 <= i < k + 1);
                }
                if b == b0 {
                    assert(is_modifier(codes[k as int]) && codes[k as int] - 224 == b);
                }
            }
        } else {
            if (4 <= key && key <= 164) || (176 <= key && key <= 221) {
                if key_pos < 8 {
                    data.set(key_pos, key);
                    key_pos = key_pos + 1;
                }
            }
            assert forall|b: u8| b < 8 implies (#[trigger] bit_set(data@[0], b) <==> exists|i: int|
                0 <= i < k + 1 && is_modifier(#[trigger] codes[i]) && codes[i] - 224 == b) by {
                if exists|i: int| 0 <= i < k + 1 && is_modifier(#[trigger] codes[i]) && codes[i] - 224 == b {
                    let i = choose|i: int| 0 <= i < k + 1 && is_modifier(#[trigger] codes[i]) && codes[i] - 224 == b;
                    if i < k {
                        assert(exists|i2: int| 0 <= i2 < k && is_modifier(#[trigger] codes[i2]) && codes[i2] - 224 == b);
                    }
                }
                if exists|i: int| 0 <= i < k && is_modifier(#[trigger] codes[i]) && codes[i] - 224 == b {
                    let i = choose|i: int| 0 <= i < k && is_modifier(#[trigger] codes[i]) && codes[i] - 224 == b;
                    assert(0 <= i < k + 1);
                }
            }
        }
        k = k + 1;
    }
    assert(codes.take(codes.len() as int) =~= codes);
    data
}


/// The keys of the 6KRO report are exactly the codes of the keyboard section (4-164) and
/// of the keypad section (176-221), in the order given.
pub proof fn lemma_report_keys_are_both_sections(codes: Seq<u8>)
    ensures
        normal_keys(codes) == codes.filter(|k: u8| (4 <= k && k <= 164) || (176 <= k && k <= 221)),
{
    assert((|k: u8| is_normal_key(k)) =~= (|k: u8| (4 <= k && k <= 164) || (176 <= k && k <= 221)));
}

} // verus!
