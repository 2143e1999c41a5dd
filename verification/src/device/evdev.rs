use vstd::prelude::*;
use crate::api::NodeType;

verus! {

/// Number of evdev key codes that the conversion table covers
pub const EVDEV_KEY_TABLE_LEN: u16 = 548;

/// The kind of HID-IO command a HID code is sent with
#[derive(Debug, Clone, Copy, PartialEq, Eq, Structural)]
pub enum HidCommand {
    HidKeyboard,
    HidSystemCtrl,
    HidConsumerCtrl,
    HidMouse,
    HidJoystick,
}

/// An evdev event code, as far as the conversion cares
#[derive(Debug, Clone, Copy, PartialEq, Eq, Structural)]
pub enum EvEventCode {
    /// EV_SYN(SYN_REPORT): the end of one report
    SynReport,
    /// EV_SYN(SYN_DROPPED): events were lost until the next report
    SynDropped,
    /// EV_KEY with its key code
    Key(u16),
    /// Any other event, with its type and code
    Other(u16, u16),
}

/// One evdev input event: its code and value (1 for a press)
#[derive(Debug, Clone, Copy, PartialEq, Eq, Structural)]
pub struct EvInputEvent {
    pub code: EvEventCode,
    pub value: i32,
}

/// The base HID code of an evdev key code, where the table has one.
pub open spec fn evdev_hid_code(key: u16) -> Option<(HidCommand, u16)> {
    match key {
        0 => Some((HidCommand::HidKeyboard, 0x00)),
        1 => Some((HidCommand::HidKeyboard, 0x29)),
        2 => Some((HidCommand::HidKeyboard, 0x1E)),
        3 => Some((HidCommand::HidKeyboard, 0x1F)),
        4 => Some((HidCommand::HidKeyboard, 0x20)),
        5 => Some((HidCommand::HidKeyboard, 0x21)),
        6 => Some((HidCommand::HidKeyboard, 0x22)),
        7 => Some((HidCommand::HidKeyboard, 0x23)),
        8 => Some((HidCommand::HidKeyboard, 0x24)),
        9 => Some((HidCommand::HidKeyboard, 0x25)),
        10 => Some((HidCommand::HidKeyboard, 0x26)),
        11 => Some((HidCommand::HidKeyboard, 0x27)),
        12 => Some((HidCommand::HidKeyboard, 0x2D)),
        13 => Some((HidCommand::HidKeyboard, 0x2E)),
        14 => Some((HidCommand::HidKeyboard, 0x2A)),
        15 => Some((HidCommand::HidKeyboard, 0x2B)),
        16 => Some((HidCommand::HidKeyboard, 0x14)),
        17 => Some((HidCommand::HidKeyboard, 0x1A)),
        18 => Some((HidCommand::HidKeyboard, 0x08)),
        19 => Some((HidCommand::HidKeyboard, 0x15)),
        20 => Some((HidCommand::HidKeyboard, 0x17)),
        21 => Some((HidCommand::HidKeyboard, 0x1C)),
        22 => Some((HidCommand::HidKeyboard, 0x18)),
        23 => Some((HidCommand::HidKeyboard, 0x0C)),
        24 => Some((HidCommand::HidKeyboard, 0x12)),
        25 => Some((HidCommand::HidKeyboard, 0x13)),
        26 => Some((HidCommand::HidKeyboard, 0x2F)),
        27 => Some((HidCommand::HidKeyboard, 0x30)),
        28 => Some((HidCommand::HidKeyboard, 0x28)),
        29 => Some((HidCommand::HidKeyboard, 0xE0)),
        30 => Some((HidCommand::HidKeyboard, 0x04)),
        31 => Some((HidCommand::HidKeyboard, 0x16)),
        32 => Some((HidCommand::HidKeyboard, 0x07)),
        33 => Some((HidCommand::HidKeyboard, 0x09)),
        34 => Some((HidCommand::HidKeyboard, 0x0A)),
        35 => Some((HidCommand::HidKeyboard, 0x0B)),
        36 => Some((HidCommand::HidKeyboard, 0x0D)),
        37 => Some((HidCommand::HidKeyboard, 0x0E)),
        38 => Some((HidCommand::HidKeyboard, 0x0F)),
        39 => Some((HidCommand::HidKeyboard, 0x33)),
        40 => Some((HidCommand::HidKeyboard, 0x34)),
        41 => Some((HidCommand::HidKeyboard, 0x35)),
        42 => Some((HidCommand::HidKeyboard, 0xE1)),
        43 => Some((HidCommand::HidKeyboard, 0x31)),
        44 => Some((HidCommand::HidKeyboard, 0x1D)),
        45 => Some((HidCommand::HidKeyboard, 0x1B)),
        46 => Some((HidCommand::HidKeyboard, 0x06)),
        47 => Some((HidCommand::HidKeyboard, 0x19)),
        48 => Some((HidCommand::HidKeyboard, 0x05)),
        49 => Some((HidCommand::HidKeyboard, 0x11)),
        50 => Some((HidCommand::HidKeyboard, 0x10)),
        51 => Some((HidCommand::HidKeyboard, 0x36)),
        52 => Some((HidCommand::HidKeyboard, 0x37)),
        53 => Some((HidCommand::HidKeyboard, 0x38)),
        54 => Some((HidCommand::HidKeyboard, 0xE5)),
        55 => Some((HidCommand::HidKeyboard, 0x55)),
        56 => Some((HidCommand::HidKeyboard, 0xE2)),
        57 => Some((HidCommand::HidKeyboard, 0x2C)),
        58 => Some((HidCommand::HidKeyboard, 0x39)),
        59 => Some((HidCommand::HidKeyboard, 0x3A)),
        60 => Some((HidCommand::HidKeyboard, 0x3B)),
        61 => Some((HidCommand::HidKeyboard, 0x3C)),
        62 => Some((HidCommand::HidKeyboard, 0x3D)),
        63 => Some((HidCommand::HidKeyboard, 0x3E)),
        64 => Some((HidCommand::HidKeyboard, 0x3F)),
        65 => Some((HidCommand::HidKeyboard, 0x40)),
        66 => Some((HidCommand::HidKeyboard, 0x41)),
        67 => Some((HidCommand::HidKeyboard, 0x42)),
        68 => Some((HidCommand::HidKeyboard, 0x43)),
        69 => Some((HidCommand::HidKeyboard, 0x53)),
        70 => Some((HidCommand::HidKeyboard, 0x47)),
        71 => Some((HidCommand::HidKeyboard, 0x5F)),
        72 => Some((HidCommand::HidKeyboard, 0x60)),
        73 => Some((HidCommand::HidKeyboard, 0x61)),
        74 => Some((HidCommand::HidKeyboard, 0x56)),
        75 => Some((HidCommand::HidKeyboard, 0x5C)),
        76 => Some((HidCommand::HidKeyboard, 0x5D)),
        77 => Some((HidCommand::HidKeyboard, 0x5E)),
        78 => Some((HidCommand::HidKeyboard, 0x57)),
        79 => Some((HidCommand::HidKeyboard, 0x59)),
        80 => Some((HidCommand::HidKeyboard, 0x5A)),
        81 => Some((HidCommand::HidKeyboard, 0x5B)),
        82 => Some((HidCommand::HidKeyboard, 0x62)),
        83 => Some((HidCommand::HidKeyboard, 0x63)),
        85 => Some((HidCommand::HidKeyboard, 0x94)),
        86 => Some((HidCommand::HidKeyboard, 0x64)),
        87 => Some((HidCommand::HidKeyboard, 0x44)),
        88 => Some((HidCommand::HidKeyboard, 0x45)),
        90 => Some((HidCommand::HidKeyboard, 0x92)),
        91 => Some((HidCommand::HidKeyboard, 0x93)),
        92 => Some((HidCommand::HidKeyboard, 0x8A)),
        93 => Some((HidCommand::HidKeyboard, 0x88)),
        94 => Some((HidCommand::HidKeyboard, 0x8B)),
        96 => Some((HidCommand::HidKeyboard, 0x58)),
        97 => Some((HidCommand::HidKeyboard, 0xE4)),
        98 => Some((HidCommand::HidKeyboard, 0x54)),
        99 => Some((HidCommand::HidKeyboard, 0x9A)),
        100 => Some((HidCommand::HidKeyboard, 0xE6)),
        102 => Some((HidCommand::HidKeyboard, 0x4A)),
        103 => Some((HidCommand::HidKeyboard, 0x52)),
        104 => Some((HidCommand::HidKeyboard, 0x4B)),
        105 => Some((HidCommand::HidKeyboard, 0x50)),
        106 => Some((HidCommand::HidKeyboard, 0x4F)),
        107 => Some((HidCommand::HidKeyboard, 0x4D)),
        108 => Some((HidCommand::HidKeyboard, 0x51)),
        109 => Some((HidCommand::HidKeyboard, 0x4E)),
        110 => Some((HidCommand::HidKeyboard, 0x49)),
        111 => Some((HidCommand::HidKeyboard, 0x4C)),
        113 => Some((HidCommand::HidKeyboard, 0x7F)),
        114 => Some((HidCommand::HidKeyboard, 0x81)),
        115 => Some((HidCommand::HidKeyboard, 0x80)),
        116 => Some((HidCommand::HidConsumerCtrl, 0x30)),
        117 => Some((HidCommand::HidKeyboard, 0x67)),
        118 => Some((HidCommand::HidKeyboard, 0xD7)),
        119 => Some((HidCommand::HidKeyboard, 0x48)),
        121 => Some((HidCommand::HidKeyboard, 0x85)),
        122 => Some((HidCommand::HidKeyboard, 0x90)),
        123 => Some((HidCommand::HidKeyboard, 0x91)),
        124 => Some((HidCommand::HidKeyboard, 0x89)),
        125 => Some((HidCommand::HidKeyboard, 0xE3)),
        126 => Some((HidCommand::HidKeyboard, 0xE7)),
        128 => Some((HidCommand::HidKeyboard, 0x78)),
        129 => Some((HidCommand::HidKeyboard, 0x79)),
        131 => Some((HidCommand::HidKeyboard, 0x7A)),
        133 => Some((HidCommand::HidKeyboard, 0x7C)),
        134 => Some((HidCommand::HidConsumerCtrl, 0x202)),
        135 => Some((HidCommand::HidKeyboard, 0x7D)),
        136 => Some((HidCommand::HidKeyboard, 0x7E)),
        137 => Some((HidCommand::HidKeyboard, 0x7B)),
        138 => Some((HidCommand::HidKeyboard, 0x75)),
        139 => Some((HidCommand::HidKeyboard, 0x76)),
        140 => Some((HidCommand::HidConsumerCtrl, 0x192)),
        141 => Some((HidCommand::HidSystemCtrl, 0xA2)),
        142 => Some((HidCommand::HidSystemCtrl, 0x82)),
        143 => Some((HidCommand::HidSystemCtrl, 0x83)),
        179 => Some((HidCommand::HidKeyboard, 0xB6)),
        180 => Some((HidCommand::HidKeyboard, 0xB7)),
        183 => Some((HidCommand::HidKeyboard, 0x68)),
        184 => Some((HidCommand::HidKeyboard, 0x69)),
        185 => Some((HidCommand::HidKeyboard, 0x6A)),
        186 => Some((HidCommand::HidKeyboard, 0x6B)),
        187 => Some((HidCommand::HidKeyboard, 0x6C)),
        188 => Some((HidCommand::HidKeyboard, 0x6D)),
        189 => Some((HidCommand::HidKeyboard, 0x6E)),
        190 => Some((HidCommand::HidKeyboard, 0x6F)),
        191 => Some((HidCommand::HidKeyboard, 0x70)),
        192 => Some((HidCommand::HidKeyboard, 0x71)),
        193 => Some((HidCommand::HidKeyboard, 0x72)),
        194 => Some((HidCommand::HidKeyboard, 0x73)),
        _ => None,
    }
}

/// Converts an evdev event code into a base HID code: only key codes with an entry in
/// the table have one.
pub fn evdev2basehid(code: EvEventCode) -> (r: Option<(HidCommand, u16)>)
    requires
        code matches EvEventCode::Key(k) ==> k < EVDEV_KEY_TABLE_LEN,
    ensures
        r == match code {
            EvEventCode::Key(k) => evdev_hid_code(k),
            _ => None,
        },
{
    let key: u16 = match code {
        EvEventCode::Key(k) => k,
        _ => {
            return None;
        },
    };
    let r: Option<(HidCommand, u16)> = {
        match key {
            0 => Some((HidCommand::HidKeyboard, 0x00)),
            1 => Some((HidCommand::HidKeyboard, 0x29)),
            2 => Some((HidCommand::HidKeyboard, 0x1E)),
            3 => Some((HidCommand::HidKeyboard, 0x1F)),
            4 => Some((HidCommand::HidKeyboard, 0x20)),
            5 => Some((HidCommand::HidKeyboard, 0x21)),
            6 => Some((HidCommand::HidKeyboard, 0x22)),
            7 => Some((HidCommand::HidKeyboard, 0x23)),
            8 => Some((HidCommand::HidKeyboard, 0x24)),
            9 => Some((HidCommand::HidKeyboard, 0x25)),
            10 => Some((HidCommand::HidKeyboard, 0x26)),
            11 => Some((HidCommand::HidKeyboard, 0x27)),
            12 => Some((HidCommand::HidKeyboard, 0x2D)),
            13 => Some((HidCommand::HidKeyboard, 0x2E)),
            14 => Some((HidCommand::HidKeyboard, 0x2A)),
            15 => Some((HidCommand::HidKeyboard, 0x2B)),
            16 => Some((HidCommand::HidKeyboard, 0x14)),
            17 => Some((HidCommand::HidKeyboard, 0x1A)),
            18 => Some((HidCommand::HidKeyboard, 0x08)),
            19 => Some((HidCommand::HidKeyboard, 0x15)),
            20 => Some((HidCommand::HidKeyboard, 0x17)),
            21 => Some((HidCommand::HidKeyboard, 0x1C)),
            22 => Some((HidCommand::HidKeyboard, 0x18)),
            23 => Some((HidCommand::HidKeyboard, 0x0C)),
            24 => Some((HidCommand::HidKeyboard, 0x12)),
            25 => Some((HidCommand::HidKeyboard, 0x13)),
            26 => Some((HidCommand::HidKeyboard, 0x2F)),
            27 => Some((HidCommand::HidKeyboard, 0x30)),
            28 => Some((HidCommand::HidKeyboard, 0x28)),
            29 => Some((HidCommand::HidKeyboard, 0xE0)),
            30 => Some((HidCommand::HidKeyboard, 0x04)),
            31 => Some((HidCommand::HidKeyboard, 0x16)),
            32 => Some((HidCommand::HidKeyboard, 0x07)),
            33 => Some((HidCommand::HidKeyboard, 0x09)),
            34 => Some((HidCommand::HidKeyboard, 0x0A)),
            35 => Some((HidCommand::HidKeyboard, 0x0B)),
            36 => Some((HidCommand::HidKeyboard, 0x0D)),
            37 => Some((HidCommand::HidKeyboard, 0x0E)),
            38 => Some((HidCommand::HidKeyboard, 0x0F)),
            39 => Some((HidCommand::HidKeyboard, 0x33)),
            40 => Some((HidCommand::HidKeyboard, 0x34)),
            41 => Some((HidCommand::HidKeyboard, 0x35)),
            42 => Some((HidCommand::HidKeyboard, 0xE1)),
            43 => Some((HidCommand::HidKeyboard, 0x31)),
            44 => Some((HidCommand::HidKeyboard, 0x1D)),
            45 => Some((HidCommand::HidKeyboard, 0x1B)),
            46 => Some((HidCommand::HidKeyboard, 0x06)),
            47 => Some((HidCommand::HidKeyboard, 0x19)),
            48 => Some((HidCommand::HidKeyboard, 0x05)),
            49 => Some((HidCommand::HidKeyboard, 0x11)),
            50 => Some((HidCommand::HidKeyboard, 0x10)),
            51 => Some((HidCommand::HidKeyboard, 0x36)),
            52 => Some((HidCommand::HidKeyboard, 0x37)),
            53 => Some((HidCommand::HidKeyboard, 0x38)),
            54 => Some((HidCommand::HidKeyboard, 0xE5)),
            55 => Some((HidCommand::HidKeyboard, 0x55)),
            56 => Some((HidCommand::HidKeyboard, 0xE2)),
            57 => Some((HidCommand::HidKeyboard, 0x2C)),
            58 => Some((HidCommand::HidKeyboard, 0x39)),
            59 => Some((HidCommand::HidKeyboard, 0x3A)),
            60 => Some((HidCommand::HidKeyboard, 0x3B)),
            61 => Some((HidCommand::HidKeyboard, 0x3C)),
            62 => Some((HidCommand::HidKeyboard, 0x3D)),
            63 => Some((HidCommand::HidKeyboard, 0x3E)),
            64 => Some((HidCommand::HidKeyboard, 0x3F)),
            65 => Some((HidCommand::HidKeyboard, 0x40)),
            66 => Some((HidCommand::HidKeyboard, 0x41)),
            67 => Some((HidCommand::HidKeyboard, 0x42)),
            68 => Some((HidCommand::HidKeyboard, 0x43)),
            69 => Some((HidCommand::HidKeyboard, 0x53)),
            70 => Some((HidCommand::HidKeyboard, 0x47)),
            71 => Some((HidCommand::HidKeyboard, 0x5F)),
            72 => Some((HidCommand::HidKeyboard, 0x60)),
            73 => Some((HidCommand::HidKeyboard, 0x61)),
            74 => Some((HidCommand::HidKeyboard, 0x56)),
            75 => Some((HidCommand::HidKeyboard, 0x5C)),
            76 => Some((HidCommand::HidKeyboard, 0x5D)),
            77 => Some((HidCommand::HidKeyboard, 0x5E)),
            78 => Some((HidCommand::HidKeyboard, 0x57)),
            79 => Some((HidCommand::HidKeyboard, 0x59)),
            80 => Some((HidCommand::HidKeyboard, 0x5A)),
            81 => Some((HidCommand::HidKeyboard, 0x5B)),
            82 => Some((HidCommand::HidKeyboard, 0x62)),
            83 => Some((HidCommand::HidKeyboard, 0x63)),
            85 => Some((HidCommand::HidKeyboard, 0x94)),
            86 => Some((HidCommand::HidKeyboard, 0x64)),
            87 => Some((HidCommand::HidKeyboard, 0x44)),
            88 => Some((HidCommand::HidKeyboard, 0x45)),
            90 => Some((HidCommand::HidKeyboard, 0x92)),
            91 => Some((HidCommand::HidKeyboard, 0x93)),
            92 => Some((HidCommand::HidKeyboard, 0x8A)),
            93 => Some((HidCommand::HidKeyboard, 0x88)),
            94 => Some((HidCommand::HidKeyboard, 0x8B)),
            96 => Some((HidCommand::HidKeyboard, 0x58)),
            97 => Some((HidCommand::HidKeyboard, 0xE4)),
            98 => Some((HidCommand::HidKeyboard, 0x54)),
            99 => Some((HidCommand::HidKeyboard, 0x9A)),
            100 => Some((HidCommand::HidKeyboard, 0xE6)),
            102 => Some((HidCommand::HidKeyboard, 0x4A)),
            103 => Some((HidCommand::HidKeyboard, 0x52)),
            104 => Some((HidCommand::HidKeyboard, 0x4B)),
            105 => Some((HidCommand::HidKeyboard, 0x50)),
            106 => Some((HidCommand::HidKeyboard, 0x4F)),
            107 => Some((HidCommand::HidKeyboard, 0x4D)),
            108 => Some((HidCommand::HidKeyboard, 0x51)),
            109 => Some((HidCommand::HidKeyboard, 0x4E)),
            110 => Some((HidCommand::HidKeyboard, 0x49)),
            111 => Some((HidCommand::HidKeyboard, 0x4C)),
            113 => Some((HidCommand::HidKeyboard, 0x7F)),
            114 => Some((HidCommand::HidKeyboard, 0x81)),
            115 => Some((HidCommand::HidKeyboard, 0x80)),
            116 => Some((HidCommand::HidConsumerCtrl, 0x30)),
            117 => Some((HidCommand::HidKeyboard, 0x67)),
            118 => Some((HidCommand::HidKeyboard, 0xD7)),
            119 => Some((HidCommand::HidKeyboard, 0x48)),
            121 => Some((HidCommand::HidKeyboard, 0x85)),
            122 => Some((HidCommand::HidKeyboard, 0x90)),
            123 => Some((HidCommand::HidKeyboard, 0x91)),
            124 => Some((HidCommand::HidKeyboard, 0x89)),
            125 => Some((HidCommand::HidKeyboard, 0xE3)),
            126 => Some((HidCommand::HidKeyboard, 0xE7)),
            128 => Some((HidCommand::HidKeyboard, 0x78)),
            129 => Some((HidCommand::HidKeyboard, 0x79)),
            131 => Some((HidCommand::HidKeyboard, 0x7A)),
            133 => Some((HidCommand::HidKeyboard, 0x7C)),
            134 => Some((HidCommand::HidConsumerCtrl, 0x202)),
            135 => Some((HidCommand::HidKeyboard, 0x7D)),
            136 => Some((HidCommand::HidKeyboard, 0x7E)),
            137 => Some((HidCommand::HidKeyboard, 0x7B)),
            138 => Some((HidCommand::HidKeyboard, 0x75)),
            139 => Some((HidCommand::HidKeyboard, 0x76)),
            140 => Some((HidCommand::HidConsumerCtrl, 0x192)),
            141 => Some((HidCommand::HidSystemCtrl, 0xA2)),
            142 => Some((HidCommand::HidSystemCtrl, 0x82)),
            143 => Some((HidCommand::HidSystemCtrl, 0x83)),
            179 => Some((HidCommand::HidKeyboard, 0xB6)),
            180 => Some((HidCommand::HidKeyboard, 0xB7)),
            183 => Some((HidCommand::HidKeyboard, 0x68)),
            184 => Some((HidCommand::HidKeyboard, 0x69)),
            185 => Some((HidCommand::HidKeyboard, 0x6A)),
            186 => Some((HidCommand::HidKeyboard, 0x6B)),
            187 => Some((HidCommand::HidKeyboard, 0x6C)),
            188 => Some((HidCommand::HidKeyboard, 0x6D)),
            189 => Some((HidCommand::HidKeyboard, 0x6E)),
            190 => Some((HidCommand::HidKeyboard, 0x6F)),
            191 => Some((HidCommand::HidKeyboard, 0x70)),
            192 => Some((HidCommand::HidKeyboard, 0x71)),
            193 => Some((HidCommand::HidKeyboard, 0x72)),
            194 => Some((HidCommand::HidKeyboard, 0x73)),
            _ => None,
        }
    };
    r
}


/// Keyboard report data from queued events, in order: a key press adds its HID code, any
/// other key event removes every copy of its code; events without a keyboard HID code are
/// skipped.
pub open spec fn keyboard_report_data(q: Seq<EvInputEvent>) -> Seq<u8>
    decreases q.len(),
{
    if q.len() == 0 {
        Seq::empty()
    } else {
        let d = keyboard_report_data(q.drop_last());
        let e = q.last();
        match e.code {
            EvEventCode::Key(k) => match evdev_hid_code(k) {
                Some((HidCommand::HidKeyboard, c)) => if e.value == 1 {
                    d.push(c as u8)
                } else {
                    d.filter(|x: u8| x != c as u8)
                },
                _ => d,
            },
            _ => d,
        }
    }
}

/// Every key event has a code inside the conversion table.
pub open spec fn keys_in_table(q: Seq<EvInputEvent>) -> bool {
    forall|i: int| 0 <= i < q.len() ==> ((#[trigger] q[i]).code matches EvEventCode::Key(k) ==> k < EVDEV_KEY_TABLE_LEN)
}

fn remove_code(data: &Vec<u8>, x: u8) -> (r: Vec<u8>)
    ensures
        r@ == data@.filter(|y: u8| y != x),
{
    let ghost pred = |y: u8| y != x;
    let mut out: Vec<u8> = Vec::new();
    let mut i: usize = 0;
    assert(data@.take(0).filter(pred) =~= Seq::<u8>::empty());
    while i < data.len()
        invariant
            i <= data@.len(),
            pred == (|y: u8| y != x),
            out@ == data@.take(i as int).filter(pred),
        decreases data@.len() - i,
    {
        let y = data[i];
        assert(data@.take(i + 1).drop_last() =~= data@.take(i as int));
        assert(data@.take(i + 1).last() == y);
        proof {
            reveal_with_fuel(Seq::<u8>::filter, 1);
        }
        if y != x {
            out.push(y);
        }
        i = i + 1;
    }
    assert(data@.take(data@.len() as int) =~= data@);
    out
}

/// Builds keyboard report data from queued events (see [`keyboard_report_data`]).
pub fn keyboard_data(queue: &Vec<EvInputEvent>) -> (r: Vec<u8>)
    requires
        keys_in_table(queue@),
    ensures
        r@ == keyboard_report_data(queue@),
{
    let mut data: Vec<u8> = Vec::new();
    let mut i: usize = 0;
    while i < queue.len()
        invariant
            i <= queue@.len(),
            keys_in_table(queue@),
            data@ == keyboard_report_data(queue@.take(i as int)),
        decreases queue@.len() - i,
    {
        let e = queue[i];
        assert(queue@.take(i + 1).drop_last() =~= queue@.take(i as int));
        assert(queue@.take(i + 1).last() == e);
        match evdev2basehid(e.code) {
            Some((HidCommand::HidKeyboard, c)) => {
                if e.value == 1 {
                    data.push(c as u8);
                } else {
                    data = remove_code(&data, c as u8);
                }
            },
            _ => {},
        }
        i = i + 1;
    }
    assert(queue@.take(queue@.len() as int) =~= queue@);
    data
}

/// Whether events of a node type can be collected (keyboards, mice and joysticks).
pub open spec fn collects_events(node: NodeType) -> bool {
    node == NodeType::HidKeyboard || node == NodeType::HidMouse || node == NodeType::HidJoystick
}

/// The command that queued events of a node type are sent with.
pub open spec fn node_command(node: NodeType) -> HidCommand {
    if node == NodeType::HidKeyboard {
        HidCommand::HidKeyboard
    } else if node == NodeType::HidMouse {
        HidCommand::HidMouse
    } else {
        HidCommand::HidJoystick
    }
}

/// Events of an evdev device collected since it was opened: each report (EV_SYN
/// SYN_REPORT) sends HID data built from all of them, until a lost-events marker drops
/// the queue at the next report
pub struct EvdevQueue {
    pub node: NodeType,
    pub event_queue: Vec<EvInputEvent>,
    pub event_queue_command: HidCommand,
    pub drop_until_next_syn_report: bool,
}

impl EvdevQueue {
    /// Keyboard data can be built from the queue whenever it would be sent: a keyboard
    /// queues only keys of the table, another device sends no keyboard data once it has
    /// queued events.
    pub open spec fn wf(&self) -> bool {
        &&& self.node == NodeType::HidKeyboard ==> self.event_queue_command == HidCommand::HidKeyboard
            && keys_in_table(self.event_queue@)
        &&& self.node != NodeType::HidKeyboard && self.event_queue_command == HidCommand::HidKeyboard
            ==> self.event_queue@.len() == 0
    }

    /// No events of a device of type `node`; keyboard messages by default.
    pub fn new(node: NodeType) -> (r: EvdevQueue)
        ensures
            r.wf(),
            r.node == node,
            r.event_queue@ == Seq::<EvInputEvent>::empty(),
            r.event_queue_command == HidCommand::HidKeyboard,
            !r.drop_until_next_syn_report,
    {
        EvdevQueue { node, event_queue: Vec::new(), event_queue_command: HidCommand::HidKeyboard, drop_until_next_syn_report: false }
    }

    /// Handles one event of the device. Returns the message to send, if any:
    /// its command and data.
    ///
    /// A report either drops the queue (after lost events) or sends keyboard data built from
    /// the whole queue (other commands are not sent). A lost-events marker arms the drop.
    /// Any other event is queued, and sets the command from the node type; a keyboard only
    /// queues key events.
    pub fn process_event(&mut self, ev: EvInputEvent) -> (r: Option<(HidCommand, Vec<u8>)>)
        requires
            old(self).wf(),
            !(ev.code is SynReport || ev.code is SynDropped) ==> collects_events(old(self).node),
            old(self).node == NodeType::HidKeyboard ==> (ev.code matches EvEventCode::Key(k) ==> k < EVDEV_KEY_TABLE_LEN),
        ensures
            final(self).wf(),
            final(self).node == old(self).node,
            match ev.code {
                EvEventCode::SynReport => if old(self).drop_until_next_syn_report {
                    &&& r is None
                    &&& final(self).event_queue@ == Seq::<EvInputEvent>::empty()
                    &&& !final(self).drop_until_next_syn_report
                    &&& final(self).event_queue_command == old(self).event_queue_command
                } else {
                    &&& final(self).event_queue@ == old(self).event_queue@
                    &&& final(self).drop_until_next_syn_report == old(self).drop_until_next_syn_report
                    &&& final(self).event_queue_command == old(self).event_queue_command
                    &&& if old(self).event_queue_command == HidCommand::HidKeyboard {
                        r matches Some((c, data)) && c == HidCommand::HidKeyboard
                            && data@ == keyboard_report_data(old(self).event_queue@)
                    } else {
                        r is None
                    }
                },
                EvEventCode::SynDropped => {
                    &&& r is None
                    &&& final(self).drop_until_next_syn_report
                    &&& final(self).event_queue@ == old(self).event_queue@
                    &&& final(self).event_queue_command == old(self).event_queue_command
                },
                _ => {
                    &&& r is None
                    &&& final(self).drop_until_next_syn_report == old(self).drop_until_next_syn_report
                    &&& if old(self).node == NodeType::HidKeyboard && !(ev.code is Key) {
                        final(self).event_queue@ == old(self).event_queue@
                            && final(self).event_queue_command == old(self).event_queue_command
                    } else {
                        final(self).event_queue@ == old(self).event_queue@.push(ev)
                            && final(self).event_queue_command == node_command(old(self).node)
                    }
                },
            },
    {
        match ev.code {
            EvEventCode::SynReport => {
                if self.drop_until_next_syn_report {
                    self.event_queue = Vec::new();
                    self.drop_until_next_syn_report = false;
                    return None;
                }
                match self.event_queue_command {
                    HidCommand::HidKeyboard => {
                        let data = keyboard_data(&self.event_queue);
                        return Some((HidCommand::HidKeyboard, data));
                    },
                    _ => {
                        return None;
                    },
                }
            },
            EvEventCode::SynDropped => {
                self.drop_until_next_syn_report = true;
                return None;
            },
            _ => {},
        }
        let command = match self.node {
            NodeType::HidKeyboard => {
                match ev.code {
                    EvEventCode::Key(_) => {},
                    _ => {
                        return None;
                    },
                }
                HidCommand::HidKeyboard
            },
            NodeType::HidMouse => HidCommand::HidMouse,
            _ => HidCommand::HidJoystick,
        };
        self.event_queue_command = command;
        let ghost q = self.event_queue@;
        self.event_queue.push(ev);
        proof {
            if command == HidCommand::HidKeyboard {
                assert forall|i: int| 0 <= i < self.event_queue@.len() implies ((#[trigger] self.event_queue@[i]).code matches EvEventCode::Key(k) ==> k < EVDEV_KEY_TABLE_LEN) by {
                    if i < q.len() {
                        assert(self.event_queue@[i] == q[i]);
                    }
                }
            }
        }
        None
    }
}


/// Evdev key code of F
pub const KEY_F: u16 = 33;

/// Evdev key code of J
pub const KEY_J: u16 = 36;

/// Evdev code of the left mouse button
pub const BTN_LEFT: u16 = 0x110;

/// Evdev code of the joystick trigger
pub const BTN_TRIGGER: u16 = 0x120;

/// Node type of an evdev device from the key codes it can send: a keyboard has F or J, a
/// mouse a left button, a joystick a trigger (checked in that order); `None` for any
/// other device.
pub fn device_type(keys: &Vec<u16>) -> (r: Option<NodeType>)
    ensures
        r == if keys@.contains(KEY_F) || keys@.contains(KEY_J) {
            Some(NodeType::HidKeyboard)
        } else if keys@.contains(BTN_LEFT) {
            Some(NodeType::HidMouse)
        } else if keys@.contains(BTN_TRIGGER) {
            Some(NodeType::HidJoystick)
        } else {
            None::<NodeType>
        },
{
    if has_key(keys, KEY_F) || has_key(keys, KEY_J) {
        Some(NodeType::HidKeyboard)
    } else if has_key(keys, BTN_LEFT) {
        Some(NodeType::HidMouse)
    } else if has_key(keys, BTN_TRIGGER) {
        Some(NodeType::HidJoystick)
    } else {
        None
    }
}

fn has_key(keys: &Vec<u16>, k: u16) -> (r: bool)
    ensures
        r == keys@.contains(k),
{
    let mut i: usize = 0;
    while i < keys.len()
        invariant
            i <= keys@.len(),
            forall|j: int| 0 <= j < i ==> keys@[j] != k,
        decreases keys@.len() - i,
    {
        if keys[i] == k {
            assert(keys@[i as int] == k);
            return true;
        }
        i = i + 1;
    }
    false
}


/// Size of a raw evdev input event on 64-bit Linux: a time value (16 bytes), then the
/// type and code (2 bytes each) and the value (4 bytes), little-endian
pub const INPUT_EVENT_SIZE: usize = 24;

/// Little-endian value of two bytes.
pub open spec fn le_u16(b0: u8, b1: u8) -> u16 {
    (b0 + 256 * b1) as u16
}

/// Little-endian value of four bytes.
pub open spec fn le_u32(b0: u8, b1: u8, b2: u8, b3: u8) -> u32 {
    (b0 + 256 * b1 + 65536 * b2 + 16777216 * b3) as u32
}

/// The event a raw input event stands for: type 0 (EV_SYN) with code 0 is a report and
/// with code 3 a lost-events marker, type 1 (EV_KEY) a key event, anything else other.
pub open spec fn spec_decode_input_event(raw: Seq<u8>) -> EvInputEvent {
    let t = le_u16(raw[16], raw[17]);
    let c = le_u16(raw[18], raw[19]);
    let code = if t == 0 && c == 0 {
        EvEventCode::SynReport
    } else if t == 0 && c == 3 {
        EvEventCode::SynDropped
    } else if t == 1 {
        EvEventCode::Key(c)
    } else {
        EvEventCode::Other(t, c)
    };
    EvInputEvent { code, value: le_u32(raw[20], raw[21], raw[22], raw[23]) as i32 }
}

/// Decodes a raw input event read from an evdev device file.
pub fn decode_input_event(raw: &Vec<u8>) -> (r: EvInputEvent)
    requires
        raw@.len() >= INPUT_EVENT_SIZE,
    ensures
        r == spec_decode_input_event(raw@),
{
    let t: u16 = (raw[16] as u16) + 256 * (raw[17] as u16);
    let c: u16 = (raw[18] as u16) + 256 * (raw[19] as u16);
    let v: u32 = (raw[20] as u32) + 256 * (raw[21] as u32) + 65536 * (raw[22] as u32) + 16777216 * (raw[23] as u32);
    let code = if t == 0 && c == 0 {
        EvEventCode::SynReport
    } else if t == 0 && c == 3 {
        EvEventCode::SynDropped
    } else if t == 1 {
        EvEventCode::Key(c)
    } else {
        EvEventCode::Other(t, c)
    };
    EvInputEvent { code, value: v as i32 }
}


/// Linux key codes of the letters A to Z, in alphabetical order (input-event-codes.h:
/// KEY_A is 30, KEY_B 48, ..., KEY_Z 44; the codes follow the QWERTY rows).
pub open spec fn letter_key_codes() -> Seq<u16> {
    seq![30, 48, 46, 32, 18, 33, 34, 35, 23, 36, 37, 38, 50, 49, 24, 25, 16, 19, 31, 20, 22, 47, 17, 45, 21, 44]
}

/// Each letter key is sent as its keyboard usage: the HID usages of the letters run from
/// 0x04 (a) to 0x1D (z) in alphabetical order, so the `i`-th letter's key gives `0x04 + i`.
pub proof fn lemma_letter_keys_give_letter_usages()
    ensures
        forall|i: int| 0 <= i < 26 ==> evdev_hid_code(#[trigger] letter_key_codes()[i]) == Some((HidCommand::HidKeyboard, (0x04 + i) as u16)),
{
    let l = letter_key_codes();
    assert forall|i: int| 0 <= i < 26 implies evdev_hid_code(#[trigger] l[i]) == Some((HidCommand::HidKeyboard, (0x04 + i) as u16)) by {
        assert(l[0] == 30 && l[1] == 48 && l[2] == 46 && l[3] == 32 && l[4] == 18 && l[5] == 33 && l[6] == 34);
        assert(l[7] == 35 && l[8] == 23 && l[9] == 36 && l[10] == 37 && l[11] == 38 && l[12] == 50 && l[13] == 49);
        assert(l[14] == 24 && l[15] == 25 && l[16] == 16 && l[17] == 19 && l[18] == 31 && l[19] == 20);
        assert(l[20] == 22 && l[21] == 47 && l[22] == 17 && l[23] == 45 && l[24] == 21 && l[25] == 44);
    }
}

/// The digit row is sent as the digit usages: KEY_1 to KEY_9 (2 to 10) give 0x1E to 0x26,
/// KEY_0 (11) gives 0x27.
pub proof fn lemma_digit_keys_give_digit_usages()
    ensures
        forall|k: u16| 2 <= k <= 11 ==> #[trigger] evdev_hid_code(k) == Some((HidCommand::HidKeyboard, (0x1E + k - 2) as u16)),
{
}

/// The function keys are sent as the function key usages: F1 to F10 (59 to 68) give 0x3A to
/// 0x43, F11 (87) and F12 (88) give 0x44 and 0x45.
pub proof fn lemma_function_keys_give_function_usages()
    ensures
        forall|k: u16| 59 <= k <= 68 ==> #[trigger] evdev_hid_code(k) == Some((HidCommand::HidKeyboard, (0x3A + k - 59) as u16)),
        evdev_hid_code(87) == Some((HidCommand::HidKeyboard, 0x44u16)),
        evdev_hid_code(88) == Some((HidCommand::HidKeyboard, 0x45u16)),
{
}

} // verus!
