use vstd::prelude::*;
use crate::api::{Endpoint, EndpointModel, HidApiInfo, NodeType, hidapi_key, endpoint_name, endpoint_serial};
use crate::mailbox::{Mailbox, reusable_uid, spec_assign, uids_of};
use crate::text::{hex4, hex_digits, signed_dec_digits, push_hex, push_hex_padded, push_signed_dec};

verus! {

/// Usage page of HID-IO interfaces
pub const USAGE_PAGE: u16 = 0xFF1C;

/// Usage of HID-IO interfaces
pub const USAGE: u16 = 0x1100;

/// Whether an interface speaks HID-IO: its usage page and usage are those of HID-IO.
pub open spec fn match_device_spec(usage_page: u16, usage: u16) -> bool {
    usage_page == USAGE_PAGE && usage == USAGE
}

/// Whether an interface speaks HID-IO (matched by usage page and usage).
pub fn match_device(usage_page: u16, usage: u16) -> (r: bool)
    ensures
        r == match_device_spec(usage_page, usage),
{
    usage_page == USAGE_PAGE && usage == USAGE
}

/// Display name of a hidapi device:
/// `[vid:pid-usage_page:usage] I:<interface> ` then the manufacturer, ` <product>`
/// and ` (<serial>)`, each only when present.
pub open spec fn spec_device_name(
    vendor_id: u16,
    product_id: u16,
    usage_page: u16,
    usage: u16,
    interface_number: i32,
    manufacturer: Option<Seq<char>>,
    product: Option<Seq<char>>,
    serial: Option<Seq<char>>,
) -> Seq<char> {
    "["@ + hex4(vendor_id as nat) + ":"@ + hex4(product_id as nat) + "-"@ + hex_digits(usage_page as nat)
        + ":"@ + hex_digits(usage as nat) + "] I:"@ + signed_dec_digits(interface_number as int) + " "@
        + match manufacturer {
        Some(m) => m,
        None => Seq::empty(),
    } + match product {
        Some(p) => " "@ + p,
        None => Seq::empty(),
    } + match serial {
        Some(s) => " ("@ + s + ")"@,
        None => Seq::empty(),
    }
}

/// Optional string's view.
pub open spec fn opt_view(o: Option<String>) -> Option<Seq<char>> {
    match o {
        Some(s) => Some(s@),
        None => None,
    }
}

/// Builds the display name of a hidapi device.
pub fn device_name(
    vendor_id: u16,
    product_id: u16,
    usage_page: u16,
    usage: u16,
    interface_number: i32,
    manufacturer: Option<String>,
    product: Option<String>,
    serial: Option<String>,
) -> (r: String)
    ensures
        r@ == spec_device_name(
            vendor_id,
            product_id,
            usage_page,
            usage,
            interface_number,
            opt_view(manufacturer),
            opt_view(product),
            opt_view(serial),
        ),
{
    let mut s = String::from_str("[");
    push_hex_padded(&mut s, vendor_id as u64, 4);
    s.append(":");
    push_hex_padded(&mut s, product_id as u64, 4);
    s.append("-");
    push_hex(&mut s, usage_page as u64);
    s.append(":");
    push_hex(&mut s, usage as u64);
    s.append("] I:");
    push_signed_dec(&mut s, interface_number as i64);
    s.append(" ");
    let ghost head = s@;
    match &manufacturer {
        Some(m) => s.append(m.as_str()),
        None => {},
    }
    let ghost with_m = s@;
    match &product {
        Some(p) => {
            s.append(" ");
            s.append(p.as_str());
        },
        None => {},
    }
    let ghost with_p = s@;
    match &serial {
        Some(x) => {
            s.append(" (");
            s.append(x.as_str());
            s.append(")");
        },
        None => {},
    }
    assert(s@ =~= spec_device_name(
        vendor_id,
        product_id,
        usage_page,
        usage,
        interface_number,
        opt_view(manufacturer),
        opt_view(product),
        opt_view(serial),
    ));
    s
}

/// Hexadecimal digit, either case.
pub open spec fn is_hex_char(c: char) -> bool {
    ('0' <= c && c <= '9') || ('a' <= c && c <= 'f') || ('A' <= c && c <= 'F')
}

/// `s` holds a MAC address (six hex pairs separated by ':') starting at `i`.
pub open spec fn mac_at(s: Seq<char>, i: int) -> bool {
    &&& 0 <= i
    &&& i + 17 <= s.len()
    &&& forall|k: int|
        0 <= k < 6 ==> #[trigger] is_hex_char(s[i + 3 * k]) && is_hex_char(s[i + 3 * k + 1])
    &&& forall|k: int| 0 <= k < 5 ==> #[trigger] s[i + 3 * k + 2] == ':'
}

/// `s` contains a MAC address somewhere.
pub open spec fn contains_mac(s: Seq<char>) -> bool {
    exists|i: int| mac_at(s, i)
}

/// The regular expression of a MAC address (the serial number of bluetooth devices).
pub open spec fn mac_pattern() -> Seq<char> {
    "([0-9a-fA-F][0-9a-fA-F]:){5}([0-9a-fA-F][0-9a-fA-F])"@
}

/// Whether `pattern` matches somewhere in `s`, as the regex crate decides it; `None`
/// when the pattern does not compile.
pub uninterp spec fn regex_search(pattern: Seq<char>, s: Seq<char>) -> Option<bool>;

/// Compiles `pattern` with `regex::Regex::new` and tests it on `s` with
/// `Regex::is_match` (a match anywhere in `s`). The result is named `regex_search`;
/// for the MAC address pattern it is stated: a match of six hex pairs separated by ':'.
#[verifier::external_body]
fn regex_is_match(pattern: &str, s: &str) -> (r: Option<bool>)
    ensures
        r == regex_search(pattern@, s@),
        pattern@ == mac_pattern() ==> r == Some(contains_mac(s@)),
{
    match regex::Regex::new(pattern) {
        Ok(re) => Some(re.is_match(s)),
        Err(_) => None,
    }
}

/// Node type of a hidapi keyboard: bluetooth when its serial number holds a MAC
/// address, USB otherwise (a missing serial counts as empty).
pub fn keyboard_node_type(serial: Option<&str>) -> (r: NodeType)
    ensures
        r == (if contains_mac(match serial {
            Some(s) => s@,
            None => Seq::<char>::empty(),
        }) {
            NodeType::BleKeyboard
        } else {
            NodeType::UsbKeyboard
        }),
{
    let s = match serial {
        Some(s) => s,
        None => "",
    };
    proof {
        reveal_strlit("");
    }
    let pattern = "([0-9a-fA-F][0-9a-fA-F]:){5}([0-9a-fA-F][0-9a-fA-F])";
    assert(pattern@ == mac_pattern());
    match regex_is_match(pattern, s) {
        Some(true) => NodeType::BleKeyboard,
        _ => NodeType::UsbKeyboard,
    }
}

/// Target platform of a hidapi write (the platforms differ in which first report
/// byte they drop).
#[derive(PartialEq, Eq, Structural, Clone, Copy, Debug)]
pub enum Platform {
    /// Linux and macOS: a first byte of 0 is not transmitted
    LinuxOrMacos,
    /// Windows: the first byte is always stripped
    Windows,
    /// Any other platform: nothing is stripped
    Other,
}

/// Whether a report id byte (0) is put in front of a write.
pub open spec fn needs_report_id(buf: Seq<u8>, platform: Platform) -> bool {
    match platform {
        Platform::LinuxOrMacos => buf[0] == 0,
        Platform::Windows => true,
        Platform::Other => false,
    }
}

/// The bytes handed to hidapi for a write: an unused report id (0) is put in front
/// when the platform would otherwise drop the packet's first byte.
pub fn report_buffer(buf: &[u8], platform: Platform) -> (r: Vec<u8>)
    requires
        platform == Platform::LinuxOrMacos ==> buf@.len() > 0,
    ensures
        r@ == if needs_report_id(buf@, platform) {
            seq![0u8] + buf@
        } else {
            buf@
        },
{
    let prepend = match platform {
        Platform::LinuxOrMacos => buf[0] == 0x00,
        Platform::Windows => true,
        Platform::Other => false,
    };
    let mut out: Vec<u8> = Vec::new();
    if prepend {
        out.push(0);
    }
    let ghost head = out@;
    let mut i: usize = 0;
    while i < buf.len()
        invariant
            i <= buf@.len(),
            out@ == head + buf@.take(i as int),
        decreases buf@.len() - i,
    {
        out.push(buf[i]);
        i = i + 1;
        assert(buf@.take(i as int) =~= buf@.take(i - 1 as int).push(buf@[i - 1]));
    }
    assert(buf@.take(buf@.len() as int) =~= buf@);
    assert(out@ =~= if prepend { seq![0u8] + buf@ } else { buf@ });
    out
}


/// Whether `uids` holds `uid`.
fn contains_uid(uids: &Vec<u64>, uid: u64) -> (r: bool)
    ensures
        r == uids@.contains(uid),
{
    let mut i: usize = 0;
    while i < uids.len()
        invariant
            i <= uids@.len(),
            forall|j: int| 0 <= j < i ==> uids@[j] != uid,
        decreases uids@.len() - i,
    {
        if uids[i] == uid {
            assert(uids@[i as int] == uid);
            return true;
        }
        i = i + 1;
    }
    false
}

/// Decides what a device scan does with one device found: devices that do not speak
/// HID-IO are skipped; the others are given a uid for their key and path (a device that
/// is already registered is skipped). A device whose uid is not being served yet (not in
/// `active`) gets the node to connect: a bluetooth keyboard when its serial number holds
/// a MAC address, a USB keyboard otherwise.
pub fn scan_device(mailbox: &mut Mailbox, info: HidApiInfo, active: &Vec<u64>) -> (r: Option<Endpoint>)
    requires
        match_device_spec(info.usage_page, info.usage) && reusable_uid(
            old(mailbox).nodes@,
            uids_of(old(mailbox).lookup@, hidapi_key(info)),
            info.path@,
        ) is None ==> old(mailbox).last_uid < u64::MAX,
    ensures
        !match_device_spec(info.usage_page, info.usage) ==> r is None && final(mailbox).nodes@ == old(mailbox).nodes@
            && final(mailbox).last_uid == old(mailbox).last_uid && final(mailbox).lookup@ == old(mailbox).lookup@,
        match_device_spec(info.usage_page, info.usage) ==> {
            let cands = uids_of(old(mailbox).lookup@, hidapi_key(info));
            &&& final(mailbox).nodes@ == old(mailbox).nodes@
            &&& reusable_uid(old(mailbox).nodes@, cands, info.path@) is None ==> {
                &&& final(mailbox).last_uid == old(mailbox).last_uid + 1
                &&& uids_of(final(mailbox).lookup@, hidapi_key(info)) == cands.push(final(mailbox).last_uid)
                &&& forall|k: Seq<char>| k != hidapi_key(info) ==> uids_of(final(mailbox).lookup@, k) == uids_of(old(mailbox).lookup@, k)
            }
            &&& reusable_uid(old(mailbox).nodes@, cands, info.path@) is Some ==> {
                &&& final(mailbox).last_uid == old(mailbox).last_uid
                &&& forall|k: Seq<char>| uids_of(final(mailbox).lookup@, k) == uids_of(old(mailbox).lookup@, k)
            }
            &&& match spec_assign(old(mailbox).nodes@, cands, info.path@, old(mailbox).last_uid) {
                Err(_) => r is None,
                Ok(uid) => if active@.contains(uid) {
                    r is None
                } else {
                    r matches Some(e) && e@.uid == uid && e@.hidapi == info
                        && e@.type_ == (if contains_mac(info.serial_number@) {
                            NodeType::BleKeyboard
                        } else {
                            NodeType::UsbKeyboard
                        })
                        && e@.name == endpoint_name(e@) && e@.serial == endpoint_serial(e@)
                },
            }
        },
{
    if !match_device(info.usage_page, info.usage) {
        return None;
    }
    let mut info = info;
    let key = info.key();
    let path = info.path.clone();
    let uid = match mailbox.assign_uid(key, path) {
        Ok(uid) => uid,
        Err(_) => {
            return None;
        },
    };
    if contains_uid(active, uid) {
        return None;
    }
    let node_type = keyboard_node_type(Some(info.serial_number.as_str()));
    let mut node = Endpoint::new(node_type, uid);
    node.set_hidapi_params(info);
    Some(node)
}

} // verus!
