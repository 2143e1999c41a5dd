use vstd::prelude::*;
use crate::text::{hex4, hex_digits, dec_digits, signed_dec_digits, push_hex, push_hex_padded, push_dec, push_signed_dec};

/// Decisions of the api subscriptions (which messages a subscriber is sent)
pub mod subscriptions;

verus! {

/// A point in time, as the standard library's monotonic clock gives it.
#[verifier::external_type_specification]
#[verifier::external_body]
pub struct ExInstant(std::time::Instant);

/// `Instant` is `Copy`: its clone is the same point in time.
pub assume_specification[ <std::time::Instant as Clone>::clone ](i: &std::time::Instant) -> (r: std::time::Instant)
    ensures
        r == *i,
;

/// Current time of the monotonic clock (`std::time::Instant::now`); nothing is
/// stated about the value.
#[verifier::external_body]
fn instant_now() -> std::time::Instant {
    std::time::Instant::now()
}

/// Authorization level for a remote node
#[derive(PartialEq, Eq, Structural, Clone, Copy, Debug)]
pub enum AuthLevel {
    /// Allows connecting and listing devices
    Basic,
    /// Allows sending commands to a device
    Secure,
    /// Allows inspecting all incoming packets
    Debug,
}

/// Kind of a node known to the daemon
#[derive(PartialEq, Eq, Structural, Clone, Copy, Debug)]
pub enum NodeType {
    HidioDaemon,
    HidioApi,
    UsbKeyboard,
    BleKeyboard,
    HidKeyboard,
    HidMouse,
    HidJoystick,
    Unknown,
}

/// Display name of a node type.
pub open spec fn node_type_name(t: NodeType) -> Seq<char> {
    match t {
        NodeType::HidioDaemon => "HidioDaemon"@,
        NodeType::HidioApi => "HidioApi"@,
        NodeType::UsbKeyboard => "UsbKeyboard"@,
        NodeType::BleKeyboard => "BleKeyboard"@,
        NodeType::HidKeyboard => "HidKeyboard"@,
        NodeType::HidMouse => "HidMouse"@,
        NodeType::HidJoystick => "HidJoystick"@,
        NodeType::Unknown => "Unknown"@,
    }
}

impl NodeType {
    /// Display name of the node type.
    pub fn to_string(&self) -> (r: String)
        ensures
            r@ == node_type_name(*self),
    {
        let s = match self {
            NodeType::HidioDaemon => "HidioDaemon",
            NodeType::HidioApi => "HidioApi",
            NodeType::UsbKeyboard => "UsbKeyboard",
            NodeType::BleKeyboard => "BleKeyboard",
            NodeType::HidKeyboard => "HidKeyboard",
            NodeType::HidMouse => "HidMouse",
            NodeType::HidJoystick => "HidJoystick",
            NodeType::Unknown => "Unknown",
        };
        String::from_str(s)
    }
}

/// Uhid Information (virtual HID devices on Linux)
#[derive(Debug, Clone)]
pub struct UhidInfo {
    pub name: String,
    pub phys: String,
    pub uniq: String,
    pub bus: u16,
    pub vendor: u32,
    pub product: u32,
    pub version: u32,
    pub country: u32,
}

/// Evdev Information (input devices on Linux)
#[derive(Debug, Clone)]
pub struct EvdevInfo {
    pub name: String,
    pub phys: String,
    pub uniq: String,
    pub product_id: u16,
    pub vendor_id: u16,
    pub bustype: u16,
    pub version: u16,
    pub driver_version: i32,
}

/// HidApi Information
#[derive(Debug, Clone)]
pub struct HidApiInfo {
    pub path: String,
    pub vendor_id: u16,
    pub product_id: u16,
    pub serial_number: String,
    pub release_number: u16,
    pub manufacturer_string: String,
    pub product_string: String,
    pub usage_page: u16,
    pub usage: u16,
    pub interface_number: i32,
}

/// Unique key of a uhid device (its location is not part of it).
pub open spec fn uhid_key(i: UhidInfo) -> Seq<char> {
    "vendor:"@ + hex4(i.vendor as nat) + " product:"@ + hex4(i.product as nat) + " name:"@ + i.name@
        + " uniq:"@ + i.uniq@ + " bus:"@ + dec_digits(i.bus as nat)
        + " version:"@ + dec_digits(i.version as nat) + " country:"@ + dec_digits(i.country as nat)
}

/// Unique key of an evdev device (its location is not part of it).
pub open spec fn evdev_key(i: EvdevInfo) -> Seq<char> {
    "vid:"@ + hex4(i.vendor_id as nat) + " pid:"@ + hex4(i.product_id as nat) + " name:"@ + i.name@
        + " uniq:"@ + i.uniq@ + " bus:"@ + dec_digits(i.bustype as nat)
        + " version:"@ + dec_digits(i.version as nat) + " driver_version:"@ + signed_dec_digits(
        i.driver_version as int,
    )
}

/// Unique key of a hidapi device (its path is not part of it).
pub open spec fn hidapi_key(i: HidApiInfo) -> Seq<char> {
    "vid:"@ + hex4(i.vendor_id as nat) + " pid:"@ + hex4(i.product_id as nat) + " serial:"@
        + i.serial_number@ + " manufacturer:"@ + i.manufacturer_string@ + " product:"@
        + i.product_string@ + " usage_page:"@ + hex_digits(i.usage_page as nat) + " usage:"@
        + hex_digits(i.usage as nat) + " interface:"@ + signed_dec_digits(i.interface_number as int)
}

proof fn lemma_middle_determined(p: Seq<char>, u: Seq<char>, v: Seq<char>, q: Seq<char>)
    requires
        p + u + q == p + v + q,
    ensures
        u == v,
{
    let a = p + u + q;
    let b = p + v + q;
    assert(a.len() == b.len());
    assert(u.len() == v.len());
    assert(u =~= a.subrange(p.len() as int, (p.len() + u.len()) as int));
    assert(v =~= b.subrange(p.len() as int, (p.len() + v.len()) as int));
}

/// Two evdev devices that differ only in their unique id have different keys: the key
/// tells devices apart by their unique id.
pub proof fn lemma_evdev_key_tells_uniq(a: EvdevInfo, b: EvdevInfo)
    requires
        a.name@ == b.name@,
        a.vendor_id == b.vendor_id,
        a.product_id == b.product_id,
        a.bustype == b.bustype,
        a.version == b.version,
        a.driver_version == b.driver_version,
    ensures
        evdev_key(a) == evdev_key(b) <==> a.uniq@ == b.uniq@,
{
    let p = "vid:"@ + hex4(a.vendor_id as nat) + " pid:"@ + hex4(a.product_id as nat) + " name:"@ + a.name@ + " uniq:"@;
    let q = " bus:"@ + dec_digits(a.bustype as nat) + " version:"@ + dec_digits(a.version as nat) + " driver_version:"@
        + signed_dec_digits(a.driver_version as int);
    assert(evdev_key(a) =~= p + a.uniq@ + q);
    assert(evdev_key(b) =~= p + b.uniq@ + q);
    if evdev_key(a) == evdev_key(b) {
        lemma_middle_determined(p, a.uniq@, b.uniq@, q);
    }
}

/// Two uhid devices that differ only in their unique id have different keys.
pub proof fn lemma_uhid_key_tells_uniq(a: UhidInfo, b: UhidInfo)
    requires
        a.name@ == b.name@,
        a.vendor == b.vendor,
        a.product == b.product,
        a.bus == b.bus,
        a.version == b.version,
        a.country == b.country,
    ensures
        uhid_key(a) == uhid_key(b) <==> a.uniq@ == b.uniq@,
{
    let p = "vendor:"@ + hex4(a.vendor as nat) + " product:"@ + hex4(a.product as nat) + " name:"@ + a.name@ + " uniq:"@;
    let q = " bus:"@ + dec_digits(a.bus as nat) + " version:"@ + dec_digits(a.version as nat) + " country:"@ + dec_digits(
        a.country as nat,
    );
    assert(uhid_key(a) =~= p + a.uniq@ + q);
    assert(uhid_key(b) =~= p + b.uniq@ + q);
    if uhid_key(a) == uhid_key(b) {
        lemma_middle_determined(p, a.uniq@, b.uniq@, q);
    }
}

impl Default for UhidInfo {
    fn default() -> (r: UhidInfo)
        ensures
            r.name@ == Seq::<char>::empty(),
            r.phys@ == Seq::<char>::empty(),
            r.uniq@ == Seq::<char>::empty(),
            r.bus == 0 && r.vendor == 0 && r.product == 0 && r.version == 0 && r.country == 0,
    {
        UhidInfo {
            name: String::new(),
            phys: String::new(),
            uniq: String::new(),
            bus: 0,
            vendor: 0,
            product: 0,
            version: 0,
            country: 0,
        }
    }
}

impl Default for EvdevInfo {
    fn default() -> (r: EvdevInfo)
        ensures
            r.name@ == Seq::<char>::empty(),
            r.phys@ == Seq::<char>::empty(),
            r.uniq@ == Seq::<char>::empty(),
            r.product_id == 0 && r.vendor_id == 0 && r.bustype == 0 && r.version == 0
                && r.driver_version == 0,
    {
        EvdevInfo {
            name: String::new(),
            phys: String::new(),
            uniq: String::new(),
            product_id: 0,
            vendor_id: 0,
            bustype: 0,
            version: 0,
            driver_version: 0,
        }
    }
}

impl Default for HidApiInfo {
    fn default() -> (r: HidApiInfo)
        ensures
            r.path@ == Seq::<char>::empty(),
            r.serial_number@ == Seq::<char>::empty(),
            r.manufacturer_string@ == Seq::<char>::empty(),
            r.product_string@ == Seq::<char>::empty(),
            r.vendor_id == 0 && r.product_id == 0 && r.release_number == 0 && r.usage_page == 0
                && r.usage == 0 && r.interface_number == 0,
    {
        HidApiInfo {
            path: String::new(),
            vendor_id: 0,
            product_id: 0,
            serial_number: String::new(),
            release_number: 0,
            manufacturer_string: String::new(),
            product_string: String::new(),
            usage_page: 0,
            usage: 0,
            interface_number: 0,
        }
    }
}

impl UhidInfo {
    /// Generates a unique string from the uhid information (excluding path/physical location).
    pub fn key(&mut self) -> (r: String)
        ensures
            *final(self) == *old(self),
            r@ == uhid_key(*old(self)),
    {
        let mut s = String::new();
        s.append("vendor:");
        push_hex_padded(&mut s, self.vendor as u64, 4);
        s.append(" product:");
        push_hex_padded(&mut s, self.product as u64, 4);
        s.append(" name:");
        s.append(self.name.as_str());
        s.append(" uniq:");
        s.append(self.uniq.as_str());
        s.append(" bus:");
        push_dec(&mut s, self.bus as u64);
        s.append(" version:");
        push_dec(&mut s, self.version as u64);
        s.append(" country:");
        push_dec(&mut s, self.country as u64);
        assert(s@ =~= uhid_key(*self));
        s
    }
}

impl EvdevInfo {
    /// Generates a unique string from the evdev information (excluding path/physical location).
    pub fn key(&mut self) -> (r: String)
        ensures
            *final(self) == *old(self),
            r@ == evdev_key(*old(self)),
    {
        let mut s = String::new();
        s.append("vid:");
        push_hex_padded(&mut s, self.vendor_id as u64, 4);
        s.append(" pid:");
        push_hex_padded(&mut s, self.product_id as u64, 4);
        s.append(" name:");
        s.append(self.name.as_str());
        s.append(" uniq:");
        s.append(self.uniq.as_str());
        s.append(" bus:");
        push_dec(&mut s, self.bustype as u64);
        s.append(" version:");
        push_dec(&mut s, self.version as u64);
        s.append(" driver_version:");
        push_signed_dec(&mut s, self.driver_version as i64);
        assert(s@ =~= evdev_key(*self));
        s
    }
}

impl HidApiInfo {
    /// Builds the information of a hidapi device; strings the device does not report
    /// are replaced by `<Serial Unset>`, `<Manufacturer Unset>` and `<Product Unset>`.
    pub fn new(
        path: String,
        vendor_id: u16,
        product_id: u16,
        serial_number: Option<String>,
        release_number: u16,
        manufacturer_string: Option<String>,
        product_string: Option<String>,
        usage_page: u16,
        usage: u16,
        interface_number: i32,
    ) -> (r: HidApiInfo)
        ensures
            r.path@ == path@,
            r.vendor_id == vendor_id,
            r.product_id == product_id,
            r.serial_number@ == match serial_number {
                Some(s) => s@,
                None => "<Serial Unset>"@,
            },
            r.release_number == release_number,
            r.manufacturer_string@ == match manufacturer_string {
                Some(s) => s@,
                None => "<Manufacturer Unset>"@,
            },
            r.product_string@ == match product_string {
                Some(s) => s@,
                None => "<Product Unset>"@,
            },
            r.usage_page == usage_page,
            r.usage == usage,
            r.interface_number == interface_number,
    {
        HidApiInfo {
            path,
            vendor_id,
            product_id,
            serial_number: match serial_number {
                Some(s) => s,
                None => String::from_str("<Serial Unset>"),
            },
            release_number,
            manufacturer_string: match manufacturer_string {
                Some(s) => s,
                None => String::from_str("<Manufacturer Unset>"),
            },
            product_string: match product_string {
                Some(s) => s,
                None => String::from_str("<Product Unset>"),
            },
            usage_page,
            usage,
            interface_number,
        }
    }

    /// Generates a unique string from the hidapi information (excluding path/physical location).
    pub fn key(&mut self) -> (r: String)
        ensures
            *final(self) == *old(self),
            r@ == hidapi_key(*old(self)),
    {
        let mut s = String::new();
        s.append("vid:");
        push_hex_padded(&mut s, self.vendor_id as u64, 4);
        s.append(" pid:");
        push_hex_padded(&mut s, self.product_id as u64, 4);
        s.append(" serial:");
        s.append(self.serial_number.as_str());
        s.append(" manufacturer:");
        s.append(self.manufacturer_string.as_str());
        s.append(" product:");
        s.append(self.product_string.as_str());
        s.append(" usage_page:");
        push_hex(&mut s, self.usage_page as u64);
        s.append(" usage:");
        push_hex(&mut s, self.usage as u64);
        s.append(" interface:");
        push_signed_dec(&mut s, self.interface_number as i64);
        assert(s@ =~= hidapi_key(*self));
        s
    }
}


/// Information about a connected node
#[derive(Debug, Clone)]
pub struct Endpoint {
    type_: NodeType,
    name: String,
    serial: String,
    pub uid: u64,
    created: std::time::Instant,
    hidapi: HidApiInfo,
    evdev: EvdevInfo,
    uhid: UhidInfo,
}

/// Mathematical model of an endpoint.
pub struct EndpointModel {
    pub type_: NodeType,
    pub name: Seq<char>,
    pub serial: Seq<char>,
    pub uid: u64,
    pub created: std::time::Instant,
    pub hidapi: HidApiInfo,
    pub evdev: EvdevInfo,
    pub uhid: UhidInfo,
}

impl View for Endpoint {
    type V = EndpointModel;

    closed spec fn view(&self) -> EndpointModel {
        EndpointModel {
            type_: self.type_,
            name: self.name@,
            serial: self.serial@,
            uid: self.uid,
            created: self.created,
            hidapi: self.hidapi,
            evdev: self.evdev,
            uhid: self.uhid,
        }
    }
}

/// Whether a node is a hidapi-backed keyboard (its name, serial and key come from hidapi).
pub open spec fn is_hidapi_type(t: NodeType) -> bool {
    t == NodeType::BleKeyboard || t == NodeType::UsbKeyboard
}

/// `[vid:pid-usage_page:usage]` of a hidapi device.
pub open spec fn hidapi_ids(h: HidApiInfo) -> Seq<char> {
    "["@ + hex4(h.vendor_id as nat) + ":"@ + hex4(h.product_id as nat) + "-"@ + hex_digits(
        h.usage_page as nat,
    ) + ":"@ + hex_digits(h.usage as nat) + "]"@
}

/// Name of a node: built from the hidapi information for hidapi keyboards, the stored
/// name otherwise.
pub open spec fn endpoint_name(e: EndpointModel) -> Seq<char> {
    match e.type_ {
        NodeType::BleKeyboard => hidapi_ids(e.hidapi) + " "@ + e.hidapi.product_string@,
        NodeType::UsbKeyboard => hidapi_ids(e.hidapi) + " ["@ + e.hidapi.manufacturer_string@
            + "] "@ + e.hidapi.product_string@,
        _ => e.name,
    }
}

/// Serial of a node: the hidapi serial number for hidapi keyboards, the stored serial otherwise.
pub open spec fn endpoint_serial(e: EndpointModel) -> Seq<char> {
    if is_hidapi_type(e.type_) {
        e.hidapi.serial_number@
    } else {
        e.serial
    }
}

/// Unique key of a node (path and release number are not part of it).
pub open spec fn endpoint_key(e: EndpointModel) -> Seq<char> {
    if is_hidapi_type(e.type_) {
        hidapi_key(e.hidapi)
    } else {
        "name:"@ + e.name + " serial:"@ + e.serial
    }
}

/// Display form of a node: `id:<uid> <description> <serial>`.
pub open spec fn endpoint_display(e: EndpointModel) -> Seq<char> {
    "id:"@ + dec_digits(e.uid as nat) + " "@ + match e.type_ {
        NodeType::BleKeyboard => "BLE "@ + endpoint_name(e),
        NodeType::UsbKeyboard => "USB "@ + endpoint_name(e),
        _ => e.name,
    } + " "@ + endpoint_serial(e)
}

fn push_hidapi_ids(s: &mut String, h: &HidApiInfo)
    ensures
        final(s)@ == old(s)@ + hidapi_ids(*h),
{
    s.append("[");
    push_hex_padded(s, h.vendor_id as u64, 4);
    s.append(":");
    push_hex_padded(s, h.product_id as u64, 4);
    s.append("-");
    push_hex(s, h.usage_page as u64);
    s.append(":");
    push_hex(s, h.usage as u64);
    s.append("]");
    assert(s@ =~= old(s)@ + hidapi_ids(*h));
}

/// A field-by-field copy of a uhid description.
pub(crate) fn duplicate_uhid(i: &UhidInfo) -> (r: UhidInfo)
    ensures
        r == *i,
{
    UhidInfo {
        name: i.name.clone(),
        phys: i.phys.clone(),
        uniq: i.uniq.clone(),
        bus: i.bus,
        vendor: i.vendor,
        product: i.product,
        version: i.version,
        country: i.country,
    }
}

/// A field-by-field copy of an evdev description.
pub(crate) fn duplicate_evdev(i: &EvdevInfo) -> (r: EvdevInfo)
    ensures
        r == *i,
{
    EvdevInfo {
        name: i.name.clone(),
        phys: i.phys.clone(),
        uniq: i.uniq.clone(),
        product_id: i.product_id,
        vendor_id: i.vendor_id,
        bustype: i.bustype,
        version: i.version,
        driver_version: i.driver_version,
    }
}

/// A field-by-field copy of a hidapi description.
pub(crate) fn duplicate_hidapi(i: &HidApiInfo) -> (r: HidApiInfo)
    ensures
        r == *i,
{
    HidApiInfo {
        path: i.path.clone(),
        vendor_id: i.vendor_id,
        product_id: i.product_id,
        serial_number: i.serial_number.clone(),
        release_number: i.release_number,
        manufacturer_string: i.manufacturer_string.clone(),
        product_string: i.product_string.clone(),
        usage_page: i.usage_page,
        usage: i.usage,
        interface_number: i.interface_number,
    }
}

impl Endpoint {
    /// A field-by-field copy of the node.
    pub(crate) fn duplicate(&self) -> (r: Endpoint)
        ensures
            r@ == self@,
    {
        Endpoint {
            type_: self.type_,
            name: self.name.clone(),
            serial: self.serial.clone(),
            uid: self.uid,
            created: self.created.clone(),
            hidapi: duplicate_hidapi(&self.hidapi),
            evdev: duplicate_evdev(&self.evdev),
            uhid: duplicate_uhid(&self.uhid),
        }
    }
}

impl Endpoint {
    /// Creates a node of the given type and uid, with empty name, serial and device information.
    pub fn new(type_: NodeType, uid: u64) -> (r: Endpoint)
        ensures
            r@.type_ == type_,
            r@.uid == uid,
            r@.name == Seq::<char>::empty(),
            r@.serial == Seq::<char>::empty(),
            r@.hidapi.path@ == Seq::<char>::empty(),
            r@.hidapi.serial_number@ == Seq::<char>::empty(),
            r@.hidapi.manufacturer_string@ == Seq::<char>::empty(),
            r@.hidapi.product_string@ == Seq::<char>::empty(),
            r@.hidapi.vendor_id == 0 && r@.hidapi.product_id == 0 && r@.hidapi.release_number == 0
                && r@.hidapi.usage_page == 0 && r@.hidapi.usage == 0 && r@.hidapi.interface_number == 0,
            r@.evdev.name@ == Seq::<char>::empty() && r@.evdev.phys@ == Seq::<char>::empty()
                && r@.evdev.uniq@ == Seq::<char>::empty(),
            r@.evdev.product_id == 0 && r@.evdev.vendor_id == 0 && r@.evdev.bustype == 0
                && r@.evdev.version == 0 && r@.evdev.driver_version == 0,
            r@.uhid.name@ == Seq::<char>::empty() && r@.uhid.phys@ == Seq::<char>::empty()
                && r@.uhid.uniq@ == Seq::<char>::empty(),
            r@.uhid.bus == 0 && r@.uhid.vendor == 0 && r@.uhid.product == 0 && r@.uhid.version == 0
                && r@.uhid.country == 0,
    {
        Endpoint {
            type_,
            name: String::new(),
            serial: String::new(),
            uid,
            created: instant_now(),
            hidapi: HidApiInfo::default(),
            evdev: EvdevInfo::default(),
            uhid: UhidInfo::default(),
        }
    }

    /// Names the node as the daemon node of the process with the given id
    /// (serial `pid:<process id>`).
    pub fn set_daemonnode_params(&mut self, pid: u32)
        ensures
            final(self)@ == (EndpointModel {
                name: "HID-IO Core Daemon Node"@,
                serial: "pid:"@ + dec_digits(pid as nat),
                ..old(self)@
            }),
    {
        self.name = String::from_str("HID-IO Core Daemon Node");
        let mut s = String::from_str("pid:");
        push_dec(&mut s, pid as u64);
        self.serial = s;
    }

    /// Stores evdev information, then refreshes the stored name and serial.
    pub fn set_evdev_params(&mut self, info: EvdevInfo)
        ensures
            final(self)@ == (EndpointModel {
                evdev: info,
                name: endpoint_name(EndpointModel { evdev: info, ..old(self)@ }),
                serial: endpoint_serial(EndpointModel { evdev: info, ..old(self)@ }),
                ..old(self)@
            }),
    {
        self.evdev = info;
        self.name = self.name();
        self.serial = self.serial();
    }

    /// Sets the name and serial of a hidio node.
    pub fn set_hidio_params(&mut self, name: String, serial: String)
        ensures
            final(self)@ == (EndpointModel { name: name@, serial: serial@, ..old(self)@ }),
    {
        self.name = name;
        self.serial = serial;
    }

    /// Stores hidapi information, then refreshes the stored name and serial.
    pub fn set_hidapi_params(&mut self, info: HidApiInfo)
        ensures
            final(self)@ == (EndpointModel {
                hidapi: info,
                name: endpoint_name(EndpointModel { hidapi: info, ..old(self)@ }),
                serial: endpoint_serial(EndpointModel { hidapi: info, ..old(self)@ }),
                ..old(self)@
            }),
    {
        self.hidapi = info;
        self.name = self.name();
        self.serial = self.serial();
    }

    /// Stores uhid information, then refreshes the stored name and serial.
    pub fn set_uhid_params(&mut self, info: UhidInfo)
        ensures
            final(self)@ == (EndpointModel {
                uhid: info,
                name: endpoint_name(EndpointModel { uhid: info, ..old(self)@ }),
                serial: endpoint_serial(EndpointModel { uhid: info, ..old(self)@ }),
                ..old(self)@
            }),
    {
        self.uhid = info;
        self.name = self.name();
        self.serial = self.serial();
    }

    /// Sets the hidapi path of the node.
    pub fn set_hidapi_path(&mut self, path: String)
        ensures
            final(self)@ == (EndpointModel {
                hidapi: HidApiInfo { path: path, ..old(self)@.hidapi },
                ..old(self)@
            }),
    {
        self.hidapi.path = path;
    }

    /// Type of the node.
    pub fn type_(&mut self) -> (r: NodeType)
        ensures
            *final(self) == *old(self),
            r == old(self)@.type_,
    {
        self.type_
    }

    /// Name of the node.
    pub fn name(&mut self) -> (r: String)
        ensures
            *final(self) == *old(self),
            r@ == endpoint_name(old(self)@),
    {
        match self.type_ {
            NodeType::BleKeyboard => {
                let mut s = String::new();
                push_hidapi_ids(&mut s, &self.hidapi);
                s.append(" ");
                s.append(self.hidapi.product_string.as_str());
                assert(s@ =~= endpoint_name(self@));
                s
            },
            NodeType::UsbKeyboard => {
                let mut s = String::new();
                push_hidapi_ids(&mut s, &self.hidapi);
                s.append(" [");
                s.append(self.hidapi.manufacturer_string.as_str());
                s.append("] ");
                s.append(self.hidapi.product_string.as_str());
                assert(s@ =~= endpoint_name(self@));
                s
            },
            _ => self.name.clone(),
        }
    }

    /// Unique key that points to this node.
    ///
    /// Empty fields are still used. The path is not part of it (it may not identify
    /// the device), nor is the release number (it may increase).
    pub fn key(&mut self) -> (r: String)
        ensures
            *final(self) == *old(self),
            r@ == endpoint_key(old(self)@),
    {
        match self.type_ {
            NodeType::BleKeyboard | NodeType::UsbKeyboard => self.hidapi.key(),
            _ => {
                let mut s = String::from_str("name:");
                s.append(self.name.as_str());
                s.append(" serial:");
                s.append(self.serial.as_str());
                assert(s@ =~= endpoint_key(self@));
                s
            },
        }
    }

    /// Serial of the node.
    pub fn serial(&mut self) -> (r: String)
        ensures
            *final(self) == *old(self),
            r@ == endpoint_serial(old(self)@),
    {
        match self.type_ {
            NodeType::BleKeyboard | NodeType::UsbKeyboard => self.hidapi.serial_number.clone(),
            _ => self.serial.clone(),
        }
    }

    /// Uid of the node.
    pub fn uid(&mut self) -> (r: u64)
        ensures
            *final(self) == *old(self),
            r == old(self)@.uid,
    {
        self.uid
    }

    /// Creation time of the node.
    pub fn created(&mut self) -> (r: std::time::Instant)
        ensures
            *final(self) == *old(self),
            r == old(self)@.created,
    {
        self.created
    }

    /// Hidapi path of the node.
    pub fn path(&mut self) -> (r: String)
        ensures
            *final(self) == *old(self),
            r@ == old(self)@.hidapi.path@,
    {
        self.hidapi.path.clone()
    }

    /// Uid of the node, read without borrowing it mutably.
    pub(crate) fn uid_value(&self) -> (r: u64)
        ensures
            r == self@.uid,
    {
        self.uid
    }

    /// Hidapi path of the node, borrowed.
    pub(crate) fn path_ref(&self) -> (r: &String)
        ensures
            r@ == self@.hidapi.path@,
    {
        &self.hidapi.path
    }

    /// Display form of the node: `id:<uid> <description> <serial>`.
    pub fn to_string(&self) -> (r: String)
        ensures
            r@ == endpoint_display(self@),
    {
        let mut s = String::from_str("id:");
        push_dec(&mut s, self.uid);
        s.append(" ");
        match self.type_ {
            NodeType::BleKeyboard => {
                s.append("BLE ");
                push_hidapi_ids(&mut s, &self.hidapi);
                s.append(" ");
                s.append(self.hidapi.product_string.as_str());
            },
            NodeType::UsbKeyboard => {
                s.append("USB ");
                push_hidapi_ids(&mut s, &self.hidapi);
                s.append(" [");
                s.append(self.hidapi.manufacturer_string.as_str());
                s.append("] ");
                s.append(self.hidapi.product_string.as_str());
            },
            _ => {
                s.append(self.name.as_str());
            },
        }
        s.append(" ");
        match self.type_ {
            NodeType::BleKeyboard | NodeType::UsbKeyboard => {
                s.append(self.hidapi.serial_number.as_str());
            },
            _ => {
                s.append(self.serial.as_str());
            },
        }
        assert(s@ =~= endpoint_display(self@));
        s
    }
}

} // verus!
