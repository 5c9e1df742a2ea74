//! Which USB device is the printer, how it is opened, and how a job is written to it.

use vstd::prelude::*;
use vstd::string::*;

use crate::models::{error_text, opt_text, ErrorView, KioskError, KioskResult};
use crate::printer::job::print_error;
use crate::printer::PrinterTarget;
use crate::text::{decimal, decimal_u64, hex2, hex4, hex_byte, hex_word};

verus! {

/// The USB class of printers.
pub const LIBUSB_CLASS_PRINTER: u8 = 7;

/// How much of a job is written at once.
pub const USB_WRITE_CHUNK_SIZE: usize = 16384;

/// How long one write may take.
pub const USB_TIMEOUT_MS: u64 = 5000;

/// An endpoint of an interface.
#[derive(Debug, Clone, Copy, PartialEq, Eq, Structural)]
pub struct Endpoint {
    pub address: u8,
    pub bulk: bool,
    pub out: bool,
}

/// A setting of an interface.
pub struct InterfaceSetting {
    pub interface: u8,
    pub setting: u8,
    pub class: u8,
    pub endpoints: Vec<Endpoint>,
}

pub struct SettingView {
    pub interface: u8,
    pub setting: u8,
    pub class: u8,
    pub endpoints: Seq<Endpoint>,
}

impl View for InterfaceSetting {
    type V = SettingView;

    open spec fn view(&self) -> SettingView {
        SettingView {
            interface: self.interface,
            setting: self.setting,
            class: self.class,
            endpoints: self.endpoints@,
        }
    }
}

/// A configuration: its number and the settings of its interfaces, in order; or the text of
/// the error with which it could not be read.
pub enum Configuration {
    Read { number: u8, settings: Vec<InterfaceSetting> },
    Unread(String),
}

pub enum ConfigurationView {
    Read { number: u8, settings: Seq<SettingView> },
    Unread(Seq<char>),
}

impl View for Configuration {
    type V = ConfigurationView;

    open spec fn view(&self) -> ConfigurationView {
        match *self {
            Configuration::Read { number, settings } => ConfigurationView::Read {
                number,
                settings: settings@.map_values(|s: InterfaceSetting| s@),
            },
            Configuration::Unread(t) => ConfigurationView::Unread(t@),
        }
    }
}

/// A device: its ids and configurations, in order; or the text of the error with which its
/// descriptor could not be read.
pub enum UsbDevice {
    Read { vendor_id: u16, product_id: u16, configurations: Vec<Configuration> },
    Unread(String),
}

pub enum DeviceView {
    Read { vendor_id: u16, product_id: u16, configurations: Seq<ConfigurationView> },
    Unread(Seq<char>),
}

impl View for UsbDevice {
    type V = DeviceView;

    open spec fn view(&self) -> DeviceView {
        match *self {
            UsbDevice::Read { vendor_id, product_id, configurations } => DeviceView::Read {
                vendor_id,
                product_id,
                configurations: configurations@.map_values(|c: Configuration| c@),
            },
            UsbDevice::Unread(t) => DeviceView::Unread(t@),
        }
    }
}

/// The views of a list of devices.
pub open spec fn device_views(v: Seq<UsbDevice>) -> Seq<DeviceView> {
    v.map_values(|d: UsbDevice| d@)
}

/// Where a job is written to.
#[derive(Debug, Clone, Copy, PartialEq, Eq, Structural)]
pub struct EndpointSelection {
    pub configuration: u8,
    pub interface: u8,
    pub alternate_setting: u8,
    pub endpoint: u8,
}

/// The first endpoint of a printer interface, and the first of any other.
#[derive(Debug, Clone, Copy, PartialEq, Eq, Structural)]
pub struct EndpointOptions {
    pub printer: Option<EndpointSelection>,
    pub bulk_out: Option<EndpointSelection>,
}

/// The device that was chosen, by its position, and where a job is written to.
#[derive(Debug, Clone, Copy, PartialEq, Eq, Structural)]
pub struct DeviceCandidate {
    pub device: usize,
    pub vendor_id: u16,
    pub product_id: u16,
    pub endpoint: EndpointSelection,
}

/// A device as it is named in messages: `USB 1504:0061`.
pub open spec fn usb_name(vendor_id: u16, product_id: u16) -> Seq<char> {
    "USB "@ + hex4(vendor_id, false) + ":"@ + hex4(product_id, false)
}

fn name_of(vendor_id: u16, product_id: u16) -> (r: String)
    ensures
        r@ == usb_name(vendor_id, product_id),
{
    "USB ".to_string().concat(hex_word(vendor_id, false).as_str()).concat(":").concat(
        hex_word(product_id, false).as_str(),
    )
}

// ---------------------------------------------------------------------------
// Endpoints
// ---------------------------------------------------------------------------

/// The first endpoint to which bulk data can be written.
pub open spec fn first_bulk_out(endpoints: Seq<Endpoint>) -> Option<u8>
    decreases endpoints.len(),
{
    if endpoints.len() == 0 {
        None
    } else if endpoints[0].bulk && endpoints[0].out {
        Some(endpoints[0].address)
    } else {
        first_bulk_out(endpoints.skip(1))
    }
}

/// The options with one more interface setting. A further printer interface counts as any
/// other.
pub open spec fn with_setting(o: EndpointOptions, configuration: u8, s: SettingView) ->
    EndpointOptions {
    match first_bulk_out(s.endpoints) {
        None => o,
        Some(endpoint) => {
            let selection = EndpointSelection {
                configuration,
                interface: s.interface,
                alternate_setting: s.setting,
                endpoint,
            };
            if s.class == LIBUSB_CLASS_PRINTER && o.printer is None {
                EndpointOptions { printer: Some(selection), ..o }
            } else if o.bulk_out is None {
                EndpointOptions { bulk_out: Some(selection), ..o }
            } else {
                o
            }
        },
    }
}

/// The options with the settings of a configuration.
pub open spec fn with_settings(
    o: EndpointOptions,
    configuration: u8,
    settings: Seq<SettingView>,
) -> EndpointOptions
    decreases settings.len(),
{
    if settings.len() == 0 {
        o
    } else {
        with_setting(
            with_settings(o, configuration, settings.drop_last()),
            configuration,
            settings.last(),
        )
    }
}

/// The options of a device as far as its configurations were looked at, and the last error.
pub struct Inspection {
    pub options: EndpointOptions,
    pub last_error: Option<ErrorView>,
}

/// The error on a configuration that could not be read.
pub open spec fn unread_configuration(vid: u16, pid: u16, index: int, detail: Seq<char>) ->
    ErrorView {
    print_error(
        "cannot read configuration "@ + decimal(index) + " for "@ + usb_name(vid, pid) + ": "@
            + detail,
    )
}

/// What the configurations of a device offer. A strict inspection fails at the first that
/// could not be read; any other remembers the last one.
pub open spec fn inspected(
    vid: u16,
    pid: u16,
    configurations: Seq<ConfigurationView>,
    strict: bool,
) -> Result<Inspection, ErrorView>
    decreases configurations.len(),
{
    if configurations.len() == 0 {
        Ok(
            Inspection {
                options: EndpointOptions { printer: None, bulk_out: None },
                last_error: None,
            },
        )
    } else {
        match inspected(vid, pid, configurations.drop_last(), strict) {
            Err(e) => Err(e),
            Ok(i) => match configurations.last() {
                ConfigurationView::Unread(t) => {
                    let e = unread_configuration(vid, pid, configurations.len() - 1, t);
                    if strict {
                        Err(e)
                    } else {
                        Ok(Inspection { last_error: Some(e), ..i })
                    }
                },
                ConfigurationView::Read { number, settings } => Ok(
                    Inspection { options: with_settings(i.options, number, settings), ..i },
                ),
            },
        }
    }
}

/// The options of a device; an error where there are none and something could not be read.
pub open spec fn endpoints_of(
    vid: u16,
    pid: u16,
    configurations: Seq<ConfigurationView>,
    strict: bool,
) -> Result<EndpointOptions, ErrorView> {
    match inspected(vid, pid, configurations, strict) {
        Err(e) => Err(e),
        Ok(i) => match i.last_error {
            Some(e) if i.options.printer is None && i.options.bulk_out is None => Err(e),
            _ => Ok(i.options),
        },
    }
}

fn find_bulk_out(endpoints: &[Endpoint]) -> (r: Option<u8>)
    ensures
        r == first_bulk_out(endpoints@),
{
    let mut i: usize = 0;
    assert(endpoints@.skip(0) =~= endpoints@);
    while i < endpoints.len()
        invariant
            i <= endpoints@.len(),
            first_bulk_out(endpoints@) == first_bulk_out(endpoints@.skip(i as int)),
        decreases endpoints@.len() - i,
    {
        assert(endpoints@.skip(i as int)[0] == endpoints@[i as int]);
        assert(endpoints@.skip(i as int).skip(1) =~= endpoints@.skip(i + 1));
        if endpoints[i].bulk && endpoints[i].out {
            return Some(endpoints[i].address);
        }
        i = i + 1;
    }
    None
}

fn note_settings(o: EndpointOptions, configuration: u8, settings: &[InterfaceSetting]) -> (r:
    EndpointOptions)
    ensures
        r == with_settings(
            o,
            configuration,
            settings@.map_values(|s: InterfaceSetting| s@),
        ),
{
    let ghost all = settings@.map_values(|s: InterfaceSetting| s@);
    let mut options = o;
    let mut i: usize = 0;
    assert(all.take(0) =~= Seq::<SettingView>::empty());
    while i < settings.len()
        invariant
            all == settings@.map_values(|s: InterfaceSetting| s@),
            i <= settings@.len(),
            options == with_settings(o, configuration, all.take(i as int)),
        decreases settings@.len() - i,
    {
        assert(all.take(i + 1).drop_last() =~= all.take(i as int));
        assert(all.take(i + 1).last() == settings@[i as int]@);
        match find_bulk_out(&settings[i].endpoints) {
            None => {},
            Some(endpoint) => {
                let selection = EndpointSelection {
                    configuration,
                    interface: settings[i].interface,
                    alternate_setting: settings[i].setting,
                    endpoint,
                };
                if settings[i].class == LIBUSB_CLASS_PRINTER && options.printer.is_none() {
                    options.printer = Some(selection);
                } else if options.bulk_out.is_none() {
                    options.bulk_out = Some(selection);
                }
            },
        }
        i = i + 1;
    }
    assert(all.take(i as int) =~= all);
    options
}

proof fn lemma_first_unread(
    vid: u16,
    pid: u16,
    configurations: Seq<ConfigurationView>,
    strict: bool,
    n: int,
)
    requires
        0 <= n <= configurations.len(),
        inspected(vid, pid, configurations.take(n), strict) is Err,
    ensures
        inspected(vid, pid, configurations, strict) == inspected(
            vid,
            pid,
            configurations.take(n),
            strict,
        ),
    decreases configurations.len() - n,
{
    if n == configurations.len() {
        assert(configurations.take(n) =~= configurations);
    } else {
        assert(configurations.take(n + 1).drop_last() =~= configurations.take(n));
        lemma_first_unread(vid, pid, configurations, strict, n + 1);
    }
}

/// The options of a device.
pub fn inspect_endpoints(
    vid: u16,
    pid: u16,
    configurations: &[Configuration],
    fail_on_descriptor_error: bool,
) -> (r: KioskResult<EndpointOptions>)
    ensures
        match endpoints_of(
            vid,
            pid,
            configurations@.map_values(|c: Configuration| c@),
            fail_on_descriptor_error,
        ) {
            Ok(o) => r matches Ok(x) && x == o,
            Err(t) => r matches Err(e) && e@ == t,
        },
{
    let ghost strict = fail_on_descriptor_error;
    let ghost all = configurations@.map_values(|c: Configuration| c@);
    let mut options = EndpointOptions { printer: None, bulk_out: None };
    let mut last_error: Option<KioskError> = None;
    let mut i: usize = 0;
    assert(all.take(0) =~= Seq::<ConfigurationView>::empty());
    while i < configurations.len()
        invariant
            strict == fail_on_descriptor_error,
            all == configurations@.map_values(|c: Configuration| c@),
            i <= configurations@.len(),
            inspected(vid, pid, all.take(i as int), strict) == Ok::<Inspection, ErrorView>(
                Inspection {
                    options,
                    last_error: match last_error {
                        Some(e) => Some(e@),
                        None => None,
                    },
                },
            ),
        decreases configurations@.len() - i,
    {
        proof {
            assert(all.take(i + 1).drop_last() =~= all.take(i as int));
            assert(all.take(i + 1).last() == configurations@[i as int]@);
        }
        match &configurations[i] {
            Configuration::Read { number, settings } => {
                options = note_settings(options, *number, settings);
            },
            Configuration::Unread(detail) => {
                let error = KioskError::Print(
                    "cannot read configuration ".to_string().concat(
                        decimal_u64(i as u64).as_str(),
                    ).concat(" for ").concat(name_of(vid, pid).as_str()).concat(": ").concat(
                        detail.as_str(),
                    ),
                );
                if fail_on_descriptor_error {
                    proof {
                        lemma_first_unread(vid, pid, all, strict, i + 1);
                    }
                    return Err(error);
                }
                last_error = Some(error);
            },
        }
        i = i + 1;
    }
    assert(all.take(i as int) =~= all);
    if options.printer.is_none() && options.bulk_out.is_none() {
        match last_error {
            Some(e) => return Err(e),
            None => {},
        }
    }
    Ok(options)
}

// ---------------------------------------------------------------------------
// Devices
// ---------------------------------------------------------------------------

/// Whether a device has these ids.
pub open spec fn has_ids(d: DeviceView, vid: u16, pid: u16) -> bool {
    d matches DeviceView::Read { vendor_id, product_id, .. } && vendor_id == vid && product_id
        == pid
}

/// What is added to a message where a descriptor could not be read: the last such error.
pub open spec fn last_unread(devices: Seq<DeviceView>) -> Option<Seq<char>>
    decreases devices.len(),
{
    if devices.len() == 0 {
        None
    } else {
        match devices.last() {
            DeviceView::Unread(t) => Some("cannot read USB device descriptor: "@ + t),
            _ => last_unread(devices.drop_last()),
        }
    }
}

/// The end of a message that mentions the last error.
pub open spec fn detail_text(last: Option<Seq<char>>) -> Seq<char> {
    match last {
        Some(t) => "; last USB error: "@ + t,
        None => ""@,
    }
}

/// The choice of a device by its ids: the first that has them, with its printer interface or
/// else any other.
pub open spec fn exact_choice(devices: Seq<DeviceView>, vid: u16, pid: u16, from: int) -> Result<
    DeviceCandidate,
    ErrorView,
>
    decreases devices.len() - from,
{
    if from < 0 || from >= devices.len() {
        Err(
            print_error(
                "USB printer "@ + hex4(vid, false) + ":"@ + hex4(pid, false) + " not found"@
                    + detail_text(last_unread(devices)),
            ),
        )
    } else {
        match devices[from] {
            DeviceView::Read { vendor_id, product_id, configurations } => if vendor_id == vid
                && product_id == pid {
                match endpoints_of(vid, pid, configurations, true) {
                    Err(e) => Err(e),
                    Ok(o) => match (o.printer, o.bulk_out) {
                        (Some(endpoint), _) => Ok(
                            DeviceCandidate {
                                device: from as usize,
                                vendor_id,
                                product_id,
                                endpoint,
                            },
                        ),
                        (None, Some(endpoint)) => Ok(
                            DeviceCandidate {
                                device: from as usize,
                                vendor_id,
                                product_id,
                                endpoint,
                            },
                        ),
                        (None, None) => Err(
                            print_error(usb_name(vid, pid) + " has no bulk OUT endpoint"@),
                        ),
                    },
                }
            } else {
                exact_choice(devices, vid, pid, from + 1)
            },
            DeviceView::Unread(_) => exact_choice(devices, vid, pid, from + 1),
        }
    }
}

/// What the search for any printer has found before it looks at the device at a position.
pub struct Search {
    pub fallback: Option<DeviceCandidate>,
    pub descriptor_error: Option<Seq<char>>,
    pub config_error: Option<Seq<char>>,
}

/// The choice of any device: the first with a printer interface, or else the first to which
/// bulk data can be written.
pub open spec fn automatic_choice(devices: Seq<DeviceView>, from: int, s: Search) -> Result<
    DeviceCandidate,
    ErrorView,
>
    decreases devices.len() - from,
{
    if from < 0 || from >= devices.len() {
        match s.fallback {
            Some(c) => Ok(c),
            None => Err(
                print_error(
                    "no USB printer-class interface or bulk OUT endpoint found"@ + detail_text(
                        match s.config_error {
                            Some(t) => Some(t),
                            None => s.descriptor_error,
                        },
                    ),
                ),
            ),
        }
    } else {
        match devices[from] {
            DeviceView::Unread(t) => automatic_choice(
                devices,
                from + 1,
                Search {
                    descriptor_error: Some("cannot read USB device descriptor: "@ + t),
                    ..s
                },
            ),
            DeviceView::Read { vendor_id, product_id, configurations } => match endpoints_of(
                vendor_id,
                product_id,
                configurations,
                false,
            ) {
                Err(e) => automatic_choice(
                    devices,
                    from + 1,
                    Search { config_error: Some(error_text(e)), ..s },
                ),
                Ok(o) => match o.printer {
                    Some(endpoint) => Ok(
                        DeviceCandidate {
                            device: from as usize,
                            vendor_id,
                            product_id,
                            endpoint,
                        },
                    ),
                    None => match o.bulk_out {
                        Some(endpoint) if s.fallback is None => automatic_choice(
                            devices,
                            from + 1,
                            Search {
                                fallback: Some(
                                    DeviceCandidate {
                                        device: from as usize,
                                        vendor_id,
                                        product_id,
                                        endpoint,
                                    },
                                ),
                                ..s
                            },
                        ),
                        _ => automatic_choice(devices, from + 1, s),
                    },
                },
            },
        }
    }
}

/// The choice of a device: by its ids where both are given, else automatic.
pub open spec fn choice(devices: Seq<DeviceView>, target: PrinterTarget) -> Result<
    DeviceCandidate,
    ErrorView,
> {
    match (target.vendor_id, target.product_id) {
        (Some(vid), Some(pid)) => exact_choice(devices, vid, pid, 0),
        _ => automatic_choice(
            devices,
            0,
            Search { fallback: None, descriptor_error: None, config_error: None },
        ),
    }
}

fn select_exact_device(devices: &[UsbDevice], vendor_id: u16, product_id: u16) -> (r:
    KioskResult<DeviceCandidate>)
    ensures
        match exact_choice(device_views(devices@), vendor_id, product_id, 0) {
            Ok(c) => r matches Ok(x) && x == c,
            Err(t) => r matches Err(e) && e@ == t,
        },
{
    let ghost all = device_views(devices@);
    let mut last: Option<String> = None;
    let mut i: usize = 0;
    assert(all.take(0) =~= Seq::<DeviceView>::empty());
    while i < devices.len()
        invariant
            all == device_views(devices@),
            i <= devices@.len(),
            exact_choice(all, vendor_id, product_id, 0) == exact_choice(
                all,
                vendor_id,
                product_id,
                i as int,
            ),
            last_unread(all.take(i as int)) == opt_text(last),
        decreases devices@.len() - i,
    {
        assert(all[i as int] == devices@[i as int]@);
        assert(all.take(i + 1).drop_last() =~= all.take(i as int));
        assert(all.take(i + 1).last() == all[i as int]);
        match &devices[i] {
            UsbDevice::Unread(t) => {
                last = Some(
                    "cannot read USB device descriptor: ".to_string().concat(t.as_str()),
                );
            },
            UsbDevice::Read { vendor_id: vid, product_id: pid, configurations } => {
                if *vid == vendor_id && *pid == product_id {
                    let options = match inspect_endpoints(
                        vendor_id,
                        product_id,
                        configurations,
                        true,
                    ) {
                        Ok(o) => o,
                        Err(e) => return Err(e),
                    };
                    let endpoint = match options.printer {
                        Some(e) => e,
                        None => match options.bulk_out {
                            Some(e) => e,
                            None => return Err(
                                KioskError::Print(
                                    name_of(vendor_id, product_id).concat(
                                        " has no bulk OUT endpoint",
                                    ),
                                ),
                            ),
                        },
                    };
                    return Ok(DeviceCandidate { device: i, vendor_id, product_id, endpoint });
                }
            },
        }
        i = i + 1;
    }
    assert(all.take(i as int) =~= all);
    let detail = match last {
        Some(t) => "; last USB error: ".to_string().concat(t.as_str()),
        None => "".to_string(),
    };
    Err(
        KioskError::Print(
            "USB printer ".to_string().concat(hex_word(vendor_id, false).as_str()).concat(
                ":",
            ).concat(hex_word(product_id, false).as_str()).concat(" not found").concat(
                detail.as_str(),
            ),
        ),
    )
}

fn select_automatic_device(devices: &[UsbDevice]) -> (r: KioskResult<DeviceCandidate>)
    ensures
        match automatic_choice(
            device_views(devices@),
            0,
            Search { fallback: None, descriptor_error: None, config_error: None },
        ) {
            Ok(c) => r matches Ok(x) && x == c,
            Err(t) => r matches Err(e) && e@ == t,
        },
{
    let ghost all = device_views(devices@);
    let ghost whole = automatic_choice(
        all,
        0,
        Search { fallback: None, descriptor_error: None, config_error: None },
    );
    let mut fallback: Option<DeviceCandidate> = None;
    let mut descriptor_error: Option<String> = None;
    let mut config_error: Option<String> = None;
    let mut i: usize = 0;
    while i < devices.len()
        invariant
            all == device_views(devices@),
            i <= devices@.len(),
            whole == automatic_choice(
                all,
                0,
                Search { fallback: None, descriptor_error: None, config_error: None },
            ),
            whole == automatic_choice(
                all,
                i as int,
                Search {
                    fallback,
                    descriptor_error: opt_text(descriptor_error),
                    config_error: opt_text(config_error),
                },
            ),
        decreases devices@.len() - i,
    {
        assert(all[i as int] == devices@[i as int]@);
        match &devices[i] {
            UsbDevice::Unread(t) => {
                descriptor_error = Some(
                    "cannot read USB device descriptor: ".to_string().concat(t.as_str()),
                );
            },
            UsbDevice::Read { vendor_id, product_id, configurations } => {
                match inspect_endpoints(*vendor_id, *product_id, configurations, false) {
                    Err(e) => {
                        config_error = Some(e.message());
                    },
                    Ok(options) => {
                        match options.printer {
                            Some(endpoint) => {
                                return Ok(
                                    DeviceCandidate {
                                        device: i,
                                        vendor_id: *vendor_id,
                                        product_id: *product_id,
                                        endpoint,
                                    },
                                );
                            },
                            None => {},
                        }
                        if fallback.is_none() {
                            match options.bulk_out {
                                Some(endpoint) => {
                                    fallback = Some(
                                        DeviceCandidate {
                                            device: i,
                                            vendor_id: *vendor_id,
                                            product_id: *product_id,
                                            endpoint,
                                        },
                                    );
                                },
                                None => {},
                            }
                        }
                    },
                }
            },
        }
        i = i + 1;
    }
    match fallback {
        Some(c) => return Ok(c),
        None => {},
    }
    let last = match config_error {
        Some(t) => Some(t),
        None => descriptor_error,
    };
    let detail = match last {
        Some(t) => "; last USB error: ".to_string().concat(t.as_str()),
        None => "".to_string(),
    };
    Err(
        KioskError::Print(
            "no USB printer-class interface or bulk OUT endpoint found".to_string().concat(
                detail.as_str(),
            ),
        ),
    )
}

/// Chooses the device of a printer among those that are connected.
pub fn select_device(devices: &[UsbDevice], target: &PrinterTarget) -> (r: KioskResult<
    DeviceCandidate,
>)
    ensures
        match choice(device_views(devices@), *target) {
            Ok(c) => r matches Ok(x) && x == c,
            Err(t) => r matches Err(e) && e@ == t,
        },
{
    match (target.vendor_id, target.product_id) {
        (Some(vendor_id), Some(product_id)) => select_exact_device(devices, vendor_id, product_id),
        _ => select_automatic_device(devices),
    }
}

/// The printer interface of a device, if it has one that can be read.
pub open spec fn printer_interface(d: DeviceView) -> Option<EndpointSelection> {
    match d {
        DeviceView::Unread(_) => None,
        DeviceView::Read { vendor_id, product_id, configurations } => match endpoints_of(
            vendor_id,
            product_id,
            configurations,
            false,
        ) {
            Ok(o) => o.printer,
            Err(_) => None,
        },
    }
}

/// A device that is chosen by its ids has them, and no device before it does.
pub proof fn law_exact_choice_has_the_ids(
    devices: Seq<DeviceView>,
    vid: u16,
    pid: u16,
    from: int,
)
    requires
        0 <= from,
        devices.len() <= usize::MAX,
        exact_choice(devices, vid, pid, from) is Ok,
    ensures
        ({
            let c = exact_choice(devices, vid, pid, from)->Ok_0;
            &&& from <= c.device < devices.len()
            &&& has_ids(devices[c.device as int], vid, pid)
            &&& c.vendor_id == vid
            &&& c.product_id == pid
            &&& forall|i: int| from <= i < c.device ==> !has_ids(#[trigger] devices[i], vid, pid)
        }),
    decreases devices.len() - from,
{
    if from < devices.len() && !has_ids(devices[from], vid, pid) {
        law_exact_choice_has_the_ids(devices, vid, pid, from + 1);
    }
}

/// Without ids the first printer interface is chosen, before any other device to which data
/// could be written.
pub proof fn law_printer_interface_comes_first(
    devices: Seq<DeviceView>,
    from: int,
    s: Search,
    first: int,
)
    requires
        0 <= from <= first < devices.len() <= usize::MAX,
        printer_interface(devices[first]) is Some,
        forall|i: int| from <= i < first ==> printer_interface(#[trigger] devices[i]) is None,
    ensures
        automatic_choice(devices, from, s) matches Ok(c) && c.device == first && c.endpoint
            == printer_interface(devices[first])->0,
    decreases first - from,
{
    if from < first {
        assert(printer_interface(devices[from]) is None);
        match devices[from] {
            DeviceView::Unread(t) => {
                law_printer_interface_comes_first(
                    devices,
                    from + 1,
                    Search {
                        descriptor_error: Some("cannot read USB device descriptor: "@ + t),
                        ..s
                    },
                    first,
                );
            },
            DeviceView::Read { vendor_id, product_id, configurations } => {
                match endpoints_of(vendor_id, product_id, configurations, false) {
                    Err(e) => law_printer_interface_comes_first(
                        devices,
                        from + 1,
                        Search { config_error: Some(error_text(e)), ..s },
                        first,
                    ),
                    Ok(o) => match o.bulk_out {
                        Some(endpoint) if s.fallback is None => law_printer_interface_comes_first(
                            devices,
                            from + 1,
                            Search {
                                fallback: Some(
                                    DeviceCandidate {
                                        device: from as usize,
                                        vendor_id,
                                        product_id,
                                        endpoint,
                                    },
                                ),
                                ..s
                            },
                            first,
                        ),
                        _ => law_printer_interface_comes_first(devices, from + 1, s, first),
                    },
                }
            },
        }
    }
}

// ---------------------------------------------------------------------------
// Opening
// ---------------------------------------------------------------------------

/// A step on the way to an open printer.
#[derive(Debug, Clone, Copy, PartialEq, Eq, Structural)]
pub enum OpenStep {
    Open,
    ReadConfiguration,
    SetConfiguration(u8),
    AutoDetach,
    ClaimInterface(u8),
    SetAlternate { interface: u8, setting: u8 },
}

/// What is done with an open device, given its active configuration: another one is selected
/// only where it has to be, and so is an alternate setting.
pub open spec fn opening(active: u8, s: EndpointSelection, auto_detach: bool) -> Seq<OpenStep> {
    let set = if active != s.configuration {
        seq![OpenStep::SetConfiguration(s.configuration)]
    } else {
        Seq::empty()
    };
    let detach = if auto_detach {
        seq![OpenStep::AutoDetach]
    } else {
        Seq::empty()
    };
    let alternate = if s.alternate_setting != 0 {
        seq![
            OpenStep::SetAlternate { interface: s.interface, setting: s.alternate_setting },
        ]
    } else {
        Seq::empty()
    };
    set + detach + seq![OpenStep::ClaimInterface(s.interface)] + alternate
}

/// What is done with an open device, given its active configuration.
pub fn open_steps(active: u8, s: &EndpointSelection, auto_detach: bool) -> (r: Vec<OpenStep>)
    ensures
        r@ == opening(active, *s, auto_detach),
{
    let mut steps: Vec<OpenStep> = Vec::new();
    if active != s.configuration {
        steps.push(OpenStep::SetConfiguration(s.configuration));
    }
    if auto_detach {
        steps.push(OpenStep::AutoDetach);
    }
    steps.push(OpenStep::ClaimInterface(s.interface));
    if s.alternate_setting != 0 {
        steps.push(
            OpenStep::SetAlternate { interface: s.interface, setting: s.alternate_setting },
        );
    }
    assert(steps@ =~= opening(active, *s, auto_detach));
    steps
}

/// The error of a step, with what the system said about it.
pub open spec fn open_error_text(step: OpenStep, vid: u16, pid: u16, detail: Seq<char>) -> Seq<
    char,
> {
    let on = usb_name(vid, pid) + ": "@ + detail;
    match step {
        OpenStep::Open => "cannot open "@ + on,
        OpenStep::ReadConfiguration => "cannot read active configuration for "@ + on,
        OpenStep::SetConfiguration(n) => "cannot select configuration "@ + decimal(n as int)
            + " on "@ + on,
        OpenStep::AutoDetach => "cannot enable kernel-driver auto-detach for "@ + on,
        OpenStep::ClaimInterface(n) => "cannot claim interface "@ + decimal(n as int) + " on "@
            + on,
        OpenStep::SetAlternate { interface, setting } => "cannot select alternate setting "@
            + decimal(setting as int) + " on interface "@ + decimal(interface as int) + " of "@
            + on,
    }
}

/// The error of a step.
pub fn open_error(step: OpenStep, vid: u16, pid: u16, detail: &str) -> (e: KioskError)
    ensures
        e@ == print_error(open_error_text(step, vid, pid, detail@)),
{
    let on = name_of(vid, pid).concat(": ").concat(detail);
    let message = match step {
        OpenStep::Open => "cannot open ".to_string().concat(on.as_str()),
        OpenStep::ReadConfiguration => "cannot read active configuration for ".to_string().concat(
            on.as_str(),
        ),
        OpenStep::SetConfiguration(n) => "cannot select configuration ".to_string().concat(
            decimal_u64(n as u64).as_str(),
        ).concat(" on ").concat(on.as_str()),
        OpenStep::AutoDetach => "cannot enable kernel-driver auto-detach for ".to_string().concat(
            on.as_str(),
        ),
        OpenStep::ClaimInterface(n) => "cannot claim interface ".to_string().concat(
            decimal_u64(n as u64).as_str(),
        ).concat(" on ").concat(on.as_str()),
        OpenStep::SetAlternate { interface, setting } => {
            "cannot select alternate setting ".to_string().concat(
                decimal_u64(setting as u64).as_str(),
            ).concat(" on interface ").concat(decimal_u64(interface as u64).as_str()).concat(
                " of ",
            ).concat(on.as_str())
        },
    };
    KioskError::Print(message)
}

// ---------------------------------------------------------------------------
// Writing
// ---------------------------------------------------------------------------

/// The parts in which a job is written, each of the full size but the last.
pub open spec fn chunks_of(data: Seq<u8>, size: int) -> Seq<Seq<u8>>
    decreases data.len(),
{
    if data.len() == 0 || size <= 0 {
        Seq::empty()
    } else if data.len() <= size {
        seq![data]
    } else {
        seq![data.take(size)] + chunks_of(data.skip(size), size)
    }
}

/// The parts put together.
pub open spec fn put_together(parts: Seq<Seq<u8>>) -> Seq<u8>
    decreases parts.len(),
{
    if parts.len() == 0 {
        Seq::empty()
    } else {
        parts[0] + put_together(parts.skip(1))
    }
}

/// Nothing of a job is lost or written twice: its parts put together are the job.
pub proof fn law_chunks_are_the_whole_job(data: Seq<u8>, size: int)
    requires
        size > 0,
    ensures
        put_together(chunks_of(data, size)) == data,
    decreases data.len(),
{
    let parts = chunks_of(data, size);
    if data.len() == 0 {
        assert(put_together(parts) =~= data);
    } else if data.len() <= size {
        assert(parts.skip(1) =~= Seq::<Seq<u8>>::empty());
        assert(put_together(Seq::<Seq<u8>>::empty()) =~= Seq::<u8>::empty());
        assert(put_together(parts) =~= data);
    } else {
        law_chunks_are_the_whole_job(data.skip(size), size);
        assert(parts.skip(1) =~= chunks_of(data.skip(size), size));
        assert(put_together(parts) =~= data);
    }
}

/// The views of the parts of a job.
pub open spec fn chunk_views(v: Seq<Vec<u8>>) -> Seq<Seq<u8>> {
    v.map_values(|c: Vec<u8>| c@)
}

/// The parts in which a job is written.
pub fn bulk_chunks(data: &[u8]) -> (r: Vec<Vec<u8>>)
    ensures
        chunk_views(r@) == chunks_of(data@, USB_WRITE_CHUNK_SIZE as int),
{
    let size: usize = USB_WRITE_CHUNK_SIZE;
    let mut out: Vec<Vec<u8>> = Vec::new();
    let mut at: usize = 0;
    assert(data@.skip(0) =~= data@);
    assert(chunk_views(out@) + chunks_of(data@, size as int) =~= chunks_of(data@, size as int));
    while at < data.len()
        invariant
            size == USB_WRITE_CHUNK_SIZE,
            at <= data@.len(),
            chunk_views(out@) + chunks_of(data@.skip(at as int), size as int) == chunks_of(
                data@,
                size as int,
            ),
        decreases data@.len() - at,
    {
        let ghost rest = data@.skip(at as int);
        let ghost before = chunk_views(out@);
        let end: usize = if data.len() - at > size {
            at + size
        } else {
            data.len()
        };
        let part = vstd::slice::slice_subrange(data, at, end);
        let mut copy: Vec<u8> = Vec::new();
        copy.extend_from_slice(part);
        assert(copy@ =~= data@.subrange(at as int, end as int));
        out.push(copy);
        proof {
            assert(chunk_views(out@) =~= before.push(copy@));
            let tail = data@.skip(end as int);
            assert(tail =~= rest.skip(end - at));
            if rest.len() > size {
                assert(copy@ =~= rest.take(size as int));
                assert(chunks_of(rest, size as int) =~= seq![copy@] + chunks_of(
                    tail,
                    size as int,
                ));
            } else {
                assert(copy@ =~= rest);
                assert(chunks_of(tail, size as int) =~= Seq::<Seq<u8>>::empty());
                assert(chunks_of(rest, size as int) =~= seq![copy@] + chunks_of(
                    tail,
                    size as int,
                ));
            }
            assert(chunk_views(out@) + chunks_of(tail, size as int) =~= before + chunks_of(
                rest,
                size as int,
            ));
        }
        at = end;
    }
    assert(data@.skip(at as int) =~= Seq::<u8>::empty());
    assert(chunk_views(out@) + Seq::<Seq<u8>>::empty() =~= chunk_views(out@));
    out
}

/// An endpoint as it is named in messages.
pub open spec fn endpoint_name(endpoint: u8, vid: u16, pid: u16) -> Seq<char> {
    "endpoint 0x"@ + hex2(endpoint, false) + " on "@ + usb_name(vid, pid)
}

fn endpoint_text(endpoint: u8, vid: u16, pid: u16) -> (r: String)
    ensures
        r@ == endpoint_name(endpoint, vid, pid),
{
    "endpoint 0x".to_string().concat(hex_byte(endpoint, false).as_str()).concat(" on ").concat(
        name_of(vid, pid).as_str(),
    )
}

/// The error of a write that failed.
pub fn write_error(endpoint: u8, vid: u16, pid: u16, detail: &str) -> (e: KioskError)
    ensures
        e@ == print_error(
            "bulk write to "@ + endpoint_name(endpoint, vid, pid) + " failed: "@ + detail@,
        ),
{
    KioskError::Print(
        "bulk write to ".to_string().concat(endpoint_text(endpoint, vid, pid).as_str()).concat(
            " failed: ",
        ).concat(detail),
    )
}

/// Whether a part was written in full.
pub fn check_written(endpoint: u8, vid: u16, pid: u16, written: usize, wanted: usize) -> (r:
    KioskResult<()>)
    ensures
        if written == wanted {
            r is Ok
        } else {
            r matches Err(e) && e@ == print_error(
                "short bulk write to "@ + endpoint_name(endpoint, vid, pid) + ": wrote "@
                    + decimal(written as int) + " of "@ + decimal(wanted as int) + " bytes"@,
            )
        },
{
    if written == wanted {
        return Ok(());
    }
    Err(
        KioskError::Print(
            "short bulk write to ".to_string().concat(
                endpoint_text(endpoint, vid, pid).as_str(),
            ).concat(": wrote ").concat(decimal_u64(written as u64).as_str()).concat(
                " of ",
            ).concat(decimal_u64(wanted as u64).as_str()).concat(" bytes"),
        ),
    )
}

// ---------------------------------------------------------------------------
// Which printer is found, and how a job gets there
// ---------------------------------------------------------------------------

/// The endpoint of an interface is the first that takes bulk data out, and there is none where
/// none does.
pub proof fn law_the_first_bulk_out_endpoint(endpoints: Seq<Endpoint>, k: int)
    ensures
        0 <= k < endpoints.len() && endpoints[k].bulk && endpoints[k].out && (forall|j: int|
            0 <= j < k ==> !((#[trigger] endpoints[j]).bulk && endpoints[j].out))
            ==> first_bulk_out(endpoints) == Some(endpoints[k].address),
        (forall|j: int|
            0 <= j < endpoints.len() ==> !((#[trigger] endpoints[j]).bulk && endpoints[j].out))
            ==> first_bulk_out(endpoints) is None,
    decreases endpoints.len(),
{
    if endpoints.len() > 0 {
        let rest = endpoints.skip(1);
        law_the_first_bulk_out_endpoint(rest, k - 1);
        if !(endpoints[0].bulk && endpoints[0].out) {
            if forall|j: int|
                0 <= j < endpoints.len() ==> !((#[trigger] endpoints[j]).bulk && endpoints[j].out) {
                assert forall|j: int| 0 <= j < rest.len() implies !((#[trigger] rest[j]).bulk
                    && rest[j].out) by {
                    assert(rest[j] == endpoints[j + 1]);
                }
            }
            if 0 < k < endpoints.len() && forall|j: int|
                0 <= j < k ==> !((#[trigger] endpoints[j]).bulk && endpoints[j].out) {
                assert(rest[k - 1] == endpoints[k]);
                assert forall|j: int| 0 <= j < k - 1 implies !((#[trigger] rest[j]).bulk
                    && rest[j].out) by {
                    assert(rest[j] == endpoints[j + 1]);
                }
            }
        } else {
            assert(endpoints[0].bulk && endpoints[0].out);
        }
    }
}

/// Settings of interfaces are looked at in their order. One without a bulk OUT endpoint is passed
/// over; the first of the printer class is kept as such, and the first other one (or a later one
/// of the printer class) as the way out that is left.
pub proof fn law_settings_are_looked_at_in_order(
    o: EndpointOptions,
    number: u8,
    settings: Seq<SettingView>,
    s: SettingView,
)
    ensures
        with_settings(o, number, Seq::empty()) == o,
        ({
            let before = with_settings(o, number, settings);
            let after = with_settings(o, number, settings.push(s));
            match first_bulk_out(s.endpoints) {
                None => after == before,
                Some(endpoint) => {
                    let found = EndpointSelection {
                        configuration: number,
                        interface: s.interface,
                        alternate_setting: s.setting,
                        endpoint,
                    };
                    if s.class == 7 && before.printer is None {
                        after.printer == Some(found) && after.bulk_out == before.bulk_out
                    } else if before.bulk_out is None {
                        after.bulk_out == Some(found) && after.printer == before.printer
                    } else {
                        after == before
                    }
                },
            }
        }),
{
    assert(settings.push(s).drop_last() =~= settings);
}

/// Configurations are looked at in their order too. One that cannot be read is an error at once
/// where a printer was asked for by its ids; else it only counts where nothing else is found.
pub proof fn law_configurations_are_looked_at_in_order(
    vid: u16,
    pid: u16,
    configurations: Seq<ConfigurationView>,
    strict: bool,
    number: u8,
    settings: Seq<SettingView>,
    detail: Seq<char>,
)
    ensures
        inspected(vid, pid, Seq::empty(), strict) matches Ok(i) && i.options.printer is None
            && i.options.bulk_out is None && i.last_error is None,
        inspected(vid, pid, configurations, strict) is Err ==> inspected(
            vid,
            pid,
            configurations.push(ConfigurationView::Read { number, settings }),
            strict,
        ) == inspected(vid, pid, configurations, strict),
        inspected(vid, pid, configurations, strict) matches Ok(i) ==> {
            &&& inspected(
                vid,
                pid,
                configurations.push(ConfigurationView::Read { number, settings }),
                strict,
            ) matches Ok(n)
            &&& n.options == with_settings(i.options, number, settings)
            &&& n.last_error == i.last_error
        },
        inspected(vid, pid, configurations, strict) matches Ok(i) ==> {
            let e = ErrorView::Print(
                "cannot read configuration "@ + decimal(configurations.len() as int) + " for "@ + (
                "USB "@ + hex4(vid, false) + ":"@ + hex4(pid, false)) + ": "@ + detail,
            );
            let next = inspected(
                vid,
                pid,
                configurations.push(ConfigurationView::Unread(detail)),
                strict,
            );
            if strict {
                next == Err::<Inspection, ErrorView>(e)
            } else {
                next matches Ok(n) && n.options == i.options && n.last_error == Some(e)
            }
        },
        endpoints_of(vid, pid, configurations, strict) == match inspected(
            vid,
            pid,
            configurations,
            strict,
        ) {
            Err(e) => Err::<EndpointOptions, ErrorView>(e),
            Ok(i) => if i.last_error is Some && i.options.printer is None && i.options.bulk_out
                is None {
                Err(i.last_error->0)
            } else {
                Ok(i.options)
            },
        },
{
    assert(configurations.push(
        ConfigurationView::Read { number, settings },
    ).drop_last() =~= configurations);
    assert(configurations.push(ConfigurationView::Unread(detail)).drop_last() =~= configurations);
}

/// A printer that is asked for by its ids is the first device with them, by its printer interface
/// or else by its other way out; a device without either is an error, and so is none at all.
pub proof fn law_a_printer_with_ids_is_taken(
    devices: Seq<DeviceView>,
    vid: u16,
    pid: u16,
    from: int,
    k: int,
    configurations: Seq<ConfigurationView>,
)
    requires
        0 <= from,
        devices.len() <= usize::MAX,
    ensures
        from <= k < devices.len() && devices[k] == (DeviceView::Read {
            vendor_id: vid,
            product_id: pid,
            configurations,
        }) && (forall|j: int| from <= j < k ==> !has_ids(#[trigger] devices[j], vid, pid))
            ==> match endpoints_of(vid, pid, configurations, true) {
            Err(e) => exact_choice(devices, vid, pid, from) == Err::<DeviceCandidate, ErrorView>(e),
            Ok(o) => if o.printer is None && o.bulk_out is None {
                exact_choice(devices, vid, pid, from) == Err::<DeviceCandidate, ErrorView>(
                    ErrorView::Print(
                        "USB "@ + hex4(vid, false) + ":"@ + hex4(pid, false)
                            + " has no bulk OUT endpoint"@,
                    ),
                )
            } else {
                exact_choice(devices, vid, pid, from) == Ok::<DeviceCandidate, ErrorView>(
                    DeviceCandidate {
                        device: k as usize,
                        vendor_id: vid,
                        product_id: pid,
                        endpoint: if o.printer is Some {
                            o.printer->0
                        } else {
                            o.bulk_out->0
                        },
                    },
                )
            },
        },
        (forall|j: int| from <= j < devices.len() ==> !has_ids(#[trigger] devices[j], vid, pid))
            ==> exact_choice(devices, vid, pid, from) is Err,
    decreases devices.len() - from,
{
    if from < devices.len() {
        law_a_printer_with_ids_is_taken(devices, vid, pid, from + 1, k, configurations);
        if forall|j: int| from <= j < devices.len() ==> !has_ids(#[trigger] devices[j], vid, pid) {
            assert(!has_ids(devices[from], vid, pid));
        }
    }
}

/// The way out of a device that is no printer by its class.
pub open spec fn other_way_out(d: DeviceView) -> Option<EndpointSelection> {
    match d {
        DeviceView::Unread(_) => None,
        DeviceView::Read { vendor_id, product_id, configurations } => match endpoints_of(
            vendor_id,
            product_id,
            configurations,
            false,
        ) {
            Ok(o) => o.bulk_out,
            Err(_) => None,
        },
    }
}

/// Without any device of the printer class, the first with a bulk OUT endpoint is taken; without
/// any of those there is an error.
pub proof fn law_any_way_out_is_taken_then(
    devices: Seq<DeviceView>,
    from: int,
    s: Search,
    k: int,
)
    requires
        0 <= from <= devices.len() <= usize::MAX,
        forall|j: int|
            from <= j < devices.len() ==> printer_interface(#[trigger] devices[j]) is None,
    ensures
        s.fallback matches Some(c) ==> automatic_choice(devices, from, s) == Ok::<
            DeviceCandidate,
            ErrorView,
        >(c),
        s.fallback is None && from <= k < devices.len() && other_way_out(devices[k]) is Some && (
        forall|j: int| from <= j < k ==> other_way_out(#[trigger] devices[j]) is None) ==> {
            &&& automatic_choice(devices, from, s) matches Ok(c)
            &&& c.device == k
            &&& c.endpoint == other_way_out(devices[k])->0
            &&& has_ids(devices[k], c.vendor_id, c.product_id)
        },
        s.fallback is None && (forall|j: int|
            from <= j < devices.len() ==> other_way_out(#[trigger] devices[j]) is None)
            ==> automatic_choice(devices, from, s) is Err,
    decreases devices.len() - from,
{
    if from < devices.len() {
        assert(printer_interface(devices[from]) is None);
        let next = match devices[from] {
            DeviceView::Unread(t) => Search {
                descriptor_error: Some("cannot read USB device descriptor: "@ + t),
                ..s
            },
            DeviceView::Read { vendor_id, product_id, configurations } => match endpoints_of(
                vendor_id,
                product_id,
                configurations,
                false,
            ) {
                Err(e) => Search { config_error: Some(error_text(e)), ..s },
                Ok(o) => match o.bulk_out {
                    Some(endpoint) if s.fallback is None => Search {
                        fallback: Some(
                            DeviceCandidate {
                                device: from as usize,
                                vendor_id,
                                product_id,
                                endpoint,
                            },
                        ),
                        ..s
                    },
                    _ => s,
                },
            },
        };
        law_any_way_out_is_taken_then(devices, from + 1, next, k);
        if s.fallback is None && from < k && (forall|j: int|
            from <= j < k ==> other_way_out(#[trigger] devices[j]) is None) {
            assert(other_way_out(devices[from]) is None);
        }
        if forall|j: int| from <= j < devices.len() ==> other_way_out(#[trigger] devices[j]) is None {
            assert(other_way_out(devices[from]) is None);
        }
    }
}

/// Both ids have to be given for a printer to be asked for by them; a printer of the class is then
/// named with the ids of its device.
pub proof fn law_two_ids_name_a_printer(
    devices: Seq<DeviceView>,
    vid: u16,
    pid: u16,
    target: PrinterTarget,
)
    ensures
        choice(devices, PrinterTarget { vendor_id: Some(vid), product_id: Some(pid) })
            == exact_choice(devices, vid, pid, 0),
        target.vendor_id is None || target.product_id is None ==> choice(devices, target)
            == automatic_choice(
            devices,
            0,
            Search { fallback: None, descriptor_error: None, config_error: None },
        ),
{
}

/// A chosen device is named with its own ids.
pub proof fn law_a_choice_names_its_device(devices: Seq<DeviceView>, from: int, s: Search)
    requires
        0 <= from <= devices.len() <= usize::MAX,
        s.fallback matches Some(c) ==> c.device < devices.len() && has_ids(
            devices[c.device as int],
            c.vendor_id,
            c.product_id,
        ),
    ensures
        automatic_choice(devices, from, s) matches Ok(c) ==> c.device < devices.len() && has_ids(
            devices[c.device as int],
            c.vendor_id,
            c.product_id,
        ),
    decreases devices.len() - from,
{
    if from < devices.len() {
        match devices[from] {
            DeviceView::Unread(t) => {
                law_a_choice_names_its_device(
                    devices,
                    from + 1,
                    Search {
                        descriptor_error: Some("cannot read USB device descriptor: "@ + t),
                        ..s
                    },
                );
            },
            DeviceView::Read { vendor_id, product_id, configurations } => match endpoints_of(
                vendor_id,
                product_id,
                configurations,
                false,
            ) {
                Err(e) => {
                    law_a_choice_names_its_device(
                        devices,
                        from + 1,
                        Search { config_error: Some(error_text(e)), ..s },
                    );
                },
                Ok(o) => match o.bulk_out {
                    Some(endpoint) if s.fallback is None => {
                        law_a_choice_names_its_device(
                            devices,
                            from + 1,
                            Search {
                                fallback: Some(
                                    DeviceCandidate {
                                        device: from as usize,
                                        vendor_id,
                                        product_id,
                                        endpoint,
                                    },
                                ),
                                ..s
                            },
                        );
                    },
                    _ => {
                        law_a_choice_names_its_device(devices, from + 1, s);
                    },
                },
            },
        }
    }
}

/// A device is opened by claiming its interface: before it the configuration is set if it is not
/// active and the kernel driver detached if that is wanted, and behind it the alternate setting
/// is selected if it is not the first.
pub proof fn law_a_device_is_opened_in_order(active: u8, s: EndpointSelection, detach: bool)
    ensures
        ({
            let steps = opening(active, s, detach);
            let set = if active != s.configuration { 1int } else { 0 };
            let claim = set + if detach { 1int } else { 0 };
            &&& steps.len() == claim + 1 + if s.alternate_setting != 0 { 1int } else { 0 }
            &&& active != s.configuration ==> steps[0] == OpenStep::SetConfiguration(
                s.configuration,
            )
            &&& detach ==> steps[set] == OpenStep::AutoDetach
            &&& steps[claim] == OpenStep::ClaimInterface(s.interface)
            &&& s.alternate_setting != 0 ==> steps[claim + 1] == (OpenStep::SetAlternate {
                interface: s.interface,
                setting: s.alternate_setting,
            })
        }),
{
}

/// A job goes out in pieces of 16384 bytes, in order, the last one with what is left.
pub proof fn law_a_job_goes_out_in_pieces(data: Seq<u8>, size: int)
    requires
        size > 0,
    ensures
        USB_WRITE_CHUNK_SIZE == 16384,
        data.len() == 0 ==> chunks_of(data, size).len() == 0,
        0 < data.len() <= size ==> chunks_of(data, size) == seq![data],
        data.len() > size ==> {
            &&& chunks_of(data, size).len() > 0
            &&& chunks_of(data, size)[0] == data.take(size)
            &&& chunks_of(data, size).skip(1) == chunks_of(data.skip(size), size)
        },
{
    if data.len() > size {
        assert(chunks_of(data, size).skip(1) =~= chunks_of(data.skip(size), size));
    }
}

/// What failed on the way to the device is named, with the device and the reason.
pub proof fn law_open_errors_name_the_step(n: u8, m: u8, vid: u16, pid: u16, detail: Seq<char>)
    ensures
        ({
            let on = "USB "@ + hex4(vid, false) + ":"@ + hex4(pid, false) + ": "@ + detail;
            &&& open_error_text(OpenStep::Open, vid, pid, detail) == "cannot open "@ + on
            &&& open_error_text(OpenStep::ReadConfiguration, vid, pid, detail)
                == "cannot read active configuration for "@ + on
            &&& open_error_text(OpenStep::SetConfiguration(n), vid, pid, detail)
                == "cannot select configuration "@ + decimal(n as int) + " on "@ + on
            &&& open_error_text(OpenStep::AutoDetach, vid, pid, detail)
                == "cannot enable kernel-driver auto-detach for "@ + on
            &&& open_error_text(OpenStep::ClaimInterface(n), vid, pid, detail)
                == "cannot claim interface "@ + decimal(n as int) + " on "@ + on
            &&& open_error_text(
                OpenStep::SetAlternate { interface: n, setting: m },
                vid,
                pid,
                detail,
            ) == "cannot select alternate setting "@ + decimal(m as int) + " on interface "@
                + decimal(n as int) + " of "@ + on
            &&& endpoint_name(n, vid, pid) == "endpoint 0x"@ + hex2(n, false) + " on "@ + ("USB "@
                + hex4(vid, false) + ":"@ + hex4(pid, false))
        }),
{
}

/// An error on the search says what could not be read last, where something could not.
pub proof fn law_search_errors_tell_the_last_fault(
    devices: Seq<DeviceView>,
    d: DeviceView,
    vid: u16,
    pid: u16,
    s: Search,
    text: Seq<char>,
)
    ensures
        last_unread(Seq::empty()) is None,
        d is Read ==> last_unread(devices.push(d)) == last_unread(devices),
        last_unread(devices.push(DeviceView::Unread(text))) == Some(
            "cannot read USB device descriptor: "@ + text,
        ),
        exact_choice(devices, vid, pid, devices.len() as int) == Err::<DeviceCandidate, ErrorView>(
            ErrorView::Print(
                "USB printer "@ + hex4(vid, false) + ":"@ + hex4(pid, false) + " not found"@ + (
                match last_unread(devices) {
                    Some(t) => "; last USB error: "@ + t,
                    None => ""@,
                }),
            ),
        ),
        s.fallback is None ==> automatic_choice(devices, devices.len() as int, s) == Err::<
            DeviceCandidate,
            ErrorView,
        >(
            ErrorView::Print(
                "no USB printer-class interface or bulk OUT endpoint found"@ + (
                match s.config_error {
                    Some(t) => "; last USB error: "@ + t,
                    None => match s.descriptor_error {
                        Some(t) => "; last USB error: "@ + t,
                        None => ""@,
                    },
                }),
            ),
        ),
{
    assert(devices.push(d).drop_last() =~= devices);
}

} // verus!
