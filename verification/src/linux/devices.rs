//! Input device identity, selection and rescans.
use vstd::prelude::*;

use super::evdev::{BTN_LEFT, REL_HWHEEL_HI_RES, REL_WHEEL_HI_RES, REL_X, REL_Y};
use crate::codes::CodeSet;
use crate::key_names::{linux_key, Key};
use crate::ordered::{precedes, shortest_forms_come_in_path_order, OrderedMap};
use crate::paths::{
    normalized, optional_path, path_of, path_precedes, same_path, shortest_forms_stay,
};
use crate::text::{copy_optional_text, same_optional_text, same_text, text_of};

verus! {

pub const BUS_VIRTUAL: u16 = 0x06;

pub const KEY_A: u16 = 30;

pub const KEY_ENTER: u16 = 28;

pub const ZFLOW_VENDOR_ID: u16 = 0x1209;

pub const ZFLOW_KEYBOARD_PRODUCT_ID: u16 = 0x5a01;

pub const ZFLOW_POINTER_PRODUCT_ID: u16 = 0x5a02;

pub const ZFLOW_TOUCHPAD_PRODUCT_ID: u16 = 0x5a03;

pub const ZFLOW_DEVICE_VERSION: u16 = 1;

pub const ZFLOW_KEYBOARD_NAME: &'static str = "zflow remote keyboard";

pub const ZFLOW_POINTER_NAME: &'static str = "zflow remote pointer";

pub const ZFLOW_TOUCHPAD_NAME: &'static str = "zflow remote touchpad";

pub const ZFLOW_KEYBOARD_PHYS: &'static str = "zflow/remote/keyboard";

pub const ZFLOW_POINTER_PHYS: &'static str = "zflow/remote/pointer";

pub const ZFLOW_TOUCHPAD_PHYS: &'static str = "zflow/remote/touchpad";

#[derive(Clone, Copy, Debug, PartialEq, Eq, Structural)]
pub enum VirtualDeviceRole {
    Keyboard,
    Pointer,
    Touchpad,
}

impl VirtualDeviceRole {
    pub open spec fn product_spec(self) -> u16 {
        match self {
            VirtualDeviceRole::Keyboard => ZFLOW_KEYBOARD_PRODUCT_ID,
            VirtualDeviceRole::Pointer => ZFLOW_POINTER_PRODUCT_ID,
            VirtualDeviceRole::Touchpad => ZFLOW_TOUCHPAD_PRODUCT_ID,
        }
    }

    pub open spec fn name_spec(self) -> Seq<char> {
        match self {
            VirtualDeviceRole::Keyboard => ZFLOW_KEYBOARD_NAME@,
            VirtualDeviceRole::Pointer => ZFLOW_POINTER_NAME@,
            VirtualDeviceRole::Touchpad => ZFLOW_TOUCHPAD_NAME@,
        }
    }

    pub open spec fn physical_path_spec(self) -> Seq<char> {
        match self {
            VirtualDeviceRole::Keyboard => ZFLOW_KEYBOARD_PHYS@,
            VirtualDeviceRole::Pointer => ZFLOW_POINTER_PHYS@,
            VirtualDeviceRole::Touchpad => ZFLOW_TOUCHPAD_PHYS@,
        }
    }

    pub fn product_id(self) -> (result: u16)
        ensures
            result == self.product_spec(),
    {
        match self {
            VirtualDeviceRole::Keyboard => ZFLOW_KEYBOARD_PRODUCT_ID,
            VirtualDeviceRole::Pointer => ZFLOW_POINTER_PRODUCT_ID,
            VirtualDeviceRole::Touchpad => ZFLOW_TOUCHPAD_PRODUCT_ID,
        }
    }

    pub fn name(self) -> (result: &'static str)
        ensures
            result@ == self.name_spec(),
    {
        match self {
            VirtualDeviceRole::Keyboard => ZFLOW_KEYBOARD_NAME,
            VirtualDeviceRole::Pointer => ZFLOW_POINTER_NAME,
            VirtualDeviceRole::Touchpad => ZFLOW_TOUCHPAD_NAME,
        }
    }

    pub fn physical_path(self) -> (result: &'static str)
        ensures
            result@ == self.physical_path_spec(),
    {
        match self {
            VirtualDeviceRole::Keyboard => ZFLOW_KEYBOARD_PHYS,
            VirtualDeviceRole::Pointer => ZFLOW_POINTER_PHYS,
            VirtualDeviceRole::Touchpad => ZFLOW_TOUCHPAD_PHYS,
        }
    }
}

/// Bus and product identity of an input device.
#[derive(Clone, Copy, Debug, PartialEq, Eq, Structural)]
pub struct InputId {
    pub bus: u16,
    pub vendor: u16,
    pub product: u16,
    pub version: u16,
}

/// What an opened device node tells about itself.
#[derive(Debug)]
pub struct DeviceDescription {
    pub name: Option<String>,
    pub physical_path: Option<String>,
    pub unique_name: Option<String>,
    pub id: InputId,
    pub keys: Option<CodeSet>,
    pub relative_axes: Option<CodeSet>,
}

#[derive(Debug, PartialEq, Eq)]
pub struct DeviceInfo {
    pub path: String,
    pub name: Option<String>,
    pub physical_path: Option<String>,
    pub unique_name: Option<String>,
    pub bus: u16,
    pub vendor: u16,
    pub product: u16,
    pub version: u16,
    pub has_keyboard_keys: bool,
    pub has_pointer_buttons: bool,
    pub has_relative_pointer: bool,
    pub has_high_resolution_wheel: bool,
}

/// A device's identity as mathematical values.
pub struct DeviceModel {
    pub path: Seq<char>,
    pub name: Option<Seq<char>>,
    pub physical_path: Option<Seq<char>>,
    pub unique_name: Option<Seq<char>>,
    pub id: InputId,
    pub has_keyboard_keys: bool,
    pub has_pointer_buttons: bool,
    pub has_relative_pointer: bool,
    pub has_high_resolution_wheel: bool,
}

impl DeviceModel {
    pub open spec fn has_role(self, role: VirtualDeviceRole) -> bool {
        &&& self.id.product == role.product_spec()
        &&& self.name == Some(role.name_spec())
        &&& self.physical_path == Some(role.physical_path_spec())
    }

    /// The role of one of zflow's own virtual devices. Every identifier has to
    /// match, so a physical device is never mistaken for one.
    pub open spec fn zflow_role(self) -> Option<VirtualDeviceRole> {
        if self.id.bus != BUS_VIRTUAL || self.id.vendor != ZFLOW_VENDOR_ID || self.id.version
            != ZFLOW_DEVICE_VERSION {
            None
        } else if self.has_role(VirtualDeviceRole::Keyboard) {
            Some(VirtualDeviceRole::Keyboard)
        } else if self.has_role(VirtualDeviceRole::Pointer) {
            Some(VirtualDeviceRole::Pointer)
        } else if self.has_role(VirtualDeviceRole::Touchpad) {
            Some(VirtualDeviceRole::Touchpad)
        } else {
            None
        }
    }
}

impl View for DeviceInfo {
    type V = DeviceModel;

    open spec fn view(&self) -> DeviceModel {
        DeviceModel {
            path: path_of(self.path@),
            name: text_of(self.name),
            physical_path: text_of(self.physical_path),
            unique_name: text_of(self.unique_name),
            id: InputId {
                bus: self.bus,
                vendor: self.vendor,
                product: self.product,
                version: self.version,
            },
            has_keyboard_keys: self.has_keyboard_keys,
            has_pointer_buttons: self.has_pointer_buttons,
            has_relative_pointer: self.has_relative_pointer,
            has_high_resolution_wheel: self.has_high_resolution_wheel,
        }
    }
}

pub open spec fn has_code(codes: Option<CodeSet>, code: u16) -> bool {
    codes matches Some(codes) && codes@.contains(code as u32)
}

fn supports(codes: &Option<CodeSet>, code: u16) -> (result: bool)
    ensures
        result == has_code(*codes, code),
{
    match codes {
        Some(codes) => codes.contains(code as u32),
        None => false,
    }
}

impl DeviceInfo {
    /// Classifies an opened device by the keys and axes that it supports.
    pub fn from_device(path: String, device: &DeviceDescription) -> (result: Self)
        ensures
            result.path == path,
            result@ == (DeviceModel {
                path: path_of(path@),
                name: text_of(device.name),
                physical_path: text_of(device.physical_path),
                unique_name: text_of(device.unique_name),
                id: device.id,
                has_keyboard_keys: has_code(device.keys, KEY_A) || has_code(
                    device.keys,
                    KEY_ENTER,
                ),
                has_pointer_buttons: has_code(device.keys, BTN_LEFT),
                has_relative_pointer: has_code(device.relative_axes, REL_X) && has_code(
                    device.relative_axes,
                    REL_Y,
                ),
                has_high_resolution_wheel: has_code(device.relative_axes, REL_WHEEL_HI_RES)
                    || has_code(device.relative_axes, REL_HWHEEL_HI_RES),
            }),
    {
        DeviceInfo {
            path,
            name: copy_optional_text(&device.name),
            physical_path: copy_optional_text(&device.physical_path),
            unique_name: copy_optional_text(&device.unique_name),
            bus: device.id.bus,
            vendor: device.id.vendor,
            product: device.id.product,
            version: device.id.version,
            has_keyboard_keys: supports(&device.keys, KEY_A) || supports(&device.keys, KEY_ENTER),
            has_pointer_buttons: supports(&device.keys, BTN_LEFT),
            has_relative_pointer: supports(&device.relative_axes, REL_X) && supports(
                &device.relative_axes,
                REL_Y,
            ),
            has_high_resolution_wheel: supports(&device.relative_axes, REL_WHEEL_HI_RES)
                || supports(&device.relative_axes, REL_HWHEEL_HI_RES),
        }
    }

    pub fn input_id(&self) -> (result: InputId)
        ensures
            result == self@.id,
    {
        InputId {
            bus: self.bus,
            vendor: self.vendor,
            product: self.product,
            version: self.version,
        }
    }

    fn has_role(&self, role: VirtualDeviceRole) -> (result: bool)
        ensures
            result == self@.has_role(role),
    {
        let named = match &self.name {
            Some(name) => same_text(name.as_str(), role.name()),
            None => false,
        };
        let located = match &self.physical_path {
            Some(path) => same_text(path.as_str(), role.physical_path()),
            None => false,
        };
        self.product == role.product_id() && named && located
    }

    pub fn zflow_role(&self) -> (result: Option<VirtualDeviceRole>)
        ensures
            result == self@.zflow_role(),
    {
        if self.bus != BUS_VIRTUAL || self.vendor != ZFLOW_VENDOR_ID || self.version
            != ZFLOW_DEVICE_VERSION {
            None
        } else if self.has_role(VirtualDeviceRole::Keyboard) {
            Some(VirtualDeviceRole::Keyboard)
        } else if self.has_role(VirtualDeviceRole::Pointer) {
            Some(VirtualDeviceRole::Pointer)
        } else if self.has_role(VirtualDeviceRole::Touchpad) {
            Some(VirtualDeviceRole::Touchpad)
        } else {
            None
        }
    }

    pub fn is_zflow_virtual(&self) -> (result: bool)
        ensures
            result == self@.zflow_role() is Some,
    {
        self.zflow_role().is_some()
    }

    pub fn copy(&self) -> (result: Self)
        ensures
            result@ == self@,
            result.path@ == self.path@,
    {
        DeviceInfo {
            path: self.path.clone(),
            name: copy_optional_text(&self.name),
            physical_path: copy_optional_text(&self.physical_path),
            unique_name: copy_optional_text(&self.unique_name),
            bus: self.bus,
            vendor: self.vendor,
            product: self.product,
            version: self.version,
            has_keyboard_keys: self.has_keyboard_keys,
            has_pointer_buttons: self.has_pointer_buttons,
            has_relative_pointer: self.has_relative_pointer,
            has_high_resolution_wheel: self.has_high_resolution_wheel,
        }
    }

    pub fn same_as(&self, other: &DeviceInfo) -> (result: bool)
        ensures
            result == (self@ == other@),
    {
        same_path(self.path.as_str(), other.path.as_str()) && same_optional_text(
            &self.name,
            &other.name,
        ) && same_optional_text(&self.physical_path, &other.physical_path)
            && same_optional_text(&self.unique_name, &other.unique_name) && self.bus == other.bus
            && self.vendor == other.vendor && self.product == other.product && self.version
            == other.version && self.has_keyboard_keys == other.has_keyboard_keys
            && self.has_pointer_buttons == other.has_pointer_buttons && self.has_relative_pointer
            == other.has_relative_pointer && self.has_high_resolution_wheel
            == other.has_high_resolution_wheel
    }
}

#[derive(Debug, PartialEq, Eq)]
pub struct DeviceOpenFailure {
    pub path: String,
    pub error: String,
}

#[derive(Debug)]
pub struct DeviceScan {
    pub devices: Vec<DeviceInfo>,
    pub failures: Vec<DeviceOpenFailure>,
}

pub open spec fn device_models(devices: Seq<DeviceInfo>) -> Seq<DeviceModel> {
    Seq::new(devices.len(), |i: int| devices[i]@)
}

pub open spec fn borrowed_models(devices: Seq<&DeviceInfo>) -> Seq<DeviceModel> {
    Seq::new(devices.len(), |i: int| devices[i]@)
}

/// Devices that are not zflow's own, in scan order.
pub open spec fn physical(devices: Seq<DeviceModel>) -> Seq<DeviceModel>
    decreases devices.len(),
{
    if devices.len() == 0 {
        Seq::empty()
    } else if devices.last().zflow_role() is Some {
        physical(devices.drop_last())
    } else {
        physical(devices.drop_last()).push(devices.last())
    }
}

impl Default for DeviceScan {
    fn default() -> (result: Self)
        ensures
            result.devices@.len() == 0,
            result.failures@.len() == 0,
    {
        DeviceScan { devices: Vec::new(), failures: Vec::new() }
    }
}

impl DeviceScan {
    pub fn physical_devices(&self) -> (result: Vec<&DeviceInfo>)
        ensures
            borrowed_models(result@) == physical(device_models(self.devices@)),
    {
        let mut result: Vec<&DeviceInfo> = Vec::new();
        let ghost models = device_models(self.devices@);
        let mut at: usize = 0;
        assert(borrowed_models(result@) =~= physical(models.take(0)));
        while at < self.devices.len()
            invariant
                models == device_models(self.devices@),
                at <= self.devices@.len(),
                borrowed_models(result@) == physical(models.take(at as int)),
            decreases self.devices@.len() - at,
        {
            let ghost before = result@;
            assert(models.take(at + 1).drop_last() =~= models.take(at as int));
            if !self.devices[at].is_zflow_virtual() {
                result.push(&self.devices[at]);
                assert(borrowed_models(result@) =~= borrowed_models(before).push(
                    models[at as int],
                ));
            }
            at = at + 1;
        }
        assert(models.take(at as int) =~= models);
        result
    }
}

/// A file name of the form `event` followed by decimal digits.
pub open spec fn names_event_node(name: Seq<char>) -> bool {
    &&& name.len() > 5
    &&& name.take(5) == seq!['e', 'v', 'e', 'n', 't']
    &&& forall|i: int| 5 <= i < name.len() ==> '0' <= #[trigger] name[i] <= '9'
}

/// Whether a file in the input directory is an event device node.
pub fn is_event_node(name: &str) -> (result: bool)
    ensures
        result == names_event_node(name@),
{
    let len: usize = name.unicode_len();
    if len <= 5 {
        return false;
    }
    if name.get_char(0) != 'e' || name.get_char(1) != 'v' || name.get_char(2) != 'e'
        || name.get_char(3) != 'n' || name.get_char(4) != 't' {
        assert(name@.take(5)[0] == name@[0]);
        assert(name@.take(5)[1] == name@[1]);
        assert(name@.take(5)[2] == name@[2]);
        assert(name@.take(5)[3] == name@[3]);
        assert(name@.take(5)[4] == name@[4]);
        return false;
    }
    assert(name@.take(5) =~= seq!['e', 'v', 'e', 'n', 't']);
    let mut at: usize = 5;
    while at < len
        invariant
            len == name@.len(),
            5 <= at <= len,
            forall|i: int| 5 <= i < at ==> '0' <= #[trigger] name@[i] <= '9',
        decreases len - at,
    {
        let c = name.get_char(at);
        if !('0' <= c && c <= '9') {
            return false;
        }
        at = at + 1;
    }
    true
}

#[derive(Debug, PartialEq, Eq)]
pub struct DeviceSelector {
    pub path: Option<String>,
    pub name: Option<String>,
    pub physical_path: Option<String>,
    pub unique_name: Option<String>,
}

/// A selector's criteria as mathematical values.
pub struct SelectorModel {
    pub path: Option<Seq<char>>,
    pub name: Option<Seq<char>>,
    pub physical_path: Option<Seq<char>>,
    pub unique_name: Option<Seq<char>>,
}

/// An absent criterion accepts everything, a present one needs the same value.
pub open spec fn accepts(criterion: Option<Seq<char>>, value: Option<Seq<char>>) -> bool {
    criterion is None || criterion == value
}

impl SelectorModel {
    pub open spec fn matches_spec(self, device: DeviceModel) -> bool {
        &&& accepts(self.path, Some(device.path))
        &&& accepts(self.name, device.name)
        &&& accepts(self.physical_path, device.physical_path)
        &&& accepts(self.unique_name, device.unique_name)
    }

    pub open spec fn empty_spec(self) -> bool {
        self.path is None && self.name is None && self.physical_path is None
            && self.unique_name is None
    }

    /// Some device is selected.
    pub open spec fn finds(self, devices: Seq<DeviceModel>) -> bool {
        exists|i: int| 0 <= i < devices.len() && self.matches_spec(#[trigger] devices[i])
    }
}

impl View for DeviceSelector {
    type V = SelectorModel;

    open spec fn view(&self) -> SelectorModel {
        SelectorModel {
            path: optional_path(self.path),
            name: text_of(self.name),
            physical_path: text_of(self.physical_path),
            unique_name: text_of(self.unique_name),
        }
    }
}

fn criterion_accepts(criterion: &Option<String>, value: &Option<String>) -> (result: bool)
    ensures
        result == accepts(text_of(*criterion), text_of(*value)),
{
    match criterion {
        None => true,
        Some(_) => same_optional_text(criterion, value),
    }
}

impl DeviceSelector {
    pub fn path(path: String) -> (result: Self)
        ensures
            result.path == Some(path),
            result@ == (SelectorModel {
                path: Some(path_of(path@)),
                name: None,
                physical_path: None,
                unique_name: None,
            }),
    {
        DeviceSelector { path: Some(path), name: None, physical_path: None, unique_name: None }
    }

    pub fn matches(&self, device: &DeviceInfo) -> (result: bool)
        ensures
            result == self@.matches_spec(device@),
    {
        let path_accepts = match &self.path {
            Some(path) => same_path(path.as_str(), device.path.as_str()),
            None => true,
        };
        path_accepts && criterion_accepts(&self.name, &device.name) && criterion_accepts(
            &self.physical_path,
            &device.physical_path,
        ) && criterion_accepts(&self.unique_name, &device.unique_name)
    }

    pub fn is_empty(&self) -> (result: bool)
        ensures
            result == self@.empty_spec(),
    {
        self.path.is_none() && self.name.is_none() && self.physical_path.is_none()
            && self.unique_name.is_none()
    }

    pub fn copy(&self) -> (result: Self)
        ensures
            result@ == self@,
            text_of(result.path) == text_of(self.path),
    {
        DeviceSelector {
            path: copy_optional_text(&self.path),
            name: copy_optional_text(&self.name),
            physical_path: copy_optional_text(&self.physical_path),
            unique_name: copy_optional_text(&self.unique_name),
        }
    }
}

#[derive(Debug, PartialEq, Eq)]
pub enum SelectionError {
    /// An empty selector would match every input device.
    EmptySelector { index: usize },
    /// A selector matched no physical input device.
    NoMatch { index: usize, selector: DeviceSelector },
}

pub open spec fn selector_models(selectors: Seq<DeviceSelector>) -> Seq<SelectorModel> {
    Seq::new(selectors.len(), |i: int| selectors[i]@)
}

/// Devices among the first `count` that the selector matches, added by path; a
/// later device replaces an earlier one at the same path.
pub open spec fn with_matches(
    selected: Map<Seq<char>, DeviceModel>,
    selector: SelectorModel,
    devices: Seq<DeviceModel>,
    count: nat,
) -> Map<Seq<char>, DeviceModel>
    decreases count,
{
    if count == 0 {
        selected
    } else {
        let before = with_matches(selected, selector, devices, (count - 1) as nat);
        if selector.matches_spec(devices[count - 1]) {
            before.insert(devices[count - 1].path, devices[count - 1])
        } else {
            before
        }
    }
}

/// Devices that the first `count` selectors select, by path.
pub open spec fn selection(
    selectors: Seq<SelectorModel>,
    devices: Seq<DeviceModel>,
    count: nat,
) -> Map<Seq<char>, DeviceModel>
    decreases count,
{
    if count == 0 {
        Map::empty()
    } else {
        with_matches(
            selection(selectors, devices, (count - 1) as nat),
            selectors[count - 1],
            devices,
            devices.len(),
        )
    }
}

/// `list` holds the values of `map` in path order.
pub open spec fn lists_map(list: Seq<DeviceModel>, map: Map<Seq<char>, DeviceModel>) -> bool {
    &&& forall|i: int, j: int|
        0 <= i < j < list.len() ==> path_precedes(
            (#[trigger] list[i]).path,
            (#[trigger] list[j]).path,
        )
    &&& forall|i: int|
        0 <= i < list.len() ==> map.contains_pair((#[trigger] list[i]).path, list[i])
    &&& forall|path: Seq<char>| #[trigger]
        map.contains_key(path) ==> exists|i: int|
            0 <= i < list.len() && (#[trigger] list[i]).path == path
}

/// A selector that cannot be resolved.
pub open spec fn unresolved(selector: SelectorModel, devices: Seq<DeviceModel>) -> bool {
    selector.empty_spec() || !selector.finds(devices)
}

/// The index of the selector that a selection error is about.
pub open spec fn error_index(error: SelectionError) -> int {
    match error {
        SelectionError::EmptySelector { index } => index as int,
        SelectionError::NoMatch { index, .. } => index as int,
    }
}

pub open spec fn modelled(map: Map<Seq<char>, DeviceInfo>) -> Map<Seq<char>, DeviceModel> {
    map.map_values(|device: DeviceInfo| device@)
}

/// Resolves a logical capture set. One selector may intentionally match several
/// nodes of a composite keyboard; duplicate paths are collapsed.
pub fn select_devices(selectors: &Vec<DeviceSelector>, scan: &DeviceScan) -> (result: Result<
    Vec<DeviceInfo>,
    SelectionError,
>)
    ensures
        ({
            let devices = physical(device_models(scan.devices@));
            let criteria = selector_models(selectors@);
            match result {
                Ok(selected) => {
                    &&& forall|i: int|
                        0 <= i < criteria.len() ==> !unresolved(#[trigger] criteria[i], devices)
                    &&& lists_map(
                        device_models(selected@),
                        selection(criteria, devices, criteria.len()),
                    )
                },
                Err(error) => {
                    let at = error_index(error);
                    &&& 0 <= at < criteria.len()
                    &&& unresolved(criteria[at], devices)
                    &&& forall|i: int|
                        0 <= i < at ==> !unresolved(#[trigger] criteria[i], devices)
                    &&& match error {
                        SelectionError::EmptySelector { .. } => criteria[at].empty_spec(),
                        SelectionError::NoMatch { selector, .. } => !criteria[at].empty_spec()
                            && selector@ == criteria[at],
                    }
                },
            }
        }),
{
    let physical_devices: Vec<&DeviceInfo> = scan.physical_devices();
    let ghost devices = physical(device_models(scan.devices@));
    let ghost criteria = selector_models(selectors@);
    let mut selected: OrderedMap<DeviceInfo> = OrderedMap::new(true);
    let mut index: usize = 0;
    assert(modelled(selected@) =~= Map::<Seq<char>, DeviceModel>::empty());
    while index < selectors.len()
        invariant
            devices == borrowed_models(physical_devices@),
            devices == physical(device_models(scan.devices@)),
            criteria == selector_models(selectors@),
            index <= selectors@.len(),
            selected.wf(),
            selected.by_path(),
            keyed_by_path(selected@),
            modelled(selected@) == selection(criteria, devices, index as nat),
            forall|i: int| 0 <= i < index ==> !unresolved(#[trigger] criteria[i], devices),
        decreases selectors@.len() - index,
    {
        let selector = &selectors[index];
        let ghost criterion = criteria[index as int];
        assert(criterion == selector@);
        if selector.is_empty() {
            return Err(SelectionError::EmptySelector { index });
        }
        let ghost before = modelled(selected@);
        let mut found = false;
        let mut at: usize = 0;
        while at < physical_devices.len()
            invariant
                devices == borrowed_models(physical_devices@),
                criterion == selector@,
                at <= physical_devices@.len(),
                selected.wf(),
                selected.by_path(),
                keyed_by_path(selected@),
                modelled(selected@) == with_matches(before, criterion, devices, at as nat),
                found <==> exists|i: int|
                    0 <= i < at && criterion.matches_spec(#[trigger] devices[i]),
            decreases physical_devices@.len() - at,
        {
            let device: &DeviceInfo = physical_devices[at];
            assert(devices[at as int] == device@);
            if selector.matches(device) {
                let ghost earlier = selected@;
                let copied = device.copy();
                let ghost copied_model = copied@;
                found = true;
                selected.insert(normalized(device.path.as_str()), copied);
                assert(modelled(selected@) =~= modelled(earlier).insert(
                    device@.path,
                    copied_model,
                ));
                assert(criterion.matches_spec(devices[at as int]));
            }
            at = at + 1;
        }
        if !found {
            return Err(SelectionError::NoMatch { index, selector: selector.copy() });
        }
        assert(criterion.finds(devices));
        index = index + 1;
    }
    let listed = list_devices(&selected);
    Ok(listed)
}

/// Every device is stored under its own path.
pub open spec fn keyed_by_path(map: Map<Seq<char>, DeviceInfo>) -> bool {
    forall|path: Seq<char>| map.contains_key(path) ==> (#[trigger] map[path])@.path == path
}

proof fn devices_come_in_path_order(left: DeviceInfo, right: DeviceInfo)
    requires
        precedes(left@.path, right@.path, true),
    ensures
        path_precedes(left@.path, right@.path),
{
    shortest_forms_stay(left.path@);
    shortest_forms_stay(right.path@);
    shortest_forms_come_in_path_order(left@.path, right@.path);
}

fn list_devices(map: &OrderedMap<DeviceInfo>) -> (list: Vec<DeviceInfo>)
    requires
        map.wf(),
        map.by_path(),
        keyed_by_path(map@),
    ensures
        lists_map(device_models(list@), modelled(map@)),
{
    let count: usize = map.len();
    let mut list: Vec<DeviceInfo> = Vec::new();
    let mut at: usize = 0;
    while at < count
        invariant
            map.wf(),
            count == map.keys().len(),
            at <= count,
            list@.len() == at,
            forall|i: int| 0 <= i < at ==> (#[trigger] list@[i])@ == map.values()[i]@,
        decreases count - at,
    {
        list.push(map.value_at(at).copy());
        at = at + 1;
    }
    proof {
        let models = device_models(list@);
        let target = modelled(map@);
        assert forall|i: int| 0 <= i < models.len() implies target.contains_pair(
            (#[trigger] models[i]).path,
            models[i],
        ) && models[i].path == map.keys()[i] by {
            map.entry_in_map(i);
            assert(list@[i]@ == map.values()[i]@);
            assert(map@[map.keys()[i]]@.path == map.keys()[i]);
        }
        assert forall|i: int, j: int| 0 <= i < j < models.len() implies path_precedes(
            (#[trigger] models[i]).path,
            (#[trigger] models[j]).path,
        ) by {
            assert(precedes(map.keys()[i], map.keys()[j], true));
            devices_come_in_path_order(list@[i], list@[j]);
        }
        assert forall|path: Seq<char>| #[trigger] target.contains_key(path) implies exists|i: int|
            0 <= i < models.len() && (#[trigger] models[i]).path == path by {
            let k = map.key_has_position(path);
            assert(models[k].path == path);
        }
    }
    list
}

/// zflow's own virtual devices are never selected for capture.
pub proof fn virtual_devices_are_never_selected(
    selectors: Seq<SelectorModel>,
    devices: Seq<DeviceModel>,
    count: nat,
)
    requires
        count <= selectors.len(),
    ensures
        forall|path: Seq<char>|
            selection(selectors, physical(devices), count).contains_key(path) ==> (
            #[trigger] selection(selectors, physical(devices), count)[path]).zflow_role() is None,
    decreases count,
{
    if count > 0 {
        let list = physical(devices);
        virtual_devices_are_never_selected(selectors, devices, (count - 1) as nat);
        physical_has_no_role(devices);
        matches_come_from_list(
            selection(selectors, list, (count - 1) as nat),
            selectors[count - 1],
            list,
            list.len(),
        );
    }
}

proof fn physical_has_no_role(devices: Seq<DeviceModel>)
    ensures
        forall|i: int|
            0 <= i < physical(devices).len() ==> (#[trigger] physical(
                devices,
            )[i]).zflow_role() is None,
    decreases devices.len(),
{
    if devices.len() > 0 {
        physical_has_no_role(devices.drop_last());
    }
}

proof fn matches_come_from_list(
    selected: Map<Seq<char>, DeviceModel>,
    selector: SelectorModel,
    devices: Seq<DeviceModel>,
    count: nat,
)
    requires
        count <= devices.len(),
        forall|i: int| 0 <= i < devices.len() ==> (#[trigger] devices[i]).zflow_role() is None,
        forall|path: Seq<char>|
            selected.contains_key(path) ==> (#[trigger] selected[path]).zflow_role() is None,
    ensures
        forall|path: Seq<char>|
            with_matches(selected, selector, devices, count).contains_key(path) ==> (
            #[trigger] with_matches(selected, selector, devices, count)[path]).zflow_role() is None,
    decreases count,
{
    if count > 0 {
        matches_come_from_list(selected, selector, devices, (count - 1) as nat);
    }
}

#[derive(Debug, PartialEq, Eq)]
pub struct DeviceDelta {
    pub added: Vec<DeviceInfo>,
    pub removed: Vec<DeviceInfo>,
}

impl DeviceDelta {
    pub fn is_empty(&self) -> (result: bool)
        ensures
            result == (self.added@.len() == 0 && self.removed@.len() == 0),
    {
        self.added.len() == 0 && self.removed.len() == 0
    }
}

#[derive(Debug)]
pub struct RescanResult {
    pub delta: DeviceDelta,
    pub failures: Vec<DeviceOpenFailure>,
}

/// The devices of `current` by path; a later device replaces an earlier one.
pub open spec fn by_path(devices: Seq<DeviceModel>) -> Map<Seq<char>, DeviceModel>
    decreases devices.len(),
{
    if devices.len() == 0 {
        Map::empty()
    } else {
        by_path(devices.drop_last()).insert(devices.last().path, devices.last())
    }
}

/// Entries of `map` that `other` does not have with the same value.
pub open spec fn missing_from(
    map: Map<Seq<char>, DeviceModel>,
    other: Map<Seq<char>, DeviceModel>,
) -> Map<Seq<char>, DeviceModel> {
    Map::new(
        |path: Seq<char>| map.contains_key(path) && !other.contains_pair(path, map[path]),
        |path: Seq<char>| map[path],
    )
}

/// Compares periodic scans of the input directory. Times are nanoseconds of a
/// monotonic clock.
pub struct PeriodicDeviceScanner {
    interval: u64,
    last_scan: Option<u64>,
    known: OrderedMap<DeviceInfo>,
}

/// Mathematical state of a [`PeriodicDeviceScanner`].
pub struct ScannerModel {
    pub interval: u64,
    pub last_scan: Option<u64>,
    pub known: Map<Seq<char>, DeviceModel>,
}

impl View for PeriodicDeviceScanner {
    type V = ScannerModel;

    closed spec fn view(&self) -> ScannerModel {
        ScannerModel {
            interval: self.interval,
            last_scan: self.last_scan,
            known: modelled(self.known@),
        }
    }
}

impl ScannerModel {
    pub open spec fn due(self, now: u64) -> bool {
        self.last_scan matches Some(last) ==> now >= last && now - last >= self.interval
    }
}

/// What a rescan reports: new and changed devices as added, gone and changed
/// ones as removed, each in path order.
pub open spec fn reports_change(
    known: Map<Seq<char>, DeviceModel>,
    current: Map<Seq<char>, DeviceModel>,
    delta: DeviceDelta,
) -> bool {
    &&& lists_map(device_models(delta.added@), missing_from(current, known))
    &&& lists_map(device_models(delta.removed@), missing_from(known, current))
}

impl PeriodicDeviceScanner {
    /// Scans are some time apart, and each known device stands at its own path.
    pub open spec fn wf(&self) -> bool {
        self@.interval > 0 && self.has_its_devices()
    }

    pub closed spec fn has_its_devices(&self) -> bool {
        &&& self.known.wf()
        &&& self.known.by_path()
        &&& keyed_by_path(self.known@)
    }

    pub fn new(interval: u64) -> (result: Self)
        requires
            interval > 0,
        ensures
            result.wf(),
            result@ == (ScannerModel { interval, last_scan: None, known: Map::empty() }),
    {
        let result = PeriodicDeviceScanner {
            interval,
            last_scan: None,
            known: OrderedMap::new(true),
        };
        assert(result@.known =~= Map::<Seq<char>, DeviceModel>::empty());
        result
    }

    pub fn interval(&self) -> (result: u64)
        ensures
            result == self@.interval,
    {
        self.interval
    }

    pub fn is_due(&self, now: u64) -> (result: bool)
        requires
            self.wf(),
        ensures
            result == self@.due(now),
    {
        match self.last_scan {
            Some(last) => now >= last && now - last >= self.interval,
            None => true,
        }
    }

    /// Applies a fresh scan if one is due; a failed scan is handed back and is
    /// tried again at the next poll.
    pub fn poll(&mut self, now: u64, scan: Result<DeviceScan, String>) -> (result: Result<
        Option<RescanResult>,
        String,
    >)
        requires
            old(self).wf(),
        ensures
            final(self).wf(),
            !old(self)@.due(now) ==> (result matches Ok(None)) && final(self)@ == old(self)@,
            old(self)@.due(now) ==> match scan {
                Err(error) => result == Err::<Option<RescanResult>, String>(error)
                    && final(self)@ == old(self)@,
                Ok(scan) => {
                    &&& result matches Ok(Some(report)) && report.failures == scan.failures
                        && reports_change(old(self)@.known, final(self)@.known, report.delta)
                    &&& final(self)@ == (ScannerModel {
                        last_scan: Some(now),
                        known: by_path(physical(device_models(scan.devices@))),
                        ..old(self)@
                    })
                },
            },
    {
        if !self.is_due(now) {
            return Ok(None);
        }
        match self.refresh(now, scan) {
            Ok(report) => Ok(Some(report)),
            Err(error) => Err(error),
        }
    }

    /// Applies a fresh scan whether or not one is due.
    pub fn refresh(&mut self, now: u64, scan: Result<DeviceScan, String>) -> (result: Result<
        RescanResult,
        String,
    >)
        requires
            old(self).wf(),
        ensures
            final(self).wf(),
            match scan {
                Err(error) => result == Err::<RescanResult, String>(error) && final(self)@
                    == old(self)@,
                Ok(scan) => {
                    &&& result matches Ok(report) && report.failures == scan.failures
                        && reports_change(old(self)@.known, final(self)@.known, report.delta)
                    &&& final(self)@ == (ScannerModel {
                        last_scan: Some(now),
                        known: by_path(physical(device_models(scan.devices@))),
                        ..old(self)@
                    })
                },
            },
    {
        match scan {
            Ok(scan) => {
                self.last_scan = Some(now);
                Ok(self.apply_scan(scan))
            },
            Err(error) => Err(error),
        }
    }

    pub fn apply_scan(&mut self, scan: DeviceScan) -> (result: RescanResult)
        requires
            old(self).wf(),
        ensures
            final(self).wf(),
            final(self)@ == (ScannerModel {
                known: by_path(physical(device_models(scan.devices@))),
                ..old(self)@
            }),
            result.failures == scan.failures,
            reports_change(old(self)@.known, final(self)@.known, result.delta),
    {
        let mut current: OrderedMap<DeviceInfo> = OrderedMap::new(true);
        {
            let devices: Vec<&DeviceInfo> = scan.physical_devices();
            let ghost models = borrowed_models(devices@);
            let mut at: usize = 0;
            assert(modelled(current@) =~= by_path(models.take(0)));
            while at < devices.len()
                invariant
                    models == borrowed_models(devices@),
                    at <= devices@.len(),
                    current.wf(),
                    current.by_path(),
                    keyed_by_path(current@),
                    modelled(current@) == by_path(models.take(at as int)),
                decreases devices@.len() - at,
            {
                let device: &DeviceInfo = devices[at];
                let copied = device.copy();
                let ghost earlier = current@;
                let ghost copied_model = copied@;
                assert(models[at as int] == copied_model);
                current.insert(normalized(device.path.as_str()), copied);
                assert(models.take(at + 1).drop_last() =~= models.take(at as int));
                assert(modelled(current@) =~= modelled(earlier).insert(
                    copied_model.path,
                    copied_model,
                ));
                at = at + 1;
            }
            assert(models.take(at as int) =~= models);
        }
        let added = devices_missing_from(&current, &self.known);
        let removed = devices_missing_from(&self.known, &current);
        self.known = current;
        RescanResult { delta: DeviceDelta { added, removed }, failures: scan.failures }
    }

    /// Known devices in path order.
    pub fn known(&self) -> (result: Vec<DeviceInfo>)
        requires
            self.wf(),
        ensures
            lists_map(device_models(result@), self@.known),
    {
        list_devices(&self.known)
    }
}

/// A scan is not due at the moment of the scan before.
pub proof fn scans_are_some_time_apart(scanner: PeriodicDeviceScanner, now: u64)
    requires
        scanner.wf(),
        scanner@.last_scan == Some(now),
    ensures
        !scanner@.due(now),
{
}

fn devices_missing_from(
    map: &OrderedMap<DeviceInfo>,
    other: &OrderedMap<DeviceInfo>,
) -> (list: Vec<DeviceInfo>)
    requires
        map.wf(),
        map.by_path(),
        keyed_by_path(map@),
        other.wf(),
    ensures
        lists_map(device_models(list@), missing_from(modelled(map@), modelled(other@))),
{
    let ghost target = missing_from(modelled(map@), modelled(other@));
    let count: usize = map.len();
    let mut list: Vec<DeviceInfo> = Vec::new();
    let mut at: usize = 0;
    while at < count
        invariant
            map.wf(),
            map.by_path(),
            keyed_by_path(map@),
            other.wf(),
            target == missing_from(modelled(map@), modelled(other@)),
            count == map.keys().len(),
            at <= count,
            forall|i: int|
                0 <= i < list@.len() ==> target.contains_pair(
                    (#[trigger] list@[i])@.path,
                    list@[i]@,
                ),
            forall|i: int, k: int|
                0 <= i < list@.len() && at <= k < count ==> precedes(
                    (#[trigger] list@[i])@.path,
                    #[trigger] map.keys()[k],
                    true,
                ),
            forall|i: int, j: int|
                0 <= i < j < list@.len() ==> precedes(
                    (#[trigger] list@[i])@.path,
                    (#[trigger] list@[j])@.path,
                    true,
                ),
            forall|k: int|
                0 <= k < at && target.contains_key(#[trigger] map.keys()[k]) ==> exists|i: int|
                    0 <= i < list@.len() && (#[trigger] list@[i])@.path == map.keys()[k],
        decreases count - at,
    {
        let device: &DeviceInfo = map.value_at(at);
        let ghost before = list@;
        proof {
            map.entry_in_map(at as int);
            assert(map@[map.keys()[at as int]]@.path == map.keys()[at as int]);
        }
        let path = normalized(device.path.as_str());
        let kept = match other.get(path.as_str()) {
            Some(existing) => existing.same_as(device),
            None => false,
        };
        if !kept {
            list.push(device.copy());
            assert(target.contains_key(map.keys()[at as int]));
            assert(list@[before.len() as int]@ == device@);
        } else {
            assert(!target.contains_key(map.keys()[at as int]));
        }
        proof {
            assert forall|k: int|
                0 <= k < at + 1 && target.contains_key(#[trigger] map.keys()[k]) implies exists|i: int|
                0 <= i < list@.len() && (#[trigger] list@[i])@.path == map.keys()[k] by {
                if k < at {
                    let i = choose|i: int|
                        0 <= i < before.len() && (#[trigger] before[i])@.path == map.keys()[k];
                    assert(list@[i]@.path == map.keys()[k]);
                } else {
                    assert(list@[before.len() as int]@.path == map.keys()[k]);
                }
            }
        }
        at = at + 1;
    }
    proof {
        let models = device_models(list@);
        assert forall|i: int, j: int| 0 <= i < j < models.len() implies path_precedes(
            (#[trigger] models[i]).path,
            (#[trigger] models[j]).path,
        ) by {
            assert(precedes(list@[i]@.path, list@[j]@.path, true));
            devices_come_in_path_order(list@[i], list@[j]);
        }
        assert forall|path: Seq<char>| #[trigger] target.contains_key(path) implies exists|i: int|
            0 <= i < models.len() && (#[trigger] models[i]).path == path by {
            let k = map.key_has_position(path);
            assert(target.contains_key(map.keys()[k]));
            let i = choose|i: int|
                0 <= i < list@.len() && (#[trigger] list@[i])@.path == map.keys()[k];
            assert(models[i].path == path);
        }
    }
    list
}

/// Applying the same scan again changes nothing.
pub proof fn an_unchanged_scan_reports_nothing(known: Map<Seq<char>, DeviceModel>, delta: DeviceDelta)
    requires
        reports_change(known, known, delta),
    ensures
        delta.added@.len() == 0,
        delta.removed@.len() == 0,
{
    let nothing = missing_from(known, known);
    if delta.added@.len() > 0 {
        let first = device_models(delta.added@)[0];
        assert(nothing.contains_pair(first.path, first));
    }
    if delta.removed@.len() > 0 {
        let first = device_models(delta.removed@)[0];
        assert(nothing.contains_pair(first.path, first));
    }
}

/// Paths name one device each.
pub open spec fn paths_are_distinct(devices: Seq<DeviceModel>) -> bool {
    forall|i: int, j: int|
        0 <= i < j < devices.len() ==> (#[trigger] devices[i]).path != (#[trigger] devices[j]).path
}

/// The physical devices are those of the scan that are not our own.
pub proof fn physical_devices_are_not_our_own(devices: Seq<DeviceModel>, device: DeviceModel)
    ensures
        physical(devices).contains(device) <==> devices.contains(device)
            && device.zflow_role() is None,
    decreases devices.len(),
{
    if devices.len() > 0 {
        let before = devices.drop_last();
        let last = devices.last();
        physical_devices_are_not_our_own(before, device);
        let kept = physical(before);
        let now = physical(devices);
        if devices.contains(device) && device != last {
            let i = choose|i: int| 0 <= i < devices.len() && devices[i] == device;
            assert(before[i] == device);
        }
        if before.contains(device) {
            let i = choose|i: int| 0 <= i < before.len() && before[i] == device;
            assert(devices[i] == device);
        }
        assert(devices[devices.len() - 1] == last);
        if last.zflow_role() is None {
            assert(now == kept.push(last));
            assert(now[kept.len() as int] == last);
            if kept.contains(device) {
                let i = choose|i: int| 0 <= i < kept.len() && kept[i] == device;
                assert(now[i] == device);
            }
            if now.contains(device) && device != last {
                let i = choose|i: int| 0 <= i < now.len() && now[i] == device;
                assert(kept[i] == device);
            }
        }
    }
}

/// A selector matches a device exactly if whatever it names is so of the device.
pub proof fn selectors_match_what_they_name(selector: SelectorModel, device: DeviceModel)
    ensures
        selector.matches_spec(device) <==> {
            &&& selector.path matches Some(path) ==> device.path == path
            &&& selector.name matches Some(name) ==> device.name == Some(name)
            &&& selector.physical_path matches Some(place) ==> device.physical_path == Some(place)
            &&& selector.unique_name matches Some(name) ==> device.unique_name == Some(name)
        },
{
}

proof fn matches_are_added(
    selected: Map<Seq<char>, DeviceModel>,
    selector: SelectorModel,
    devices: Seq<DeviceModel>,
    count: nat,
    at: int,
)
    requires
        count <= devices.len(),
        0 <= at < devices.len(),
        paths_are_distinct(devices),
        selected.contains_key(devices[at].path) ==> selected[devices[at].path] == devices[at],
    ensures
        ({
            let after = with_matches(selected, selector, devices, count);
            &&& after.contains_key(devices[at].path) <==> selected.contains_key(devices[at].path)
                || (at < count && selector.matches_spec(devices[at]))
            &&& after.contains_key(devices[at].path) ==> after[devices[at].path] == devices[at]
        }),
    decreases count,
{
    if count > 0 {
        matches_are_added(selected, selector, devices, (count - 1) as nat, at);
        let last = count - 1;
        if at < last {
            assert(devices[at].path != devices[last].path);
        } else if last < at {
            assert(devices[last].path != devices[at].path);
        }
    }
}

/// A device is selected exactly if some selector matches it.
pub proof fn devices_are_selected_by_some_selector(
    selectors: Seq<SelectorModel>,
    devices: Seq<DeviceModel>,
    count: nat,
    at: int,
)
    requires
        count <= selectors.len(),
        0 <= at < devices.len(),
        paths_are_distinct(devices),
    ensures
        ({
            let selected = selection(selectors, devices, count);
            &&& selected.contains_key(devices[at].path) <==> exists|k: int|
                0 <= k < count && (#[trigger] selectors[k]).matches_spec(devices[at])
            &&& selected.contains_key(devices[at].path) ==> selected[devices[at].path]
                == devices[at]
        }),
    decreases count,
{
    if count > 0 {
        let earlier = (count - 1) as nat;
        devices_are_selected_by_some_selector(selectors, devices, earlier, at);
        matches_are_added(
            selection(selectors, devices, earlier),
            selectors[count - 1],
            devices,
            devices.len(),
            at,
        );
        if selectors[count - 1].matches_spec(devices[at]) {
            assert(selectors[count - 1].matches_spec(devices[at]));
        }
        if exists|k: int| 0 <= k < count && (#[trigger] selectors[k]).matches_spec(devices[at]) {
            let k = choose|k: int|
                0 <= k < count && (#[trigger] selectors[k]).matches_spec(devices[at]);
            if k < count - 1 {
                assert(selectors[k].matches_spec(devices[at]));
            }
        }
    }
}

/// A rescan reports a device as new exactly if it is there now and was not, or was
/// not the same; and as gone exactly if it was there and is not, or not the same.
pub proof fn rescans_report_every_change(
    known: Map<Seq<char>, DeviceModel>,
    current: Map<Seq<char>, DeviceModel>,
    delta: DeviceDelta,
    device: DeviceModel,
)
    requires
        reports_change(known, current, delta),
        known.contains_key(device.path) ==> known[device.path].path == device.path,
        current.contains_key(device.path) ==> current[device.path].path == device.path,
    ensures
        device_models(delta.added@).contains(device) <==> current.contains_pair(
            device.path,
            device,
        ) && !known.contains_pair(device.path, device),
        device_models(delta.removed@).contains(device) <==> known.contains_pair(
            device.path,
            device,
        ) && !current.contains_pair(device.path, device),
{
    listed_devices_are_in_the_map(
        device_models(delta.added@),
        missing_from(current, known),
        device,
    );
    listed_devices_are_in_the_map(
        device_models(delta.removed@),
        missing_from(known, current),
        device,
    );
}

proof fn listed_devices_are_in_the_map(
    list: Seq<DeviceModel>,
    map: Map<Seq<char>, DeviceModel>,
    device: DeviceModel,
)
    requires
        lists_map(list, map),
    ensures
        list.contains(device) <==> map.contains_pair(device.path, device),
{
    if list.contains(device) {
        let i = choose|i: int| 0 <= i < list.len() && list[i] == device;
        assert(map.contains_pair(list[i].path, list[i]));
    }
    if map.contains_pair(device.path, device) {
        assert(map.contains_key(device.path));
        let i = choose|i: int| 0 <= i < list.len() && (#[trigger] list[i]).path == device.path;
        assert(map.contains_pair(list[i].path, list[i]));
        assert(list[i] == device);
    }
}

/// The codes by which devices are sorted into keyboards and pointers are those of
/// the keys and axes of these names.
pub proof fn devices_are_sorted_by_known_codes()
    ensures
        linux_key(KEY_A) == Some(Key::Letter('a')),
        linux_key(KEY_ENTER) == Some(Key::Enter),
        BTN_LEFT == 0x110,
        REL_X == 0,
        REL_Y == 1,
        REL_WHEEL_HI_RES == 11,
        REL_HWHEEL_HI_RES == 12,
{
}

/// Our own devices are told apart by role: a device has one role at most, and the
/// roles differ in every mark.
pub proof fn roles_are_told_apart(device: DeviceModel, role: VirtualDeviceRole)
    ensures
        device.zflow_role() == Some(role) <==> {
            &&& device.id.bus == 6
            &&& device.id.vendor == ZFLOW_VENDOR_ID
            &&& device.id.version == ZFLOW_DEVICE_VERSION
            &&& device.id.product == role.product_spec()
            &&& device.name == Some(role.name_spec())
            &&& device.physical_path == Some(role.physical_path_spec())
        },
{
}

/// Our own devices are numbered by what they are, and named after it.
pub proof fn roles_have_their_own_marks(first: VirtualDeviceRole, second: VirtualDeviceRole)
    ensures
        first.product_spec() == match first {
            VirtualDeviceRole::Keyboard => 0x5a01u16,
            VirtualDeviceRole::Pointer => 0x5a02u16,
            VirtualDeviceRole::Touchpad => 0x5a03u16,
        },
        first.name_spec().skip(13) == match first {
            VirtualDeviceRole::Keyboard => "keyboard"@,
            VirtualDeviceRole::Pointer => "pointer"@,
            VirtualDeviceRole::Touchpad => "touchpad"@,
        },
        first != second ==> first.product_spec() != second.product_spec() && first.name_spec()
            != second.name_spec() && first.physical_path_spec() != second.physical_path_spec(),
{
    reveal_strlit("zflow remote keyboard");
    reveal_strlit("zflow remote pointer");
    reveal_strlit("zflow remote touchpad");
    reveal_strlit("zflow/remote/keyboard");
    reveal_strlit("zflow/remote/pointer");
    reveal_strlit("zflow/remote/touchpad");
    reveal_strlit("keyboard");
    reveal_strlit("pointer");
    reveal_strlit("touchpad");
    assert(ZFLOW_KEYBOARD_NAME@.skip(13) =~= "keyboard"@);
    assert(ZFLOW_POINTER_NAME@.skip(13) =~= "pointer"@);
    assert(ZFLOW_TOUCHPAD_NAME@.skip(13) =~= "touchpad"@);
    assert(ZFLOW_KEYBOARD_NAME@[13] == 'k' && ZFLOW_TOUCHPAD_NAME@[13] == 't');
    assert(ZFLOW_KEYBOARD_PHYS@[13] == 'k' && ZFLOW_TOUCHPAD_PHYS@[13] == 't');
    assert(ZFLOW_POINTER_NAME@[13] == 'p' && ZFLOW_POINTER_PHYS@[13] == 'p');
}

} // verus!
