//! Resolution of the configured capture set: every selector finds exactly one
//! device of its own, or nothing is captured.
use vstd::prelude::*;

use crate::config::{selector_models, DeviceSelector, SelectorModel};
use crate::linux::devices::{device_models, DeviceInfo, DeviceModel};
use crate::paths::{path_of, same_path};
use crate::text::same_optional_text;

verus! {

/// A selector names a stable identity by physical path, vendor and product.
pub open spec fn is_stable(selector: SelectorModel) -> bool {
    &&& selector.phys matches Some(phys) && phys.len() > 0
    &&& selector.vendor is Some
    &&& selector.product is Some
}

/// Whether a device has the identity that a selector names. Without a stable
/// identity the event path has to be the same. zflow's own devices never match.
pub open spec fn selects(selector: SelectorModel, device: DeviceModel) -> bool {
    &&& device.zflow_role() is None
    &&& selector.name is Some ==> device.name == selector.name
    &&& selector.phys is Some ==> device.physical_path == selector.phys
    &&& selector.vendor matches Some(vendor) ==> device.id.vendor == vendor
    &&& selector.product matches Some(product) ==> device.id.product == product
    &&& is_stable(selector) || selector.path == device.path
}

/// Returns whether one physical device has the stable identity named by a
/// configured capture selector.
///
/// Device listings use this same predicate, so a renumbered event node cannot
/// make their capture-set membership disagree with the runtime.
pub fn capture_selector_matches(selector: &DeviceSelector, device: &DeviceInfo) -> (result: bool)
    ensures
        result == selects(selector@, device@),
{
    if device.is_zflow_virtual() {
        return false;
    }
    let stable = match &selector.phys {
        Some(phys) => phys.as_str().unicode_len() > 0,
        None => false,
    } && selector.vendor.is_some() && selector.product.is_some();
    let name_matches = match &selector.name {
        Some(_) => same_optional_text(&device.name, &selector.name),
        None => true,
    };
    let phys_matches = match &selector.phys {
        Some(_) => same_optional_text(&device.physical_path, &selector.phys),
        None => true,
    };
    let vendor_matches = match selector.vendor {
        Some(vendor) => device.vendor == vendor,
        None => true,
    };
    let product_matches = match selector.product {
        Some(product) => device.product == product,
        None => true,
    };
    name_matches && phys_matches && vendor_matches && product_matches && (stable || same_path(
        selector.path.as_str(),
        device.path.as_str(),
    ))
}

/// Devices among the first `count` that a selector matches.
pub open spec fn match_count(
    selector: SelectorModel,
    devices: Seq<DeviceModel>,
    count: nat,
) -> nat
    decreases count,
{
    if count == 0 {
        0
    } else {
        match_count(selector, devices, (count - 1) as nat) + if selects(
            selector,
            devices[count - 1],
        ) {
            1nat
        } else {
            0nat
        }
    }
}

/// The only device that a selector matches.
pub open spec fn resolution(selector: SelectorModel, devices: Seq<DeviceModel>) -> Option<
    DeviceModel,
> {
    if match_count(selector, devices, devices.len()) == 1 {
        let at = choose|at: int|
            0 <= at < devices.len() && selects(selector, #[trigger] devices[at]);
        Some(devices[at])
    } else {
        None
    }
}

pub open spec fn resolutions(
    selectors: Seq<SelectorModel>,
    devices: Seq<DeviceModel>,
) -> Seq<Option<DeviceModel>> {
    Seq::new(selectors.len(), |i: int| resolution(selectors[i], devices))
}

/// Selectors among the first `count` that match no device.
pub open spec fn unmatched_count(
    selectors: Seq<SelectorModel>,
    devices: Seq<DeviceModel>,
    count: nat,
) -> nat
    decreases count,
{
    if count == 0 {
        0
    } else {
        unmatched_count(selectors, devices, (count - 1) as nat) + if match_count(
            selectors[count - 1],
            devices,
            devices.len(),
        ) == 0 {
            1nat
        } else {
            0nat
        }
    }
}

/// Selectors among the first `count` that match several devices.
pub open spec fn several_count(
    selectors: Seq<SelectorModel>,
    devices: Seq<DeviceModel>,
    count: nat,
) -> nat
    decreases count,
{
    if count == 0 {
        0
    } else {
        several_count(selectors, devices, (count - 1) as nat) + if match_count(
            selectors[count - 1],
            devices,
            devices.len(),
        ) > 1 {
            1nat
        } else {
            0nat
        }
    }
}

/// Resolved devices among the first `count` with a given path.
pub open spec fn path_count(
    resolved: Seq<Option<DeviceModel>>,
    path: Seq<char>,
    count: nat,
) -> nat
    decreases count,
{
    if count == 0 {
        0
    } else {
        path_count(resolved, path, (count - 1) as nat) + match resolved[count - 1] {
            Some(device) => if device.path == path {
                1nat
            } else {
                0nat
            },
            None => 0nat,
        }
    }
}

/// No other selector resolved to the same device.
pub open spec fn is_own(resolved: Seq<Option<DeviceModel>>, at: int) -> bool {
    resolved[at] matches Some(device) && path_count(resolved, device.path, resolved.len()) == 1
}

/// Resolved devices among the first `count` that no other selector shares.
pub open spec fn own_devices(resolved: Seq<Option<DeviceModel>>, count: nat) -> Seq<DeviceModel>
    decreases count,
{
    if count == 0 {
        Seq::empty()
    } else {
        let before = own_devices(resolved, (count - 1) as nat);
        if is_own(resolved, count - 1) {
            before.push(resolved[count - 1]->0)
        } else {
            before
        }
    }
}

/// Resolved devices among the first `count` that another selector shares.
pub open spec fn shared_count(resolved: Seq<Option<DeviceModel>>, count: nat) -> nat
    decreases count,
{
    if count == 0 {
        0
    } else {
        shared_count(resolved, (count - 1) as nat) + if resolved[count - 1] is Some && !is_own(
            resolved,
            count - 1,
        ) {
            1nat
        } else {
            0nat
        }
    }
}

#[derive(Debug)]
pub struct CaptureSelection {
    pub selected: Vec<DeviceInfo>,
    pub configured: usize,
    pub unmatched: usize,
    pub ambiguous: usize,
}

impl CaptureSelection {
    pub open spec fn complete(&self) -> bool {
        self.configured > 0 && self.unmatched == 0 && self.ambiguous == 0
    }

    /// The result of resolving `selectors` among `devices`.
    pub open spec fn resolves(
        &self,
        selectors: Seq<SelectorModel>,
        devices: Seq<DeviceModel>,
    ) -> bool {
        let resolved = resolutions(selectors, devices);
        &&& device_models(self.selected@) == own_devices(resolved, resolved.len())
        &&& self.configured == selectors.len()
        &&& self.unmatched == unmatched_count(selectors, devices, selectors.len())
        &&& self.ambiguous == several_count(selectors, devices, selectors.len()) + shared_count(
            resolved,
            resolved.len(),
        )
    }

    pub fn is_complete(&self) -> (result: bool)
        ensures
            result == self.complete(),
    {
        self.configured > 0 && self.unmatched == 0 && self.ambiguous == 0
    }

    /// The devices to capture: all of them, or none.
    pub fn capture_set(&self) -> (result: Vec<DeviceInfo>)
        ensures
            device_models(result@) == if self.complete() {
                device_models(self.selected@)
            } else {
                Seq::empty()
            },
    {
        let mut result: Vec<DeviceInfo> = Vec::new();
        if !self.is_complete() {
            assert(device_models(result@) =~= Seq::empty());
            return result;
        }
        let mut at: usize = 0;
        while at < self.selected.len()
            invariant
                at <= self.selected@.len(),
                result@.len() == at,
                forall|i: int| 0 <= i < at ==> (#[trigger] result@[i])@ == self.selected@[i]@,
            decreases self.selected@.len() - at,
        {
            result.push(self.selected[at].copy());
            at = at + 1;
        }
        assert(device_models(result@) =~= device_models(self.selected@));
        result
    }
}

proof fn match_count_grows(selector: SelectorModel, devices: Seq<DeviceModel>, low: nat, high: nat)
    requires
        low <= high,
    ensures
        match_count(selector, devices, low) <= match_count(selector, devices, high),
    decreases high - low,
{
    if low < high {
        match_count_grows(selector, devices, low, (high - 1) as nat);
    }
}

/// A selector that matches once resolves to the device that it matches.
proof fn only_match(selector: SelectorModel, devices: Seq<DeviceModel>, at: int)
    requires
        0 <= at < devices.len(),
        selects(selector, devices[at]),
        match_count(selector, devices, devices.len()) == 1,
    ensures
        resolution(selector, devices) == Some(devices[at]),
{
    let other = choose|other: int|
        0 <= other < devices.len() && selects(selector, #[trigger] devices[other]);
    if other != at {
        let low = if other < at {
            other
        } else {
            at
        };
        let high = if other < at {
            at
        } else {
            other
        };
        match_count_grows(selector, devices, 0, low as nat);
        match_count_grows(selector, devices, (low + 1) as nat, high as nat);
        match_count_grows(selector, devices, (high + 1) as nat, devices.len());
    }
}

fn count_path(resolved: &Vec<Option<DeviceInfo>>, path: &str) -> (result: usize)
    ensures
        result == path_count(optional_models(resolved@), path_of(path@), resolved@.len()),
{
    let ghost models = optional_models(resolved@);
    let mut count: usize = 0;
    let mut at: usize = 0;
    while at < resolved.len()
        invariant
            models == optional_models(resolved@),
            at <= resolved@.len(),
            count <= at,
            count == path_count(models, path_of(path@), at as nat),
        decreases resolved@.len() - at,
    {
        if let Some(device) = &resolved[at] {
            if same_path(device.path.as_str(), path) {
                count = count + 1;
            }
        }
        at = at + 1;
    }
    count
}

pub open spec fn optional_models(devices: Seq<Option<DeviceInfo>>) -> Seq<Option<DeviceModel>> {
    Seq::new(
        devices.len(),
        |i: int|
            match devices[i] {
                Some(device) => Some(device@),
                None => None,
            },
    )
}

pub fn select_configured(selectors: &Vec<DeviceSelector>, devices: &Vec<DeviceInfo>) -> (result:
    CaptureSelection)
    requires
        2 * selectors@.len() <= usize::MAX,
    ensures
        result.resolves(selector_models(selectors@), device_models(devices@)),
{
    let ghost criteria = selector_models(selectors@);
    let ghost models = device_models(devices@);
    let mut resolved: Vec<Option<DeviceInfo>> = Vec::new();
    let mut unmatched: usize = 0;
    let mut ambiguous: usize = 0;
    let mut index: usize = 0;
    while index < selectors.len()
        invariant
            criteria == selector_models(selectors@),
            models == device_models(devices@),
            index <= selectors@.len(),
            resolved@.len() == index,
            unmatched <= index,
            ambiguous <= index,
            unmatched == unmatched_count(criteria, models, index as nat),
            ambiguous == several_count(criteria, models, index as nat),
            forall|i: int|
                0 <= i < index ==> #[trigger] optional_models(resolved@)[i] == resolution(
                    criteria[i],
                    models,
                ),
        decreases selectors@.len() - index,
    {
        let selector = &selectors[index];
        let ghost criterion = criteria[index as int];
        let mut count: usize = 0;
        let mut found: usize = 0;
        let mut at: usize = 0;
        while at < devices.len()
            invariant
                models == device_models(devices@),
                criterion == selector@,
                at <= devices@.len(),
                count <= at,
                count == match_count(criterion, models, at as nat),
                count > 0 ==> found < at && selects(criterion, models[found as int]),
            decreases devices@.len() - at,
        {
            if capture_selector_matches(selector, &devices[at]) {
                count = count + 1;
                found = at;
            }
            at = at + 1;
        }
        let ghost before = optional_models(resolved@);
        if count == 1 {
            proof {
                only_match(criterion, models, found as int);
            }
            resolved.push(Some(devices[found].copy()));
        } else {
            if count == 0 {
                unmatched = unmatched + 1;
            } else {
                ambiguous = ambiguous + 1;
            }
            resolved.push(None);
        }
        assert forall|i: int| 0 <= i < index + 1 implies #[trigger] optional_models(resolved@)[i]
            == resolution(criteria[i], models) by {
            if i < index {
                assert(optional_models(resolved@)[i] == before[i]);
            }
        }
        index = index + 1;
    }
    let ghost all = resolutions(criteria, models);
    assert(optional_models(resolved@) =~= all);
    let ghost several = ambiguous as int;
    let mut selected: Vec<DeviceInfo> = Vec::new();
    let mut at: usize = 0;
    assert(device_models(selected@) =~= own_devices(all, 0));
    while at < resolved.len()
        invariant
            2 * selectors@.len() <= usize::MAX,
            resolved@.len() == selectors@.len(),
            all == optional_models(resolved@),
            several <= selectors@.len(),
            at <= resolved@.len(),
            ambiguous == several + shared_count(all, at as nat),
            shared_count(all, at as nat) <= at,
            device_models(selected@) == own_devices(all, at as nat),
        decreases resolved@.len() - at,
    {
        if let Some(device) = &resolved[at] {
            assert(all[at as int] == Some(device@));
            if count_path(&resolved, device.path.as_str()) == 1 {
                let ghost before = selected@;
                let copied = device.copy();
                selected.push(copied);
                assert(device_models(selected@) =~= device_models(before).push(device@));
            } else {
                ambiguous = ambiguous + 1;
            }
        }
        at = at + 1;
    }
    CaptureSelection { selected, configured: selectors.len(), unmatched, ambiguous }
}

proof fn complete_counts(
    selectors: Seq<SelectorModel>,
    devices: Seq<DeviceModel>,
    count: nat,
)
    requires
        count <= selectors.len(),
        unmatched_count(selectors, devices, selectors.len()) == 0,
        several_count(selectors, devices, selectors.len()) == 0,
        shared_count(resolutions(selectors, devices), selectors.len()) == 0,
    ensures
        unmatched_count(selectors, devices, count) == 0,
        several_count(selectors, devices, count) == 0,
        shared_count(resolutions(selectors, devices), count) == 0,
    decreases selectors.len() - count,
{
    if count < selectors.len() {
        complete_counts(selectors, devices, (count + 1) as nat);
    }
}

proof fn complete_prefix(
    selectors: Seq<SelectorModel>,
    devices: Seq<DeviceModel>,
    count: nat,
)
    requires
        count <= selectors.len(),
        unmatched_count(selectors, devices, selectors.len()) == 0,
        several_count(selectors, devices, selectors.len()) == 0,
        shared_count(resolutions(selectors, devices), selectors.len()) == 0,
    ensures
        own_devices(resolutions(selectors, devices), count).len() == count,
        forall|i: int|
            0 <= i < count ==> resolutions(selectors, devices)[i] == Some(
                #[trigger] own_devices(resolutions(selectors, devices), count)[i],
            ) && match_count(selectors[i], devices, devices.len()) == 1,
    decreases count,
{
    if count > 0 {
        complete_prefix(selectors, devices, (count - 1) as nat);
        complete_counts(selectors, devices, count);
        let resolved = resolutions(selectors, devices);
        assert(resolved[count - 1] == resolution(selectors[count - 1], devices));
        assert(match_count(selectors[count - 1], devices, devices.len()) == 1);
        assert(is_own(resolved, count - 1));
    }
}

proof fn a_match_exists(selector: SelectorModel, devices: Seq<DeviceModel>, count: nat)
    requires
        count <= devices.len(),
        match_count(selector, devices, count) > 0,
    ensures
        exists|at: int| 0 <= at < devices.len() && selects(selector, #[trigger] devices[at]),
    decreases count,
{
    if selects(selector, devices[count - 1]) {
        assert(selects(selector, devices[count - 1]));
    } else {
        a_match_exists(selector, devices, (count - 1) as nat);
    }
}

/// A complete selection captures exactly one device for each selector, the one
/// that it matches, and none of zflow's own.
pub proof fn complete_selections_are_all_or_none(
    selection: CaptureSelection,
    selectors: Seq<SelectorModel>,
    devices: Seq<DeviceModel>,
)
    requires
        selection.resolves(selectors, devices),
        selection.complete(),
    ensures
        selection.selected@.len() == selectors.len(),
        forall|i: int|
            0 <= i < selectors.len() ==> selects(
                selectors[i],
                (#[trigger] selection.selected@[i])@,
            ) && selection.selected@[i]@.zflow_role() is None,
{
    complete_prefix(selectors, devices, selectors.len());
    let resolved = resolutions(selectors, devices);
    let chosen = own_devices(resolved, resolved.len());
    assert(device_models(selection.selected@) == chosen);
    assert forall|i: int| 0 <= i < selectors.len() implies selects(
        selectors[i],
        (#[trigger] selection.selected@[i])@,
    ) && selection.selected@[i]@.zflow_role() is None by {
        assert(device_models(selection.selected@)[i] == selection.selected@[i]@);
        assert(resolved[i] == Some(chosen[i]));
        assert(resolved[i] == resolution(selectors[i], devices));
        a_match_exists(selectors[i], devices, devices.len());
    }
}

/// A selector that names a device by its place, maker and product finds it at any
/// event path; one that does not finds it only at its own. What is given besides
/// has to be so, and our own devices are never found.
pub proof fn selectors_find_their_device(
    selector: SelectorModel,
    elsewhere: Seq<char>,
    device: DeviceModel,
)
    ensures
        selects(selector, device) ==> device.zflow_role() is None && (
        selector.name matches Some(name) ==> device.name == Some(name)) && (
        selector.phys matches Some(phys) ==> device.physical_path == Some(phys)) && (
        selector.vendor matches Some(vendor) ==> device.id.vendor == vendor) && (
        selector.product matches Some(product) ==> device.id.product == product),
        selector.phys is Some && selector.phys->0.len() > 0 && selector.vendor is Some
            && selector.product is Some ==> selects(selector, device) == selects(
            SelectorModel { path: elsewhere, ..selector },
            device,
        ),
        !(selector.phys is Some && selector.phys->0.len() > 0 && selector.vendor is Some
            && selector.product is Some) && selects(selector, device) ==> device.path
            == selector.path,
        device.zflow_role() is None && device.path == selector.path && (
        selector.name is None || device.name == selector.name) && (selector.phys is None
            || device.physical_path == selector.phys) && (selector.vendor is None
            || selector.vendor == Some(device.id.vendor)) && (selector.product is None
            || selector.product == Some(device.id.product)) ==> selects(selector, device),
{
}

/// Whether two selectors found the same device, each counts as ambiguous and
/// neither device is selected.
pub proof fn shared_devices_are_not_selected(
    resolved: Seq<Option<DeviceModel>>,
    first: int,
    second: int,
)
    requires
        0 <= first < second < resolved.len(),
        resolved[first] is Some,
        resolved[second] is Some,
        resolved[first]->0.path == resolved[second]->0.path,
    ensures
        !is_own(resolved, first),
        !is_own(resolved, second),
{
    let path = resolved[first]->0.path;
    path_count_grows(resolved, path, (first + 1) as nat, second as nat);
    path_count_grows(resolved, path, (second + 1) as nat, resolved.len());
    path_count_grows(resolved, path, 0, first as nat);
}

proof fn path_count_grows(resolved: Seq<Option<DeviceModel>>, path: Seq<char>, low: nat, high: nat)
    requires
        low <= high,
    ensures
        path_count(resolved, path, low) <= path_count(resolved, path, high),
    decreases high - low,
{
    if low < high {
        path_count_grows(resolved, path, low, (high - 1) as nat);
    }
}

} // verus!
