//! Readiness of the virtual input devices, as udev published them.
use vstd::prelude::*;

use crate::linux::devices::{DeviceInfo, DeviceModel, InputId, VirtualDeviceRole};
use crate::linux::seat::Properties;
use crate::paths::path_of;
use crate::scan::{
    decimal, decimal_text, digits_value, find_char, has_prefix, is_blank, is_space, joined, lines,
    lines_of, number_in, parse_number, strip_prefix, trim, trimmed, trimming_takes_only_space,
    views,
};
use crate::text::{same_text, text_of};

verus! {

/// The property that one line of a udev record sets: everything before the
/// first equals sign, with an optional `E:` marker in front.
pub open spec fn property_line(line: Seq<char>) -> Option<(Seq<char>, Seq<char>)> {
    let content = if has_prefix(line, "E:"@) {
        line.skip(2)
    } else {
        line
    };
    let at = content.index_of_first('=');
    match at {
        Some(at) => if at > 0 {
            Some((content.take(at), content.skip(at + 1)))
        } else {
            None
        },
        None => None,
    }
}

/// Properties that a run of lines sets; a later line replaces an earlier one.
pub open spec fn properties_of(lines: Seq<Seq<char>>) -> Map<Seq<char>, Seq<char>>
    decreases lines.len(),
{
    if lines.len() == 0 {
        Map::empty()
    } else {
        let before = properties_of(lines.drop_last());
        match property_line(lines.last()) {
            Some((key, value)) => before.insert(key, value),
            None => before,
        }
    }
}

/// Parsed udev database properties. Both the `E:KEY=value` records of the udev
/// database and the plain `KEY=value` form are understood.
pub struct UdevProperties {
    values: Properties,
}

impl View for UdevProperties {
    type V = Map<Seq<char>, Seq<char>>;

    closed spec fn view(&self) -> Map<Seq<char>, Seq<char>> {
        self.values@
    }
}

proof fn first_index_is(content: Seq<char>, at: int)
    requires
        0 <= at < content.len(),
        content[at] == '=',
        forall|i: int| 0 <= i < at ==> content[i] != '=',
    ensures
        content.index_of_first('=') == Some(at),
{
    content.index_of_first_ensures('=');
}

fn parse_line(line: &str) -> (result: Option<(String, String)>)
    ensures
        match result {
            Some((key, value)) => property_line(line@) == Some((key@, value@)),
            None => property_line(line@) is None,
        },
{
    proof {
        reveal_strlit("E:");
    }
    let content = match strip_prefix(line, "E:") {
        Some(rest) => rest,
        None => line,
    };
    match find_char(content, '=') {
        Some(at) => {
            proof {
                first_index_is(content@, at as int);
            }
            if at == 0 {
                return None;
            }
            let len: usize = content.unicode_len();
            assert(content@.subrange(0, at as int) =~= content@.take(at as int));
            assert(content@.subrange(at + 1, len as int) =~= content@.skip(at + 1));
            Some(
                (
                    content.substring_char(0, at).to_owned(),
                    content.substring_char(at + 1, len).to_owned(),
                ),
            )
        },
        None => {
            proof {
                content@.index_of_first_ensures('=');
            }
            None
        },
    }
}

impl UdevProperties {
    pub fn parse(text: &str) -> (result: Self)
        ensures
            result@ == properties_of(lines_of(text@)),
    {
        let all: Vec<String> = lines(text);
        let ghost listed = views(all@);
        let mut values = Properties::new();
        let mut at: usize = 0;
        while at < all.len()
            invariant
                listed == views(all@),
                at <= all@.len(),
                values@ == properties_of(listed.take(at as int)),
            decreases all@.len() - at,
        {
            assert(listed.take(at + 1).drop_last() =~= listed.take(at as int));
            assert(listed[at as int] == all@[at as int]@);
            if let Some((key, value)) = parse_line(all[at].as_str()) {
                values.insert(key, value);
            }
            at = at + 1;
        }
        assert(listed.take(at as int) =~= listed);
        UdevProperties { values }
    }

    pub fn get(&self, key: &str) -> (result: Option<&str>)
        ensures
            match result {
                Some(value) => self@.contains_pair(key@, value@),
                None => !self@.contains_key(key@),
            },
    {
        self.values.get(key)
    }

    fn has(&self, key: &str, expected: &str) -> (result: bool)
        ensures
            result == self@.contains_pair(key@, expected@),
    {
        match self.get(key) {
            Some(value) => same_text(value, expected),
            None => false,
        }
    }
}

/// Marks that every published virtual device carries.
pub open spec fn common_marks(properties: Map<Seq<char>, Seq<char>>) -> bool {
    &&& properties.contains_pair("ZFLOW_VIRTUAL_DEVICE"@, "1"@)
    &&& properties.contains_pair("ZFLOW_CAPTURE_EXCLUDE"@, "1"@)
    &&& properties.contains_pair("ID_INPUT"@, "1"@)
    &&& properties.contains_pair("ID_SEAT"@, "seat0"@)
}

pub open spec fn keyboard_published(properties: Map<Seq<char>, Seq<char>>) -> bool {
    &&& common_marks(properties)
    &&& properties.contains_pair("ZFLOW_DEVICE_ROLE"@, "remote-keyboard"@)
    &&& properties.contains_pair("ID_INPUT_KEY"@, "1"@)
    &&& properties.contains_pair("ID_INPUT_KEYBOARD"@, "1"@)
}

pub open spec fn pointer_published(properties: Map<Seq<char>, Seq<char>>) -> bool {
    &&& common_marks(properties)
    &&& properties.contains_pair("ZFLOW_DEVICE_ROLE"@, "remote-pointer"@)
    &&& properties.contains_pair("ID_INPUT_MOUSE"@, "1"@)
}

#[derive(Clone, Copy, Debug, PartialEq, Eq, Structural)]
pub struct VirtualDeviceReadiness {
    pub keyboard: bool,
    pub pointer: bool,
}

impl Default for VirtualDeviceReadiness {
    fn default() -> (result: Self)
        ensures
            !result.keyboard,
            !result.pointer,
    {
        VirtualDeviceReadiness { keyboard: false, pointer: false }
    }
}

impl VirtualDeviceReadiness {
    pub fn is_ready(self) -> (result: bool)
        ensures
            result == (self.keyboard && self.pointer),
    {
        self.keyboard && self.pointer
    }

    /// Takes note of one device. Readiness is never taken back.
    pub fn observe(&mut self, device: &DeviceInfo, properties: &UdevProperties)
        ensures
            final(self).keyboard == (old(self).keyboard || device@.zflow_role() == Some(
                VirtualDeviceRole::Keyboard,
            ) && keyboard_published(properties@)),
            final(self).pointer == (old(self).pointer || device@.zflow_role() == Some(
                VirtualDeviceRole::Pointer,
            ) && pointer_published(properties@)),
    {
        let role = match device.zflow_role() {
            Some(role) => role,
            None => return ,
        };
        let common = properties.has("ZFLOW_VIRTUAL_DEVICE", "1") && properties.has(
            "ZFLOW_CAPTURE_EXCLUDE",
            "1",
        ) && properties.has("ID_INPUT", "1") && properties.has("ID_SEAT", "seat0");
        match role {
            VirtualDeviceRole::Keyboard => {
                self.keyboard = self.keyboard || (common && properties.has(
                    "ZFLOW_DEVICE_ROLE",
                    "remote-keyboard",
                ) && properties.has("ID_INPUT_KEY", "1") && properties.has(
                    "ID_INPUT_KEYBOARD",
                    "1",
                ));
            },
            VirtualDeviceRole::Pointer => {
                self.pointer = self.pointer || (common && properties.has(
                    "ZFLOW_DEVICE_ROLE",
                    "remote-pointer",
                ) && properties.has("ID_INPUT_MOUSE", "1"));
            },
            VirtualDeviceRole::Touchpad => {},
        }
    }
}

/// File name of the udev record of a character device.
pub fn udev_record_name(major: u32, minor: u32) -> (result: String)
    ensures
        result@ == "c"@ + decimal_text(major as nat) + ":"@ + decimal_text(minor as nat),
{
    let mut name = joined("c", decimal(major as u64).as_str());
    name.append(":");
    name.append(decimal(minor as u64).as_str());
    name
}

/// Identity files of one device below `/sys/class/input`, where readable.
#[derive(Debug)]
pub struct SysfsTexts {
    pub name: Option<String>,
    pub phys: Option<String>,
    pub uniq: Option<String>,
    pub bustype: Option<String>,
    pub vendor: Option<String>,
    pub product: Option<String>,
    pub version: Option<String>,
}

/// A text without surrounding white space, if anything is left of it.
pub open spec fn filled(text: Option<Seq<char>>) -> Option<Seq<char>> {
    match text {
        Some(text) => if trimmed(text).len() > 0 {
            Some(trimmed(text))
        } else {
            None
        },
        None => None,
    }
}

/// A sixteen-bit number written in hexadecimal.
pub open spec fn hex_number(text: Option<Seq<char>>) -> Option<int> {
    match text {
        Some(text) => number_in(trimmed(text), 16, u16::MAX as int),
        None => None,
    }
}

fn read_trimmed(text: &Option<String>) -> (result: Option<String>)
    ensures
        text_of(result) == filled(text_of(*text)),
{
    match text {
        Some(text) => {
            let content = trim(text.as_str());
            if content.unicode_len() > 0 {
                Some(content.to_owned())
            } else {
                None
            }
        },
        None => None,
    }
}

fn read_hex(text: &Option<String>) -> (result: Option<u16>)
    ensures
        match result {
            Some(number) => hex_number(text_of(*text)) == Some(number as int),
            None => hex_number(text_of(*text)) is None,
        },
{
    match text {
        Some(text) => match parse_number(trim(text.as_str()), 16, u16::MAX as u64) {
            Some(number) => Some(number as u16),
            None => None,
        },
        None => None,
    }
}

/// Identity of a device from its sysfs files. Classification is taken from udev
/// rather than inferred from capabilities, so none are claimed here.
pub fn device_info_from_sysfs(event_path: String, texts: &SysfsTexts) -> (result: Option<
    DeviceInfo,
>)
    ensures
        result is Some <==> hex_number(text_of(texts.bustype)) is Some && hex_number(
            text_of(texts.vendor),
        ) is Some && hex_number(text_of(texts.product)) is Some && hex_number(
            text_of(texts.version),
        ) is Some,
        result matches Some(device) ==> device@ == (DeviceModel {
            path: path_of(event_path@),
            name: filled(text_of(texts.name)),
            physical_path: filled(text_of(texts.phys)),
            unique_name: filled(text_of(texts.uniq)),
            id: InputId {
                bus: hex_number(text_of(texts.bustype))->0 as u16,
                vendor: hex_number(text_of(texts.vendor))->0 as u16,
                product: hex_number(text_of(texts.product))->0 as u16,
                version: hex_number(text_of(texts.version))->0 as u16,
            },
            has_keyboard_keys: false,
            has_pointer_buttons: false,
            has_relative_pointer: false,
            has_high_resolution_wheel: false,
        }),
{
    match (
        read_hex(&texts.bustype),
        read_hex(&texts.vendor),
        read_hex(&texts.product),
        read_hex(&texts.version),
    ) {
        (Some(bus), Some(vendor), Some(product), Some(version)) => Some(
            DeviceInfo {
                path: event_path,
                name: read_trimmed(&texts.name),
                physical_path: read_trimmed(&texts.phys),
                unique_name: read_trimmed(&texts.uniq),
                bus,
                vendor,
                product,
                version,
                has_keyboard_keys: false,
                has_pointer_buttons: false,
                has_relative_pointer: false,
                has_high_resolution_wheel: false,
            },
        ),
        _ => None,
    }
}

/// Directories in which device state is published.
#[derive(Debug, PartialEq, Eq)]
pub struct ReadinessPaths {
    pub input_dir: String,
    pub sys_class_input_dir: String,
    pub udev_database_dir: String,
}

impl Default for ReadinessPaths {
    fn default() -> (result: Self)
        ensures
            result.input_dir@ == "/dev/input"@,
            result.sys_class_input_dir@ == "/sys/class/input"@,
            result.udev_database_dir@ == "/run/udev/data"@,
    {
        ReadinessPaths {
            input_dir: "/dev/input".to_owned(),
            sys_class_input_dir: "/sys/class/input".to_owned(),
            udev_database_dir: "/run/udev/data".to_owned(),
        }
    }
}

/// A property is read from a line as it is written: a name, an equals sign and the
/// value, behind the mark of the udev database or without it.
pub proof fn property_lines_read_back(name: Seq<char>, value: Seq<char>)
    requires
        name.len() > 0,
        forall|i: int| 0 <= i < name.len() ==> #[trigger] name[i] != '=',
        !has_prefix(name + seq!['='] + value, "E:"@),
    ensures
        property_line("E:"@ + name + seq!['='] + value) == Some((name, value)),
        property_line(name + seq!['='] + value) == Some((name, value)),
{
    reveal_strlit("E:");
    let content = name + seq!['='] + value;
    let marked = "E:"@ + name + seq!['='] + value;
    assert(marked.take(2) =~= "E:"@);
    assert(marked.skip(2) =~= content);
    let at = name.len() as int;
    assert(content[at] == '=');
    assert forall|i: int| 0 <= i < at implies content[i] != '=' by {
        assert(content[i] == name[i]);
    }
    first_index_is(content, at);
    assert(content.take(at) =~= name);
    assert(content.skip(at + 1) =~= value);
}

/// Lines add their properties one after the other; a later value replaces an
/// earlier one, and lines without a property are passed over.
pub proof fn later_properties_replace_earlier_ones(lines: Seq<Seq<char>>, line: Seq<char>)
    ensures
        properties_of(lines.push(line)) == match property_line(line) {
            Some((name, value)) => properties_of(lines).insert(name, value),
            None => properties_of(lines),
        },
{
    assert(lines.push(line).drop_last() =~= lines);
}

/// No device counts as both the keyboard and the pointer.
pub proof fn devices_have_one_role(properties: Map<Seq<char>, Seq<char>>)
    ensures
        !(keyboard_published(properties) && pointer_published(properties)),
        keyboard_published(properties) || pointer_published(properties)
            ==> properties.contains_pair("ZFLOW_CAPTURE_EXCLUDE"@, "1"@)
            && properties.contains_pair("ID_SEAT"@, "seat0"@),
{
    reveal_strlit("remote-keyboard");
    reveal_strlit("remote-pointer");
    assert("remote-keyboard"@.len() != "remote-pointer"@.len());
}

/// A text is filled in exactly if something but space is in it, and is taken without
/// the space around it.
pub proof fn filled_texts_are_not_blank(text: Seq<char>)
    ensures
        filled(Some(text)) is None <==> is_blank(text),
        filled(Some(text)) matches Some(value) ==> value.len() > 0 && !is_space(value[0])
            && !is_space(value.last()),
        filled(None) is None,
{
    trimming_takes_only_space(text);
    let (low, high) = choose|low: int, high: int|
        {
            &&& 0 <= low <= high <= text.len()
            &&& trimmed(text) == #[trigger] text.subrange(low, high)
            &&& is_blank(text.take(low))
            &&& is_blank(text.skip(high))
        };
    if trimmed(text).len() == 0 {
        assert forall|i: int| 0 <= i < text.len() implies is_space(#[trigger] text[i]) by {
            if i < low {
                assert(text.take(low)[i] == text[i]);
            } else {
                assert(text.skip(high)[i - high] == text[i]);
            }
        }
    } else {
        assert(trimmed(text)[0] == text[low]);
    }
}

/// Identity numbers are hexadecimal and have 16 bits.
pub proof fn identity_numbers_are_hexadecimal(text: Seq<char>)
    requires
        text.len() > 0,
        text[0] != '+',
        trimmed(text) == text,
    ensures
        hex_number(Some(text)) is Some <==> (digits_value(text, 16) matches Some(value) && value
            < 0x1_0000),
        hex_number(Some(text)) is Some ==> hex_number(Some(text)) == digits_value(text, 16),
        hex_number(None) is None,
{
}

} // verus!
