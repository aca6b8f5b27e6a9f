//! Windows: `Get-NetAdapter` lists the adapters (name, status, description)
//! and `Get-NetIPAddress` their IPv4 addresses (alias, address). The caller
//! runs one PowerShell call that prints both as JSON; `interfaces_from_output`
//! reads that JSON into records and the records into interfaces. A field that
//! is missing or not a string reads as `None`.

use vstd::prelude::*;

use crate::commands::text_or;
use crate::discover::{lowercase, to_lowercase};
use crate::text::{contains_exec, contains_seq, str_equal, to_chars};
use crate::types::{opt_text, Interface, InterfaceView};

verus! {

/// One adapter as `Get-NetAdapter` reports it.
#[derive(Debug, Clone)]
pub struct AdapterRecord {
    pub name: Option<String>,
    pub status: Option<String>,
    pub description: Option<String>,
}

/// One IPv4 address as `Get-NetIPAddress` reports it.
#[derive(Debug, Clone)]
pub struct AddressRecord {
    pub alias: Option<String>,
    pub address: Option<String>,
}

pub struct AdapterView {
    pub name: Option<Seq<char>>,
    pub status: Option<Seq<char>>,
    pub description: Option<Seq<char>>,
}

pub open spec fn adapter_view(a: AdapterRecord) -> AdapterView {
    AdapterView {
        name: opt_text(a.name),
        status: opt_text(a.status),
        description: opt_text(a.description),
    }
}

pub open spec fn address_view(r: AddressRecord) -> (Option<Seq<char>>, Option<Seq<char>>) {
    (opt_text(r.alias), opt_text(r.address))
}

/// The code of a character with ASCII upper case letters lowered.
pub open spec fn ascii_lower_code(c: char) -> int {
    if 'A' <= c && c <= 'Z' {
        c as u32 + 32
    } else {
        c as u32 as int
    }
}

/// `str::eq_ignore_ascii_case`: equal up to the case of ASCII letters.
pub open spec fn eq_ignore_ascii_case(a: Seq<char>, b: Seq<char>) -> bool {
    a.len() == b.len() && forall|i: int|
        0 <= i < a.len() ==> ascii_lower_code(#[trigger] a[i]) == ascii_lower_code(b[i])
}

/// The address reported for `alias`: that of the first record with this alias
/// (`None` if that record has no address, or if no record has the alias).
pub open spec fn address_for(ips: Seq<(Option<Seq<char>>, Option<Seq<char>>)>, alias: Seq<char>) -> Option<
    Seq<char>,
>
    decreases ips.len(),
{
    if ips.len() == 0 {
        None
    } else if ips[0].0 == Some(alias) {
        ips[0].1
    } else {
        address_for(ips.drop_first(), alias)
    }
}

/// The kind of port that a (lowercased) adapter description suggests.
pub open spec fn kind_from_lowercase(desc: Seq<char>) -> Seq<char> {
    if contains_seq(desc, "wi-fi"@) || contains_seq(desc, "wireless"@) {
        "Wi-Fi"@
    } else if contains_seq(desc, "usb"@) {
        "USB Ethernet"@
    } else {
        "Ethernet"@
    }
}

/// The interface for an adapter, if it has a name.
pub open spec fn adapter_interface(
    a: AdapterView,
    ips: Seq<(Option<Seq<char>>, Option<Seq<char>>)>,
) -> Option<InterfaceView> {
    match a.name {
        None => None,
        Some(name) => Some(
            InterfaceView {
                name,
                connected: eq_ignore_ascii_case(text_or(a.status, seq![]), "Up"@),
                current_ip: address_for(ips, name),
                kind: Some(kind_from_lowercase(lowercase(text_or(a.description, seq![])))),
            },
        ),
    }
}

/// The interfaces for the named adapters, in order.
pub open spec fn adapter_interfaces(
    adapters: Seq<AdapterView>,
    ips: Seq<(Option<Seq<char>>, Option<Seq<char>>)>,
) -> Seq<InterfaceView>
    decreases adapters.len(),
{
    if adapters.len() == 0 {
        seq![]
    } else {
        let rest = adapter_interfaces(adapters.drop_last(), ips);
        match adapter_interface(adapters.last(), ips) {
            Some(i) => rest.push(i),
            None => rest,
        }
    }
}

/// Whether `a` equals `b` up to the case of ASCII letters.
pub fn eq_ignore_ascii_case_exec(a: &str, b: &str) -> (res: bool)
    ensures
        res == eq_ignore_ascii_case(a@, b@),
{
    let x = to_chars(a);
    let y = to_chars(b);
    if x.len() != y.len() {
        return false;
    }
    let mut i: usize = 0;
    while i < x.len()
        invariant
            x@ == a@,
            y@ == b@,
            x.len() == y.len(),
            i <= x.len(),
            forall|j: int| 0 <= j < i ==> ascii_lower_code(#[trigger] x@[j]) == ascii_lower_code(y@[j]),
        decreases x.len() - i,
    {
        let cx = x[i];
        let cy = y[i];

        let lc: u32 = if 'A' <= cx && cx <= 'Z' {
            cx as u32 + 32
        } else {
            cx as u32
        };
        let ld: u32 = if 'A' <= cy && cy <= 'Z' {
            cy as u32 + 32
        } else {
            cy as u32
        };
        assert(lc == ascii_lower_code(x@[i as int]));
        assert(ld == ascii_lower_code(y@[i as int]));
        if lc != ld {
            return false;
        }
        i = i + 1;
    }
    true
}

/// The kind of port that a lowercased adapter description suggests.
pub fn kind_of_lowercase_description(desc: &str) -> (res: String)
    ensures
        res@ == kind_from_lowercase(desc@),
{
    let d = to_chars(desc);
    if contains_exec(&d, &to_chars("wi-fi")) || contains_exec(&d, &to_chars("wireless")) {
        String::from_str("Wi-Fi")
    } else if contains_exec(&d, &to_chars("usb")) {
        String::from_str("USB Ethernet")
    } else {
        String::from_str("Ethernet")
    }
}

/// The address reported for the interface `alias`.
pub fn address_of(ips: &Vec<AddressRecord>, alias: &str) -> (res: Option<String>)
    ensures
        opt_text(res) == address_for(ips@.map_values(|r: AddressRecord| address_view(r)), alias@),
{
    let ghost all = ips@.map_values(|r: AddressRecord| address_view(r));
    let mut i: usize = 0;
    assert(all.skip(0) =~= all);
    while i < ips.len()
        invariant
            i <= ips.len(),
            all == ips@.map_values(|r: AddressRecord| address_view(r)),
            address_for(all, alias@) == address_for(all.skip(i as int), alias@),
        decreases ips.len() - i,
    {
        assert(all.skip(i as int)[0] == address_view(ips@[i as int]));
        assert(all.skip(i as int).drop_first() =~= all.skip(i + 1));
        match &ips[i].alias {
            Some(a) => {
                if str_equal(a.as_str(), alias) {
                    return match &ips[i].address {
                        Some(x) => Some(x.clone()),
                        None => None,
                    };
                }
            },
            None => {},
        }
        i = i + 1;
    }
    None
}

/// The interface for one adapter, if it has a name.
pub fn adapter_interface_exec(a: &AdapterRecord, ips: &Vec<AddressRecord>) -> (res: Option<Interface>)
    ensures
        match res {
            Some(i) => adapter_interface(
                adapter_view(*a),
                ips@.map_values(|r: AddressRecord| address_view(r)),
            ) == Some(i@),
            None => adapter_interface(
                adapter_view(*a),
                ips@.map_values(|r: AddressRecord| address_view(r)),
            ) is None,
        },
{
    proof {
        reveal_strlit("");
        assert(""@ =~= Seq::<char>::empty());
    }
    let name = match &a.name {
        Some(n) => n,
        None => {
            return None;
        },
    };
    let connected = match &a.status {
        Some(s) => eq_ignore_ascii_case_exec(s.as_str(), "Up"),
        None => eq_ignore_ascii_case_exec("", "Up"),
    };
    let lower = match &a.description {
        Some(d) => to_lowercase(d.as_str()),
        None => to_lowercase(""),
    };
    let kind = kind_of_lowercase_description(lower.as_str());
    Some(
        Interface {
            name: name.clone(),
            connected,
            current_ip: address_of(ips, name.as_str()),
            kind: Some(kind),
        },
    )
}

/// The interfaces of the adapters that have a name, in order.
pub fn list_interfaces(adapters: &Vec<AdapterRecord>, ips: &Vec<AddressRecord>) -> (res: Vec<
    Interface,
>)
    ensures
        res@.map_values(|i: Interface| i@) == adapter_interfaces(
            adapters@.map_values(|a: AdapterRecord| adapter_view(a)),
            ips@.map_values(|r: AddressRecord| address_view(r)),
        ),
{
    let ghost all = adapters@.map_values(|a: AdapterRecord| adapter_view(a));
    let ghost ipv = ips@.map_values(|r: AddressRecord| address_view(r));
    let mut res: Vec<Interface> = Vec::new();
    let mut i: usize = 0;
    while i < adapters.len()
        invariant
            i <= adapters.len(),
            all == adapters@.map_values(|a: AdapterRecord| adapter_view(a)),
            ipv == ips@.map_values(|r: AddressRecord| address_view(r)),
            res@.map_values(|x: Interface| x@) == adapter_interfaces(all.take(i as int), ipv),
        decreases adapters.len() - i,
    {
        assert(all.take(i + 1).drop_last() =~= all.take(i as int));
        assert(all.take(i + 1).last() == adapter_view(adapters@[i as int]));
        match adapter_interface_exec(&adapters[i], ips) {
            Some(x) => {
                res.push(x);
            },
            None => {},
        }
        assert(res@.map_values(|x: Interface| x@) =~= adapter_interfaces(all.take(i + 1), ipv));
        i = i + 1;
    }
    assert(all.take(i as int) =~= all);
    res
}

// ---------------------------------------------------------------------------
// The JSON that PowerShell prints
// ---------------------------------------------------------------------------

#[verifier::external_type_specification]
#[verifier::external_body]
pub struct ExJsonValue(serde_json::Value);

/// A JSON value; numbers are kept as their text, objects as their entries.
#[derive(Debug)]
pub enum JsonValue {
    Null,
    Bool(bool),
    Number(String),
    Text(String),
    Array(Vec<JsonValue>),
    Object(Vec<(String, JsonValue)>),
}

/// A JSON value as plain values.
pub enum JsonView {
    Null,
    Bool(bool),
    Number(Seq<char>),
    Text(Seq<char>),
    Array(Seq<JsonView>),
    Object(Seq<(Seq<char>, JsonView)>),
}

pub open spec fn json_view(v: JsonValue) -> JsonView
    decreases v,
{
    match v {
        JsonValue::Null => JsonView::Null,
        JsonValue::Bool(b) => JsonView::Bool(b),
        JsonValue::Number(n) => JsonView::Number(n@),
        JsonValue::Text(t) => JsonView::Text(t@),
        JsonValue::Array(items) => JsonView::Array(
            Seq::new(
                items@.len(),
                |i: int|
                    if 0 <= i < items@.len() {
                        json_view(items@[i])
                    } else {
                        JsonView::Null
                    },
            ),
        ),
        JsonValue::Object(entries) => JsonView::Object(
            Seq::new(
                entries@.len(),
                |i: int|
                    if 0 <= i < entries@.len() {
                        (entries@[i].0@, json_view(entries@[i].1))
                    } else {
                        (seq![], JsonView::Null)
                    },
            ),
        ),
    }
}

pub open spec fn json_opt_view(v: Option<JsonValue>) -> Option<JsonView> {
    match v {
        Some(x) => Some(json_view(x)),
        None => None,
    }
}

/// What `serde_json::from_str::<serde_json::Value>` makes of a text: `None`
/// when the text is not JSON, else the value (an object has each key once).
pub uninterp spec fn parsed_json(text: Seq<char>) -> Option<JsonView>;

/// Calls `serde_json::from_str::<serde_json::Value>`. The contract claims only
/// that the result, converted variant by variant, is the value named
/// `parsed_json` of the text; the JSON grammar itself is left unsaid.
#[verifier::external_body]
pub fn parse_json(text: &str) -> (res: Option<JsonValue>)
    ensures
        json_opt_view(res) == parsed_json(text@),
{
    serde_json::from_str::<serde_json::Value>(text).ok().map(json_value)
}

/// Converts a `serde_json::Value` variant by variant.
#[verifier::external_body]
fn json_value(v: serde_json::Value) -> JsonValue {
    match v {
        serde_json::Value::Null => JsonValue::Null,
        serde_json::Value::Bool(b) => JsonValue::Bool(b),
        serde_json::Value::Number(n) => JsonValue::Number(n.to_string()),
        serde_json::Value::String(t) => JsonValue::Text(t),
        serde_json::Value::Array(a) => JsonValue::Array(a.into_iter().map(json_value).collect()),
        serde_json::Value::Object(m) => JsonValue::Object(
            m.into_iter().map(|(k, x)| (k, json_value(x))).collect(),
        ),
    }
}

/// The value under `key` in the entries of an object (`value[key]`), `Null`
/// when there is none.
pub open spec fn entry_of(entries: Seq<(Seq<char>, JsonView)>, key: Seq<char>) -> JsonView
    decreases entries.len(),
{
    if entries.len() == 0 {
        JsonView::Null
    } else if entries[0].0 == key {
        entries[0].1
    } else {
        entry_of(entries.drop_first(), key)
    }
}

/// `value[key]`: the field of an object, `Null` for a missing field or when
/// the value is not an object.
pub open spec fn field(v: JsonView, key: Seq<char>) -> JsonView {
    match v {
        JsonView::Object(entries) => entry_of(entries, key),
        _ => JsonView::Null,
    }
}

/// PowerShell prints one entry as a lone object and several as an array: the
/// items of an array, none for `null`, and the value itself otherwise.
pub open spec fn items_of(v: JsonView) -> Seq<JsonView> {
    match v {
        JsonView::Array(items) => items,
        JsonView::Null => seq![],
        _ => seq![v],
    }
}

/// The text of a field, if it is a string.
pub open spec fn text_field(v: JsonView, key: Seq<char>) -> Option<Seq<char>> {
    match field(v, key) {
        JsonView::Text(t) => Some(t),
        _ => None,
    }
}

/// An adapter as the JSON describes it.
pub open spec fn adapter_from_json(v: JsonView) -> AdapterView {
    AdapterView {
        name: text_field(v, "Name"@),
        status: text_field(v, "Status"@),
        description: text_field(v, "InterfaceDescription"@),
    }
}

/// An address as the JSON describes it.
pub open spec fn address_from_json(v: JsonView) -> (Option<Seq<char>>, Option<Seq<char>>) {
    (text_field(v, "InterfaceAlias"@), text_field(v, "IPAddress"@))
}

/// The interfaces that a parsed output describes: one per named entry of its
/// `adapters`, with addresses from its `ips`.
pub open spec fn interfaces_in_json(root: JsonView) -> Seq<InterfaceView> {
    adapter_interfaces(
        items_of(field(root, "adapters"@)).map_values(|v: JsonView| adapter_from_json(v)),
        items_of(field(root, "ips"@)).map_values(|v: JsonView| address_from_json(v)),
    )
}

/// The interfaces that the output of the PowerShell call describes: none when
/// it is not JSON.
pub open spec fn interfaces_in_output(text: Seq<char>) -> Seq<InterfaceView> {
    match parsed_json(text) {
        None => seq![],
        Some(root) => interfaces_in_json(root),
    }
}

/// The view of an optional borrowed value, `Null` when absent.
pub open spec fn json_ref_view(v: Option<&JsonValue>) -> JsonView {
    match v {
        Some(x) => json_view(*x),
        None => JsonView::Null,
    }
}

/// `value[key]`, or `None` when that is `Null` because the field is missing or
/// the value is not an object.
pub fn json_field<'a>(v: &'a JsonValue, key: &str) -> (res: Option<&'a JsonValue>)
    ensures
        json_ref_view(res) == field(json_view(*v), key@),
{
    match v {
        JsonValue::Object(entries) => {
            let ghost all = match json_view(*v) {
                JsonView::Object(e) => e,
                _ => seq![],
            };
            assert(json_view(*v) == JsonView::Object(all));
            let mut i: usize = 0;
            assert(all.skip(0) =~= all);
            while i < entries.len()
                invariant
                    i <= entries.len(),
                    json_view(*v) == JsonView::Object(all),
                    all.len() == entries@.len(),
                    forall|j: int|
                        0 <= j < entries@.len() ==> #[trigger] all[j] == (
                            entries@[j].0@,
                            json_view(entries@[j].1),
                        ),
                    entry_of(all, key@) == entry_of(all.skip(i as int), key@),
                decreases entries.len() - i,
            {
                assert(all.skip(i as int)[0] == all[i as int]);
                assert(all.skip(i as int).drop_first() =~= all.skip(i + 1));
                if str_equal(entries[i].0.as_str(), key) {
                    assert(all[i as int].0 == key@);
                    assert(entry_of(all.skip(i as int), key@) == all[i as int].1);
                    return Some(&entries[i].1);
                }
                i = i + 1;
            }
            None
        },
        _ => None,
    }
}

/// The text of `value[key]`, if it is a string.
fn json_text(v: &JsonValue, key: &str) -> (res: Option<String>)
    ensures
        opt_text(res) == text_field(json_view(*v), key@),
{
    match json_field(v, key) {
        Some(JsonValue::Text(t)) => Some(t.clone()),
        _ => None,
    }
}

fn adapter_record(v: &JsonValue) -> (res: AdapterRecord)
    ensures
        adapter_view(res) == adapter_from_json(json_view(*v)),
{
    AdapterRecord {
        name: json_text(v, "Name"),
        status: json_text(v, "Status"),
        description: json_text(v, "InterfaceDescription"),
    }
}

fn address_record(v: &JsonValue) -> (res: AddressRecord)
    ensures
        address_view(res) == address_from_json(json_view(*v)),
{
    AddressRecord { alias: json_text(v, "InterfaceAlias"), address: json_text(v, "IPAddress") }
}

/// The adapters listed by an entry of the output.
fn adapter_records(v: Option<&JsonValue>) -> (res: Vec<AdapterRecord>)
    ensures
        res@.map_values(|a: AdapterRecord| adapter_view(a)) == items_of(json_ref_view(v)).map_values(
            |x: JsonView| adapter_from_json(x),
        ),
{
    let mut res: Vec<AdapterRecord> = Vec::new();
    match v {
        None => {},
        Some(JsonValue::Null) => {},
        Some(JsonValue::Array(items)) => {
            let ghost seen = items_of(json_ref_view(v));
            let mut i: usize = 0;
            while i < items.len()
                invariant
                    i <= items.len(),
                    seen.len() == items@.len(),
                    forall|j: int| 0 <= j < items@.len() ==> #[trigger] seen[j] == json_view(items@[j]),
                    res@.map_values(|a: AdapterRecord| adapter_view(a)) == seen.take(i as int).map_values(
                        |x: JsonView| adapter_from_json(x),
                    ),
                decreases items.len() - i,
            {
                let r = adapter_record(&items[i]);
                let ghost before = res@;
                let ghost rv = adapter_view(r);
                assert(rv == adapter_from_json(seen[i as int]));
                res.push(r);
                assert(res@ =~= before.push(r));
                assert(res@.map_values(|a: AdapterRecord| adapter_view(a)) =~= before.map_values(
                    |a: AdapterRecord| adapter_view(a),
                ).push(rv));
                assert(seen.take(i + 1).map_values(|x: JsonView| adapter_from_json(x)) =~= seen.take(
                    i as int,
                ).map_values(|x: JsonView| adapter_from_json(x)).push(rv));
                i = i + 1;
            }
            assert(seen.take(i as int) =~= seen);
        },
        Some(other) => {
            res.push(adapter_record(other));
        },
    }
    assert(res@.map_values(|a: AdapterRecord| adapter_view(a)) =~= items_of(json_ref_view(v)).map_values(
        |x: JsonView| adapter_from_json(x),
    ));
    res
}

/// The addresses listed by an entry of the output.
fn address_records(v: Option<&JsonValue>) -> (res: Vec<AddressRecord>)
    ensures
        res@.map_values(|a: AddressRecord| address_view(a)) == items_of(json_ref_view(v)).map_values(
            |x: JsonView| address_from_json(x),
        ),
{
    let mut res: Vec<AddressRecord> = Vec::new();
    match v {
        None => {},
        Some(JsonValue::Null) => {},
        Some(JsonValue::Array(items)) => {
            let ghost seen = items_of(json_ref_view(v));
            let mut i: usize = 0;
            while i < items.len()
                invariant
                    i <= items.len(),
                    seen.len() == items@.len(),
                    forall|j: int| 0 <= j < items@.len() ==> #[trigger] seen[j] == json_view(items@[j]),
                    res@.map_values(|a: AddressRecord| address_view(a)) == seen.take(i as int).map_values(
                        |x: JsonView| address_from_json(x),
                    ),
                decreases items.len() - i,
            {
                let r = address_record(&items[i]);
                let ghost before = res@;
                let ghost rv = address_view(r);
                assert(rv == address_from_json(seen[i as int]));
                res.push(r);
                assert(res@ =~= before.push(r));
                assert(res@.map_values(|a: AddressRecord| address_view(a)) =~= before.map_values(
                    |a: AddressRecord| address_view(a),
                ).push(rv));
                assert(seen.take(i + 1).map_values(|x: JsonView| address_from_json(x)) =~= seen.take(
                    i as int,
                ).map_values(|x: JsonView| address_from_json(x)).push(rv));
                i = i + 1;
            }
            assert(seen.take(i as int) =~= seen);
        },
        Some(other) => {
            res.push(address_record(other));
        },
    }
    assert(res@.map_values(|a: AddressRecord| address_view(a)) =~= items_of(json_ref_view(v)).map_values(
        |x: JsonView| address_from_json(x),
    ));
    res
}

/// The interfaces that the JSON printed by the PowerShell call describes.
pub fn interfaces_from_output(text: &str) -> (res: Vec<Interface>)
    ensures
        res@.map_values(|i: Interface| i@) == interfaces_in_output(text@),
{
    let root = match parse_json(text) {
        Some(r) => r,
        None => {
            let res: Vec<Interface> = Vec::new();
            assert(res@.map_values(|i: Interface| i@) =~= Seq::<InterfaceView>::empty());
            return res;
        },
    };
    interfaces_from_json(&root)
}

/// The interfaces that the parsed output of the PowerShell call describes.
pub fn interfaces_from_json(root: &JsonValue) -> (res: Vec<Interface>)
    ensures
        res@.map_values(|i: Interface| i@) == interfaces_in_json(json_view(*root)),
{
    let adapters = adapter_records(json_field(root, "adapters"));
    let ips = address_records(json_field(root, "ips"));
    list_interfaces(&adapters, &ips)
}

} // verus!
