//! Input validation. Everything the privileged helper acts on must pass through
//! `validate_apply` first. We never build shell strings — callers always spawn
//! with an explicit argv (see `commands`), so the main defense here is
//! rejecting anything malformed before it reaches the OS tools.

use vstd::prelude::*;
use vstd::utf8::encode_utf8;

use crate::ipv4::{
    format_ipv4, ipv4_text, is_ipv4_text, lemma_ipv4_text_injective, lemma_mask_octets_injective,
    mask_octets, mask_octets_of, parse_ipv4, Octets,
};
use crate::text::{
    all_digits, contains_char, contains_char_exec, digits_value, is_digit,
    skip_char, str_equal, strip_leading, to_chars, trim, trim_str, utf8_len_at_most,
};
use crate::types::{opt_text, ApplyRequest, ApplyRequestView, Mode, Preset, PresetView};

verus! {

/// Why an input was refused, as a human-readable message.
#[derive(Debug)]
pub struct ValidationError(pub String);

impl ValidationError {
    /// The message (what `Display` prints).
    pub fn to_string(&self) -> (res: String)
        ensures
            res@ == self.0@,
    {
        self.0.clone()
    }
}

fn err<T>(msg: String) -> (res: Result<T, ValidationError>)
    ensures
        res matches Err(e) && e.0@ == msg@,
{
    Err(ValidationError(msg))
}

// ---------------------------------------------------------------------------
// Messages
// ---------------------------------------------------------------------------

pub open spec fn msg_name_length() -> Seq<char> {
    "interface name has an invalid length"@
}

pub open spec fn msg_name_chars() -> Seq<char> {
    "interface name contains unsupported characters"@
}

pub open spec fn msg_not_present(interface: Seq<char>) -> Seq<char> {
    "interface \""@ + interface + "\" is not currently present"@
}

pub open spec fn msg_not_ipv4(label: Seq<char>, value: Seq<char>) -> Seq<char> {
    label + " is not a valid IPv4 address: "@ + value
}

pub open spec fn msg_missing_ip() -> Seq<char> {
    "static preset is missing an IP address"@
}

pub open spec fn msg_missing_prefix() -> Seq<char> {
    "static preset is missing a prefix length"@
}

pub open spec fn msg_prefix_range() -> Seq<char> {
    "prefix length must be between 0 and 32"@
}

pub open spec fn msg_bad_mask(input: Seq<char>) -> Seq<char> {
    "not a valid subnet mask: "@ + input
}

pub open spec fn msg_bad_prefix(input: Seq<char>) -> Seq<char> {
    "not a valid prefix length: "@ + input
}

// ---------------------------------------------------------------------------
// Interface names
// ---------------------------------------------------------------------------

/// Letters, digits, space, and a small punctuation set; no shell metacharacters.
pub open spec fn is_interface_name_char(c: char) -> bool {
    ||| ('a' <= c && c <= 'z')
    ||| ('A' <= c && c <= 'Z')
    ||| ('0' <= c && c <= '9')
    ||| c == ' '
    ||| c == '-'
    ||| c == '_'
    ||| c == '/'
    ||| c == '('
    ||| c == ')'
    ||| c == '.'
}

/// Why `name` is not an acceptable interface name, if it is not: it must have
/// between 1 and 128 bytes of UTF-8 and only the characters above.
pub open spec fn interface_name_error(name: Seq<char>) -> Option<Seq<char>> {
    if name.len() == 0 || encode_utf8(name).len() > 128 {
        Some(msg_name_length())
    } else if exists|i: int| 0 <= i < name.len() && !is_interface_name_char(#[trigger] name[i]) {
        Some(msg_name_chars())
    } else {
        None
    }
}

fn is_interface_name_char_exec(c: char) -> (res: bool)
    ensures
        res == is_interface_name_char(c),
{
    ('a' <= c && c <= 'z') || ('A' <= c && c <= 'Z') || ('0' <= c && c <= '9') || c == ' ' || c
        == '-' || c == '_' || c == '/' || c == '(' || c == ')' || c == '.'
}

/// Interface names we accept. Covers macOS service names ("USB 10/100/1000 LAN",
/// "Wi-Fi", "Thunderbolt Bridge") and Windows aliases ("Ethernet 2").
pub fn validate_interface_name(name: &str) -> (res: Result<(), ValidationError>)
    ensures
        match res {
            Ok(()) => interface_name_error(name@) is None,
            Err(e) => interface_name_error(name@) == Some(e.0@),
        },
{
    let chars = to_chars(name);
    if chars.len() == 0 || !utf8_len_at_most(&chars, 128) {
        return err(String::from_str("interface name has an invalid length"));
    }
    let mut i: usize = 0;
    while i < chars.len()
        invariant
            i <= chars.len(),
            chars@ == name@,
            name@.len() > 0,
            encode_utf8(name@).len() <= 128,
            forall|j: int| 0 <= j < i ==> is_interface_name_char(chars@[j]),
        decreases chars.len() - i,
    {
        if !is_interface_name_char_exec(chars[i]) {
            assert(!is_interface_name_char(name@[i as int]));
            return err(String::from_str("interface name contains unsupported characters"));
        }
        i = i + 1;
    }
    Ok(())
}

// ---------------------------------------------------------------------------
// Addresses
// ---------------------------------------------------------------------------

fn validate_ipv4(label: &str, value: &str) -> (res: Result<Octets, ValidationError>)
    ensures
        match res {
            Ok(a) => value@ == ipv4_text(a),
            Err(e) => !is_ipv4_text(value@) && e.0@ == msg_not_ipv4(label@, value@),
        },
{
    match parse_ipv4(value) {
        Some(a) => Ok(a),
        None => {
            let mut msg = String::from_str(label);
            msg.append(" is not a valid IPv4 address: ");
            msg.append(value);
            err(msg)
        },
    }
}

// ---------------------------------------------------------------------------
// Apply requests
// ---------------------------------------------------------------------------

/// The non-empty entries of `s`, in order.
pub open spec fn non_empty_entries(s: Seq<Seq<char>>) -> Seq<Seq<char>>
    decreases s.len(),
{
    if s.len() == 0 {
        seq![]
    } else if s.last().len() > 0 {
        non_empty_entries(s.drop_last()).push(s.last())
    } else {
        non_empty_entries(s.drop_last())
    }
}

/// The first non-empty entry of `s` that is not an IPv4 address, if any.
pub open spec fn first_bad_address(s: Seq<Seq<char>>) -> Option<Seq<char>>
    decreases s.len(),
{
    if s.len() == 0 {
        None
    } else if first_bad_address(s.drop_last()) is Some {
        first_bad_address(s.drop_last())
    } else if s.last().len() > 0 && !is_ipv4_text(s.last()) {
        Some(s.last())
    } else {
        None
    }
}

/// An optional text with the empty text taken as absent.
pub open spec fn non_empty_opt(o: Option<Seq<char>>) -> Option<Seq<char>> {
    match o {
        Some(s) => if s.len() > 0 {
            Some(s)
        } else {
            None
        },
        None => None,
    }
}

/// The request that `validate_apply` builds from a preset and an interface, or
/// the message of the first check that fails, in this order: the interface
/// name, its presence among the live interfaces, then (for a static preset)
/// the IP address, the prefix, the gateway and each DNS server.
pub open spec fn apply_outcome(p: PresetView, interface: Seq<char>, live: Seq<Seq<char>>) -> Result<
    ApplyRequestView,
    Seq<char>,
> {
    if interface_name_error(interface) is Some {
        Err(interface_name_error(interface)->0)
    } else if !live.contains(interface) {
        Err(msg_not_present(interface))
    } else {
        match p.mode {
            Mode::Dhcp => Ok(
                ApplyRequestView {
                    interface,
                    mode: Mode::Dhcp,
                    ip: None,
                    prefix: None,
                    gateway: None,
                    dns: seq![],
                    dns_clear: p.dns_clear,
                },
            ),
            Mode::Static => match p.ip {
                None => Err(msg_missing_ip()),
                Some(ip) => if !is_ipv4_text(ip) {
                    Err(msg_not_ipv4("IP address"@, ip))
                } else {
                    match p.prefix {
                        None => Err(msg_missing_prefix()),
                        Some(prefix) => if prefix > 32 {
                            Err(msg_prefix_range())
                        } else if non_empty_opt(p.gateway) is Some && !is_ipv4_text(
                            non_empty_opt(p.gateway)->0,
                        ) {
                            Err(msg_not_ipv4("gateway"@, non_empty_opt(p.gateway)->0))
                        } else if first_bad_address(p.dns) is Some {
                            Err(msg_not_ipv4("DNS server"@, first_bad_address(p.dns)->0))
                        } else {
                            Ok(
                                ApplyRequestView {
                                    interface,
                                    mode: Mode::Static,
                                    ip: Some(ip),
                                    prefix: Some(prefix),
                                    gateway: non_empty_opt(p.gateway),
                                    dns: non_empty_entries(p.dns),
                                    dns_clear: p.dns_clear,
                                },
                            )
                        },
                    }
                },
            },
        }
    }
}

/// A request that the helper may act on: an acceptable name of a live
/// interface; for DHCP nothing else; for a static address a valid IP, a prefix
/// of at most 32, an optional valid gateway and valid DNS servers.
pub open spec fn is_validated(r: ApplyRequestView, live: Seq<Seq<char>>) -> bool {
    &&& interface_name_error(r.interface) is None
    &&& live.contains(r.interface)
    &&& match r.mode {
        Mode::Dhcp => r.ip is None && r.prefix is None && r.gateway is None && r.dns.len() == 0,
        Mode::Static => {
            &&& r.ip matches Some(ip) && is_ipv4_text(ip)
            &&& r.prefix matches Some(p) && p <= 32
            &&& r.gateway matches Some(g) ==> is_ipv4_text(g)
            &&& forall|i: int| 0 <= i < r.dns.len() ==> is_ipv4_text(#[trigger] r.dns[i])
        },
    }
}

/// When no entry is a bad address, every non-empty entry is an address.
pub proof fn lemma_entries_valid(s: Seq<Seq<char>>)
    requires
        first_bad_address(s) is None,
    ensures
        forall|i: int|
            0 <= i < non_empty_entries(s).len() ==> is_ipv4_text(
                #[trigger] non_empty_entries(s)[i],
            ),
    decreases s.len(),
{
    if s.len() > 0 {
        lemma_entries_valid(s.drop_last());
        let r = non_empty_entries(s.drop_last());
        assert forall|i: int|
            0 <= i < non_empty_entries(s).len() implies is_ipv4_text(
            #[trigger] non_empty_entries(s)[i],
        ) by {
            if i < r.len() {
                assert(non_empty_entries(s)[i] == r[i]);
            }
        }
    }
}

/// Whatever `validate_apply` accepts is fit for the helper to act on.
pub proof fn lemma_outcome_validated(p: PresetView, interface: Seq<char>, live: Seq<Seq<char>>)
    requires
        apply_outcome(p, interface, live) is Ok,
    ensures
        is_validated(apply_outcome(p, interface, live)->Ok_0, live),
{
    if p.mode == Mode::Static {
        lemma_entries_valid(p.dns);
    }
}

/// Whether `s` is one of the texts in `list`.
fn list_contains(list: &[String], s: &str) -> (res: bool)
    ensures
        res == list.deep_view().contains(s@),
{
    let mut k: usize = 0;
    while k < list.len()
        invariant
            k <= list.len(),
            forall|j: int| 0 <= j < k ==> list.deep_view()[j] != s@,
        decreases list.len() - k,
    {
        if str_equal(list[k].as_str(), s) {
            assert(list.deep_view()[k as int] == s@);
            return true;
        }
        k = k + 1;
    }
    assert forall|j: int| 0 <= j < list.deep_view().len() implies list.deep_view()[j] != s@ by {
        assert(j < k);
    }
    false
}

/// Build a validated ApplyRequest from a preset + a chosen interface.
///
/// `live_interfaces` is the set of friendly names currently present on the
/// machine. We require the chosen interface to be one of them — the strongest
/// possible check against a forged/injected interface argument.
pub fn validate_apply(preset: &Preset, interface: &str, live_interfaces: &[String]) -> (res: Result<
    ApplyRequest,
    ValidationError,
>)
    ensures
        match res {
            Ok(r) => apply_outcome(preset@, interface@, live_interfaces.deep_view()) == Ok::<
                ApplyRequestView,
                Seq<char>,
            >(r@),
            Err(e) => apply_outcome(preset@, interface@, live_interfaces.deep_view()) == Err::<
                ApplyRequestView,
                Seq<char>,
            >(e.0@),
        },
        res is Ok ==> is_validated((res->Ok_0)@, live_interfaces.deep_view()),
{
    let ghost live = live_interfaces.deep_view();
    let ghost p = preset@;
    validate_interface_name(interface)?;
    if !list_contains(live_interfaces, interface) {
        let mut msg = String::from_str("interface \"");
        msg.append(interface);
        msg.append("\" is not currently present");
        return err(msg);
    }
    assert(live.contains(interface@));
    match preset.mode {
        Mode::Dhcp => {
            let r = ApplyRequest {
                interface: String::from_str(interface),
                mode: Mode::Dhcp,
                ip: None,
                prefix: None,
                gateway: None,
                dns: Vec::new(),
                dns_clear: preset.dns_clear,
            };
            assert(r@.dns =~= Seq::<Seq<char>>::empty());
            proof {
                lemma_outcome_validated(p, interface@, live);
            }
            Ok(r)
        },
        Mode::Static => {
            let ip: &str = match &preset.ip {
                Some(ip) => ip.as_str(),
                None => {
                    return err(String::from_str("static preset is missing an IP address"));
                },
            };
            validate_ipv4("IP address", ip)?;
            let prefix = match preset.prefix {
                Some(prefix) => prefix,
                None => {
                    return err(String::from_str("static preset is missing a prefix length"));
                },
            };
            if prefix > 32 {
                return err(String::from_str("prefix length must be between 0 and 32"));
            }
            let mut gateway: Option<String> = None;
            match &preset.gateway {
                Some(gw) => {
                    if !gw.as_str().is_empty() {
                        validate_ipv4("gateway", gw.as_str())?;
                        gateway = Some(gw.clone());
                    }
                },
                None => {},
            }
            assert(opt_text(gateway) == non_empty_opt(p.gateway));
            let mut dns: Vec<String> = Vec::new();
            let mut i: usize = 0;
            #[verifier::loop_isolation(false)]
            while i < preset.dns.len()
                invariant
                    i <= preset.dns.len(),
                    p == preset@,
                    first_bad_address(p.dns.take(i as int)) is None,
                    dns.deep_view() == non_empty_entries(p.dns.take(i as int)),
                decreases preset.dns.len() - i,
            {
                let d = &preset.dns[i];
                assert(p.dns.take(i + 1).drop_last() =~= p.dns.take(i as int));
                assert(p.dns[i as int] == d@);
                if !d.as_str().is_empty() {
                    match validate_ipv4("DNS server", d.as_str()) {
                        Ok(_) => {},
                        Err(e) => {
                            proof {
                                assert(p.dns.take(i + 1) =~= p.dns.take(i as int).push(d@));
                                assert(first_bad_address(p.dns.take(i + 1)) == Some(d@));
                                lemma_first_bad_extends(p.dns, i as int + 1);
                            }
                            return Err(e);
                        },
                    }
                    dns.push(d.clone());
                } else {
                }
                proof {
                    assert(dns.deep_view() =~= non_empty_entries(p.dns.take(i + 1)));
                }
                i = i + 1;
            }
            assert(p.dns.take(preset.dns.len() as int) =~= p.dns);
            let r = ApplyRequest {
                interface: String::from_str(interface),
                mode: Mode::Static,
                ip: Some(String::from_str(ip)),
                prefix: Some(prefix),
                gateway,
                dns,
                dns_clear: preset.dns_clear,
            };
            proof {
                lemma_outcome_validated(p, interface@, live);
            }
            Ok(r)
        },
    }
}

/// The first bad entry of a prefix stays the first bad entry of the whole.
proof fn lemma_first_bad_extends(s: Seq<Seq<char>>, n: int)
    requires
        0 <= n <= s.len(),
        first_bad_address(s.take(n)) is Some,
    ensures
        first_bad_address(s) == first_bad_address(s.take(n)),
    decreases s.len() - n,
{
    if n < s.len() {
        assert(s.take(n + 1).drop_last() =~= s.take(n));
        lemma_first_bad_extends(s, n + 1);
    } else {
        assert(s.take(n) =~= s);
    }
}

// ---------------------------------------------------------------------------
// Subnets
// ---------------------------------------------------------------------------

/// Convert a CIDR prefix (e.g. 24) to a dotted subnet mask (e.g. 255.255.255.0).
/// macOS `networksetup` and `netsh ... static` both want a dotted mask.
pub fn prefix_to_mask(prefix: u8) -> (res: String)
    requires
        prefix <= 32,
    ensures
        res@ == ipv4_text(mask_octets(prefix as int)),
{
    format_ipv4(mask_octets_of(prefix))
}

/// The CIDR prefix whose dotted mask `s` is, if `s` is the mask of one.
pub open spec fn mask_prefix_of(s: Seq<char>) -> Option<u8> {
    if exists|p: u8| p <= 32 && s == ipv4_text(mask_octets(p as int)) {
        Some(choose|p: u8| p <= 32 && s == ipv4_text(mask_octets(p as int)))
    } else {
        None
    }
}

/// A mask text determines its prefix.
pub proof fn lemma_mask_prefix_of(s: Seq<char>, p: u8)
    requires
        p <= 32,
        s == ipv4_text(mask_octets(p as int)),
    ensures
        mask_prefix_of(s) == Some(p),
{
    let q = choose|q: u8| q <= 32 && s == ipv4_text(mask_octets(q as int));
    lemma_ipv4_text_injective(mask_octets(p as int), mask_octets(q as int));
    lemma_mask_octets_injective(p as int, q as int);
}

/// Convert a dotted subnet mask (e.g. 255.255.255.0) to a CIDR prefix (24).
/// Returns None if the mask isn't a valid contiguous mask.
pub fn mask_to_prefix(mask: &str) -> (res: Option<u8>)
    ensures
        res == mask_prefix_of(mask@),
{
    let a = match parse_ipv4(mask) {
        Some(a) => a,
        None => {
            return None;
        },
    };
    let mut p: u8 = 0;
    while p <= 32
        invariant
            p <= 33,
            mask@ == ipv4_text(a),
            forall|q: u8| q < p ==> mask_octets(q as int) != a,
        decreases 33 - p,
    {
        let m = mask_octets_of(p);
        if m.0 == a.0 && m.1 == a.1 && m.2 == a.2 && m.3 == a.3 {
            proof {
                lemma_mask_prefix_of(mask@, p);
            }
            return Some(p);
        }
        p = p + 1;
    }
    proof {
        assert forall|q: u8| !(q <= 32 && mask@ == ipv4_text(mask_octets(q as int))) by {
            if q <= 32 && mask@ == ipv4_text(mask_octets(q as int)) {
                lemma_ipv4_text_injective(a, mask_octets(q as int));
            }
        }
    }
    None
}

/// What `u8::from_str` accepts: an optional `+`, then one or more ASCII digits
/// (leading zeros allowed) denoting a number of at most 255.
pub open spec fn parse_u8_text(s: Seq<char>) -> Option<u8> {
    let d = if s.len() > 0 && s[0] == '+' {
        s.drop_first()
    } else {
        s
    };
    if d.len() > 0 && all_digits(d) && digits_value(d) <= 255 {
        Some(digits_value(d) as u8)
    } else {
        None
    }
}

/// A longer run of digits denotes at least as much.
proof fn lemma_digits_value_monotone(s: Seq<char>, n: int)
    requires
        0 <= n <= s.len(),
        all_digits(s),
    ensures
        digits_value(s.take(n)) <= digits_value(s),
    decreases s.len() - n,
{
    if n < s.len() {
        lemma_digits_value_monotone(s, n + 1);
        assert(s.take(n + 1).drop_last() =~= s.take(n));
    } else {
        assert(s.take(n) =~= s);
    }
}

/// Parses `s[from..]` as `u8::from_str` does.
fn parse_u8_chars(s: &Vec<char>, from: usize) -> (res: Option<u8>)
    requires
        from <= s.len(),
    ensures
        res == parse_u8_text(s@.subrange(from as int, s.len() as int)),
{
    let ghost t = s@.subrange(from as int, s.len() as int);
    let len = s.len();
    let mut start = from;
    if start < len && s[start] == '+' {
        start = start + 1;
    }
    let ghost d = s@.subrange(start as int, len as int);
    assert(d =~= (if t.len() > 0 && t[0] == '+' {
        t.drop_first()
    } else {
        t
    }));
    if start == len {
        return None;
    }
    let mut i = start;
    let mut value: u32 = 0;
    while i < len
        invariant
            start < len,
            start <= i <= len,
            len == s.len(),
            from <= start,
            t == s@.subrange(from as int, len as int),
            d == s@.subrange(start as int, len as int),
            d == (if t.len() > 0 && t[0] == '+' {
                t.drop_first()
            } else {
                t
            }),
            all_digits(d.take(i - start)),
            value == digits_value(d.take(i - start)),
            value <= 255,
        decreases len - i,
    {
        let c = s[i];
        if !('0' <= c && c <= '9') {
            assert(!is_digit(d[i - start]));
            return None;
        }
        assert(d.take(i - start + 1).drop_last() =~= d.take(i - start));
        assert(d.take(i - start + 1)[i - start] == c);
        value = value * 10 + (c as u32 - '0' as u32);
        assert(all_digits(d.take(i - start + 1))) by {
            assert forall|j: int| 0 <= j < d.take(i - start + 1).len() implies #[trigger] is_digit(
                d.take(i - start + 1)[j],
            ) by {
                if j < i - start {
                    assert(d.take(i - start + 1)[j] == d.take(i - start)[j]);
                }
            }
        }
        if value > 255 {
            proof {
                if all_digits(d) {
                    lemma_digits_value_monotone(d, i - start + 1);
                }
            }
            return None;
        }
        i = i + 1;
    }
    assert(d.take(len - start) =~= d);
    Some(value as u8)
}

/// What `parse_subnet` makes of its input: white space trimmed and leading
/// slashes dropped, then a dotted mask if the rest holds a dot, else a prefix.
pub open spec fn subnet_text(input: Seq<char>) -> Seq<char> {
    strip_leading(trim(input), '/')
}

/// The prefix that `parse_subnet` returns for `input`, or its error message.
pub open spec fn parse_subnet_outcome(input: Seq<char>) -> Result<u8, Seq<char>> {
    let s = subnet_text(input);
    if contains_char(s, '.') {
        match mask_prefix_of(s) {
            Some(p) => Ok(p),
            None => Err(msg_bad_mask(input)),
        }
    } else {
        match parse_u8_text(s) {
            None => Err(msg_bad_prefix(input)),
            Some(p) => if p > 32 {
                Err(msg_prefix_range())
            } else {
                Ok(p)
            },
        }
    }
}

/// Accept whatever a user types for "subnet": a prefix ("24" or "/24") or a
/// dotted mask ("255.255.255.0"). Returns the CIDR prefix.
pub fn parse_subnet(input: &str) -> (res: Result<u8, ValidationError>)
    ensures
        match res {
            Ok(p) => parse_subnet_outcome(input@) == Ok::<u8, Seq<char>>(p),
            Err(e) => parse_subnet_outcome(input@) == Err::<u8, Seq<char>>(e.0@),
        },
{
    let trimmed = trim_str(input);
    let chars = to_chars(trimmed);
    let start = skip_char(&chars, 0, chars.len(), '/');
    assert(chars@.subrange(0, chars@.len() as int) =~= chars@);
    let s = trimmed.substring_char(start, chars.len());
    let rest = to_chars(s);
    assert(rest@ == subnet_text(input@));
    if contains_char_exec(&rest, '.') {
        match mask_to_prefix(s) {
            Some(p) => Ok(p),
            None => {
                let mut msg = String::from_str("not a valid subnet mask: ");
                msg.append(input);
                err(msg)
            },
        }
    } else {
        assert(rest@.subrange(0, rest@.len() as int) =~= rest@);
        match parse_u8_chars(&rest, 0) {
            None => {
                let mut msg = String::from_str("not a valid prefix length: ");
                msg.append(input);
                err(msg)
            },
            Some(p) => {
                if p > 32 {
                    return err(String::from_str("prefix length must be between 0 and 32"));
                }
                Ok(p)
            },
        }
    }
}

} // verus!
