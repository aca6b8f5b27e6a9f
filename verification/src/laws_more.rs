//! More properties stated directly over inputs and results: the bit pattern
//! of masks, the range of prefixes, which error validation reports first, the
//! helper's failure message, the numbering of menu rows, and which entry a
//! lookup by name picks.

use vstd::prelude::*;
use vstd::utf8::encode_utf8;

use crate::discover::windows::address_for;
use crate::helper::{joined, step_failed_message};
use crate::ipv4::{mask_byte, mask_octets, two_pow, Octets};
use crate::text::{decimal, trim};
use crate::tray::{connected_interfaces, index_with_id, ip_of, row_number};
use crate::types::Interface;
use crate::types::{InterfaceView, Preset, PresetView};
use crate::validate::{
    apply_outcome, interface_name_error, parse_subnet_outcome, msg_name_chars, msg_name_length,
    msg_not_present, msg_prefix_range,
};

verus! {

// ---------------------------------------------------------------------------
// Masks
// ---------------------------------------------------------------------------

/// The 32-bit number whose big-endian bytes are the octets.
pub open spec fn octets_value(a: Octets) -> int {
    a.0 * 16777216 + a.1 * 65536 + a.2 * 256 + a.3
}

proof fn lemma_two_pow_add(a: nat, b: nat)
    ensures
        two_pow(a + b) == two_pow(a) * two_pow(b),
    decreases a,
{
    if a == 0 {
        assert(two_pow(0) == 1);
        assert(a + b == b);
    } else {
        let a1 = (a - 1) as nat;
        lemma_two_pow_add(a1, b);
        let n = a + b;
        assert(((n - 1) as nat) == a1 + b);
        assert(two_pow(n) == 2 * two_pow(a1 + b));
        assert(two_pow(a) == 2 * two_pow(a1));
        let x = two_pow(a1);
        let y = two_pow(b);
        assert(2 * (x * y) == (2 * x) * y) by (nonlinear_arith);
    }
}

proof fn lemma_two_pow_values()
    ensures
        two_pow(8) == 256,
        two_pow(16) == 65536,
        two_pow(24) == 16777216,
        two_pow(32) == 4294967296,
{
    reveal_with_fuel(two_pow, 9);
    lemma_two_pow_add(8, 8);
    lemma_two_pow_add(16, 8);
    lemma_two_pow_add(24, 8);
}

/// The byte with `k` leading ones, for `k` in `0..8`, is `256 - 2^(8 - k)`.
proof fn lemma_mask_byte_low(k: int)
    requires
        0 <= k < 8,
    ensures
        mask_byte(k) == 256 - two_pow((8 - k) as nat),
{
    crate::ipv4::lemma_mask_byte_values();
    reveal_with_fuel(two_pow, 9);
}

/// The mask of a prefix `p` is, as a 32-bit number, `p` one bits followed by
/// `32 - p` zero bits: `2^32 - 2^(32 - p)`.
pub proof fn law_mask_bit_pattern(p: int)
    requires
        0 <= p <= 32,
    ensures
        octets_value(mask_octets(p)) == two_pow(32) - two_pow((32 - p) as nat),
{
    lemma_two_pow_values();
    if p == 32 {
        assert(two_pow(0) == 1);
    } else {
        let i = p / 8;
        let k = p - 8 * i;
        lemma_mask_byte_low(k);
        let b = two_pow((8 - k) as nat);
        if i == 0 {
            lemma_two_pow_add((8 - k) as nat, 24);
            assert(((8 - k) + 24) as nat == (32 - p) as nat);
            assert((256 - b) * 16777216 == 4294967296 - b * 16777216) by (nonlinear_arith);
        } else if i == 1 {
            lemma_two_pow_add((8 - k) as nat, 16);
            assert(((8 - k) + 16) as nat == (32 - p) as nat);
            assert((256 - b) * 65536 == 16777216 - b * 65536) by (nonlinear_arith);
        } else if i == 2 {
            lemma_two_pow_add((8 - k) as nat, 8);
            assert(((8 - k) + 8) as nat == (32 - p) as nat);
            assert((256 - b) * 256 == 65536 - b * 256) by (nonlinear_arith);
        } else {
            assert(((8 - k) + 0) as nat == (32 - p) as nat);
        }
    }
}

// ---------------------------------------------------------------------------
// Subnets and validation
// ---------------------------------------------------------------------------

/// A prefix written as a number above 32 (and at most 255) is refused as out
/// of range.
pub proof fn law_subnet_refuses_large_prefix(n: u8)
    requires
        n > 32,
    ensures
        parse_subnet_outcome(decimal(n as nat)) == Err::<u8, Seq<char>>(msg_prefix_range()),
{
    let d = decimal(n as nat);
    crate::ipv4::lemma_octet_decimal(n);
    assert(crate::text::is_digit(d[0]));
    assert(crate::text::is_digit(d.last()));
    assert(trim(d) == d);
    assert(crate::text::strip_leading(d, '/') == d);
    assert(!crate::text::contains_char(d, '.')) by {
        assert forall|i: int| 0 <= i < d.len() implies d[i] != '.' by {
            assert(crate::text::is_digit(d[i]));
        }
    }
    assert(crate::validate::parse_u8_text(d) == Some(n));
}

/// A name of more than 128 bytes of UTF-8 is refused as too long, whatever
/// its characters.
pub proof fn law_interface_name_too_long(name: Seq<char>)
    requires
        encode_utf8(name).len() > 128,
    ensures
        interface_name_error(name) == Some(msg_name_length()),
{
}

/// Validation reports the first failing check: a bad interface name before
/// anything else, then an interface that is not live, before anything about
/// the preset.
pub proof fn law_validation_error_order(p: PresetView, interface: Seq<char>, live: Seq<Seq<char>>)
    ensures
        (interface.len() == 0 || encode_utf8(interface).len() > 128) ==> apply_outcome(
            p,
            interface,
            live,
        ) == Err::<crate::types::ApplyRequestView, Seq<char>>(msg_name_length()),
        interface_name_error(interface) == Some(msg_name_chars()) ==> apply_outcome(
            p,
            interface,
            live,
        ) == Err::<crate::types::ApplyRequestView, Seq<char>>(msg_name_chars()),
        interface_name_error(interface) is None && !live.contains(interface) ==> apply_outcome(
            p,
            interface,
            live,
        ) == Err::<crate::types::ApplyRequestView, Seq<char>>(msg_not_present(interface)),
{
}

// ---------------------------------------------------------------------------
// The helper
// ---------------------------------------------------------------------------

/// A failed step is reported with its standard error, trimmed, when that holds
/// more than white space, and with its trimmed standard output otherwise; the
/// step is named by its words joined with spaces.
pub proof fn law_step_failure_message(argv: Seq<Seq<char>>, stderr: Seq<char>, stdout: Seq<char>)
    ensures
        trim(stderr).len() > 0 ==> step_failed_message(argv, stderr, stdout) == "step `"@ + joined(
            argv,
        ) + "` failed: "@ + trim(stderr),
        trim(stderr).len() == 0 ==> step_failed_message(argv, stderr, stdout) == "step `"@
            + joined(argv) + "` failed: "@ + trim(stdout),
        joined(seq![]) == Seq::<char>::empty(),
        forall|w: Seq<char>| joined(seq![w]) == w,
        argv.len() > 0 ==> forall|w: Seq<char>|
            #[trigger] joined(argv.push(w)) == joined(argv) + " "@ + w,
{
    assert forall|w: Seq<char>| joined(seq![w]) == w by {
        assert(seq![w].len() == 1);
    }
    if argv.len() > 0 {
        assert forall|w: Seq<char>| #[trigger] joined(argv.push(w)) == joined(argv) + " "@ + w by {
            assert(argv.push(w).drop_last() =~= argv);
        }
    }
}

// ---------------------------------------------------------------------------
// The tray
// ---------------------------------------------------------------------------

/// Menu rows are numbered from 0 in menu order: within a submenu each row
/// follows the one before it, the custom-address row follows the last preset
/// row, and the next submenu starts right after that.
pub proof fn law_row_numbering(k: int, j: int, n: int)
    requires
        0 <= k,
        0 <= j < n,
    ensures
        row_number(0, 0, n) == 0,
        row_number(k, j + 1, n) == row_number(k, j, n) + 1,
        row_number(k + 1, 0, n) == row_number(k, n, n) + 1,
{
    assert((k + 1) * (n + 1) == k * (n + 1) + n + 1) by (nonlinear_arith);
}

/// The IP shown for an interface is that of the first interface in the list
/// with its name, or `no IP` when that one has none or no interface has it.
pub proof fn law_ip_of_first_match(interfaces: Seq<InterfaceView>, name: Seq<char>, from: int)
    requires
        0 <= from <= interfaces.len(),
    ensures
        (forall|j: int| from <= j < interfaces.len() ==> (#[trigger] interfaces[j]).name != name)
            ==> ip_of(interfaces, name, from) == "no IP"@,
        forall|k: int|
            from <= k < interfaces.len() && (#[trigger] interfaces[k]).name == name && (forall|
                j: int,
            | from <= j < k ==> interfaces[j].name != name) ==> ip_of(interfaces, name, from) == (
            match interfaces[k].current_ip {
                Some(ip) => ip,
                None => "no IP"@,
            }),
    decreases interfaces.len() - from,
{
    if from < interfaces.len() {
        law_ip_of_first_match(interfaces, name, from + 1);
        assert forall|k: int|
            from <= k < interfaces.len() && (#[trigger] interfaces[k]).name == name && (forall|
                j: int,
            | from <= j < k ==> interfaces[j].name != name) implies ip_of(interfaces, name, from)
            == (match interfaces[k].current_ip {
            Some(ip) => ip,
            None => "no IP"@,
        }) by {
            if k > from {
                assert(interfaces[from].name != name);
            }
        }
    }
}

/// The preset a lookup by id finds is the first one in the list with that id,
/// and none is found exactly when no preset has it.
pub proof fn law_preset_first_match(presets: Seq<Preset>, id: Seq<char>, from: int)
    requires
        0 <= from <= presets.len(),
    ensures
        index_with_id(presets, id, from) is None <==> (forall|j: int|
            from <= j < presets.len() ==> (#[trigger] presets[j]).id@ != id),
        index_with_id(presets, id, from) matches Some(k) ==> from <= k < presets.len()
            && presets[k].id@ == id && forall|j: int| from <= j < k ==> (#[trigger] presets[j]).id@
            != id,
    decreases presets.len() - from,
{
    if from < presets.len() {
        law_preset_first_match(presets, id, from + 1);
    }
}

/// The address reported for an alias is that of the first address record
/// with that alias; none when no record has it.
pub proof fn law_address_first_match(
    ips: Seq<(Option<Seq<char>>, Option<Seq<char>>)>,
    alias: Seq<char>,
)
    ensures
        (forall|j: int| 0 <= j < ips.len() ==> (#[trigger] ips[j]).0 != Some(alias)) ==> address_for(
            ips,
            alias,
        ) is None,
        forall|k: int|
            0 <= k < ips.len() && (#[trigger] ips[k]).0 == Some(alias) && (forall|j: int|
                0 <= j < k ==> ips[j].0 != Some(alias)) ==> address_for(ips, alias) == ips[k].1,
    decreases ips.len(),
{
    if ips.len() > 0 {
        let t = ips.drop_first();
        law_address_first_match(t, alias);
        assert forall|j: int| 0 <= j < t.len() implies #[trigger] t[j] == ips[j + 1] by {}
        assert forall|k: int|
            0 <= k < ips.len() && (#[trigger] ips[k]).0 == Some(alias) && (forall|j: int|
                0 <= j < k ==> ips[j].0 != Some(alias)) implies address_for(ips, alias)
            == ips[k].1 by {
            if k > 0 {
                assert(ips[0].0 != Some(alias));
                assert(t[k - 1] == ips[k]);
                assert forall|j: int| 0 <= j < k - 1 implies t[j].0 != Some(alias) by {
                    assert(t[j] == ips[j + 1]);
                }
            }
        }
        if forall|j: int| 0 <= j < ips.len() ==> (#[trigger] ips[j]).0 != Some(alias) {
            assert forall|j: int| 0 <= j < t.len() implies (#[trigger] t[j]).0 != Some(alias) by {
                assert(t[j] == ips[j + 1]);
            }
        }
    }
}

/// The submenus are for connected interfaces only, and for all of them: every
/// interface the filter keeps is connected, it keeps as many as are
/// connected, and a list of connected interfaces is kept whole.
pub proof fn law_connected_interfaces(s: Seq<Interface>)
    ensures
        forall|k: int|
            0 <= k < connected_interfaces(s).len() ==> (#[trigger] connected_interfaces(s)[k]).connected,
        connected_interfaces(s).len() == s.filter(|i: Interface| i.connected).len(),
        (forall|k: int| 0 <= k < s.len() ==> (#[trigger] s[k]).connected) ==> connected_interfaces(s)
            == s,
        (forall|k: int| 0 <= k < s.len() ==> !(#[trigger] s[k]).connected) ==> connected_interfaces(
            s,
        ).len() == 0,
    decreases s.len(),
{
    reveal(Seq::filter);
    if s.len() > 0 {
        let t = s.drop_last();
        law_connected_interfaces(t);
        assert(s.last() == s[s.len() - 1]);
        if forall|k: int| 0 <= k < s.len() ==> (#[trigger] s[k]).connected {
            assert forall|k: int| 0 <= k < t.len() implies (#[trigger] t[k]).connected by {
                assert(t[k] == s[k]);
            }
            assert(t.push(s.last()) =~= s);
        }
        if forall|k: int| 0 <= k < s.len() ==> !(#[trigger] s[k]).connected {
            assert forall|k: int| 0 <= k < t.len() implies !(#[trigger] t[k]).connected by {
                assert(t[k] == s[k]);
            }
        }
    }
}

/// White space around a prefix is ignored: a prefix written as a number with
/// spaces, tabs or line breaks around it reads as that prefix.
pub proof fn law_subnet_ignores_surrounding_space(p: u8, before: char, after: char)
    requires
        p <= 32,
        before == ' ' || before == '\t' || before == '\n' || before == '\r',
        after == ' ' || after == '\t' || after == '\n' || after == '\r',
    ensures
        parse_subnet_outcome(seq![before] + decimal(p as nat) + seq![after]) == Ok::<u8, Seq<char>>(p),
{
    let d = decimal(p as nat);
    let s = seq![before] + d + seq![after];
    crate::ipv4::lemma_octet_decimal(p);
    assert(crate::text::is_digit(d[0]));
    assert(crate::text::is_digit(d.last()));
    assert(s.drop_first() =~= d + seq![after]);
    assert(crate::text::trim_start(s) == crate::text::trim_start(d + seq![after]));
    assert((d + seq![after])[0] == d[0]);
    assert(crate::text::trim_start(d + seq![after]) == d + seq![after]);
    assert((d + seq![after]).drop_last() =~= d);
    assert(crate::text::trim_end(d + seq![after]) == crate::text::trim_end(d));
    assert(crate::text::trim_end(d) == d);
    assert(trim(s) == d);
    crate::laws::law_subnet_reads_prefix(p);
}

/// On Windows an adapter is connected exactly when its status is `Up` in any
/// mix of letter case.
pub proof fn law_windows_connected(status: Seq<char>)
    ensures
        crate::discover::windows::eq_ignore_ascii_case(status, "Up"@) <==> (status.len() == 2 && (
        status[0] == 'U' || status[0] == 'u') && (status[1] == 'P' || status[1] == 'p')),
{
    reveal_strlit("Up");
    let up = "Up"@;
    assert(up.len() == 2 && up[0] == 'U' && up[1] == 'p');
    if status.len() == 2 {
        lemma_ascii_lower_is(status[0], 'U', 'u');
        lemma_ascii_lower_is(status[1], 'P', 'p');
        assert(crate::discover::windows::ascii_lower_code('p') == crate::discover::windows::ascii_lower_code('P'));
    }
}

/// A character lowers to the same code as the letter `upper` exactly when it
/// is `upper` or `lower`.
proof fn lemma_ascii_lower_is(c: char, upper: char, lower: char)
    requires
        (upper == 'U' && lower == 'u') || (upper == 'P' && lower == 'p'),
    ensures
        crate::discover::windows::ascii_lower_code(c) == crate::discover::windows::ascii_lower_code(
            upper,
        ) <==> (c == upper || c == lower),
{
    let u = c as u32;
    vstd::utf8::char_u32_cast(c, u);
    vstd::utf8::char_u32_cast(upper, upper as u32);
    vstd::utf8::char_u32_cast(lower, lower as u32);
    assert(upper as u32 == if upper == 'U' { 85u32 } else { 80u32 });
    assert(lower as u32 == if lower == 'u' { 117u32 } else { 112u32 });
}

/// Reading lines: a line without a line break, then `\n`, then the rest.
proof fn lemma_lines_after_line(h: Seq<char>, r: Seq<char>, cur: Seq<char>)
    requires
        forall|i: int| 0 <= i < h.len() ==> h[i] != '\n',
    ensures
        crate::text::lines_after(h + seq!['\n'] + r, cur) == seq![crate::text::strip_cr(cur + h)]
            + crate::text::lines(r),
    decreases h.len(),
{
    let s = h + seq!['\n'] + r;
    if h.len() == 0 {
        assert(s[0] == '\n');
        assert(s.drop_first() =~= r);
        assert(cur + h =~= cur);
    } else {
        assert(s[0] == h[0]);
        assert(s.drop_first() =~= h.drop_first() + seq!['\n'] + r);
        lemma_lines_after_line(h.drop_first(), r, cur.push(h[0]));
        assert(cur.push(h[0]) + h.drop_first() =~= cur + h);
    }
}

/// The first line of a service listing is its header and never names a
/// service: a listing is read as the lines after its first line break.
pub proof fn law_service_list_skips_header(header: Seq<char>, rest: Seq<char>)
    requires
        forall|i: int| 0 <= i < header.len() ==> header[i] != '\n',
    ensures
        crate::discover::macos::service_list(header + seq!['\n'] + rest)
            == crate::discover::macos::services_on(crate::text::lines(rest)),
{
    lemma_lines_after_line(header, rest, seq![]);
    let ls = crate::text::lines(header + seq!['\n'] + rest);
    assert(ls.drop_first() =~= crate::text::lines(rest));
}

/// `-getinfo` output is read at its first `IP address: ` line: a trimmed
/// address that is neither empty nor `none` is the current IP and means
/// connected; lines before it that report no address are skipped.
pub proof fn law_getinfo_address_line(before: Seq<Seq<char>>, ip: Seq<char>, after: Seq<Seq<char>>)
    requires
        forall|i: int|
            0 <= i < before.len() ==> !crate::text::starts_with(
                #[trigger] before[i],
                "IP address: "@,
            ),
    ensures
        ({
            let t = trim(ip);
            crate::discover::macos::info_on(before + seq!["IP address: "@ + ip] + after) == if t.len()
                == 0 || t == "none"@ {
                (None::<Seq<char>>, false)
            } else {
                (Some(t), true)
            }
        }),
    decreases before.len(),
{
    reveal_strlit("IP address: ");
    let line = "IP address: "@ + ip;
    let all = before + seq![line] + after;
    if before.len() == 0 {
        assert(all =~= seq![line] + after);
        assert(all[0] == line);
        assert(line.subrange(0, 12) =~= "IP address: "@);
        assert(line.skip(12) =~= ip);
    } else {
        assert(all[0] == before[0]);
        assert(all.drop_first() =~= before.drop_first() + seq![line] + after);
        assert forall|i: int|
            0 <= i < before.drop_first().len() implies !crate::text::starts_with(
            #[trigger] before.drop_first()[i],
            "IP address: "@,
        ) by {
            assert(before.drop_first()[i] == before[i + 1]);
        }
        law_getinfo_address_line(before.drop_first(), ip, after);
    }
}

} // verus!
