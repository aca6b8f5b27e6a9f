//! Properties that tie several functions of the library together.

use vstd::prelude::*;

use crate::commands::{buildable, macos, platform_commands, windows, Platform};
use crate::helper::plan_outcome;
use crate::ipv4::{
    ipv4_text, is_ipv4_text, lemma_ipv4_text_injective, lemma_octet_decimal, lemma_text_layout,
    mask_octets, Octets,
};
use crate::text::{
    contains_char, decimal, is_digit, is_white_space, strip_leading, trim, };
use crate::types::{ApplyRequestView, HelperRequest, Mode};
use crate::validate::{
    apply_outcome, interface_name_error, is_validated, lemma_mask_prefix_of, lemma_outcome_validated, mask_prefix_of,
    parse_subnet_outcome, parse_u8_text, subnet_text,
};

verus! {

/// A text that starts and ends with a character that is not white space is
/// its own trim.
proof fn lemma_trim_identity(s: Seq<char>)
    requires
        s.len() > 0,
        !is_white_space(s[0]),
        !is_white_space(s.last()),
    ensures
        trim(s) == s,
{
}

/// Formatting an address and parsing the text gives the same address back:
/// the text is an address text, and of no other address.
pub proof fn law_ipv4_round_trip(a: Octets)
    ensures
        is_ipv4_text(ipv4_text(a)),
        forall|b: Octets| ipv4_text(b) == ipv4_text(a) ==> b == a,
{
    assert forall|b: Octets| ipv4_text(b) == ipv4_text(a) implies b == a by {
        lemma_ipv4_text_injective(b, a);
    }
}

/// The dotted mask that `prefix_to_mask` writes for a prefix is read back by
/// `mask_to_prefix` as that prefix.
pub proof fn law_mask_round_trip(prefix: u8)
    requires
        prefix <= 32,
    ensures
        mask_prefix_of(ipv4_text(mask_octets(prefix as int))) == Some(prefix),
{
    lemma_mask_prefix_of(ipv4_text(mask_octets(prefix as int)), prefix);
}

/// An address text starts and ends with a digit and holds a dot.
proof fn lemma_address_text_shape(a: Octets)
    ensures
        ipv4_text(a).len() > 0,
        is_digit(ipv4_text(a)[0]),
        is_digit(ipv4_text(a).last()),
        contains_char(ipv4_text(a), '.'),
{
    lemma_text_layout(a);
    lemma_octet_decimal(a.0);
    lemma_octet_decimal(a.3);
    let s = ipv4_text(a);
    let d3 = decimal(a.3 as nat);
    assert(s[0] == decimal(a.0 as nat)[0]);
    assert(s.last() == d3[d3.len() - 1]);
}

/// `parse_subnet` reads the dotted mask of a prefix as that prefix.
pub proof fn law_subnet_reads_mask(prefix: u8)
    requires
        prefix <= 32,
    ensures
        parse_subnet_outcome(ipv4_text(mask_octets(prefix as int))) == Ok::<u8, Seq<char>>(prefix),
{
    let s = ipv4_text(mask_octets(prefix as int));
    lemma_address_text_shape(mask_octets(prefix as int));
    lemma_trim_identity(s);
    assert(strip_leading(s, '/') == s);
    assert(subnet_text(s) == s);
    law_mask_round_trip(prefix);
}

/// `parse_subnet` reads a prefix written as a number, with or without a
/// leading slash, as that prefix.
pub proof fn law_subnet_reads_prefix(prefix: u8)
    requires
        prefix <= 32,
    ensures
        parse_subnet_outcome(decimal(prefix as nat)) == Ok::<u8, Seq<char>>(prefix),
        parse_subnet_outcome(seq!['/'] + decimal(prefix as nat)) == Ok::<u8, Seq<char>>(prefix),
{
    let d = decimal(prefix as nat);
    lemma_octet_decimal(prefix);
    assert(is_digit(d[0]));
    assert(is_digit(d.last()));
    lemma_trim_identity(d);
    assert(strip_leading(d, '/') == d);
    assert(!contains_char(d, '.')) by {
        assert forall|i: int| 0 <= i < d.len() implies d[i] != '.' by {
            assert(is_digit(d[i]));
        }
    }
    assert(parse_u8_text(d) == Some(prefix));
    let s = seq!['/'] + d;
    assert(s[0] == '/');
    assert(s.last() == d.last());
    lemma_trim_identity(s);
    assert(s.drop_first() =~= d);
    assert(strip_leading(s, '/') == strip_leading(d, '/'));
}

/// An accepted interface name holds no shell metacharacter, quote, escape or
/// control character, and has as many bytes as characters.
pub proof fn law_accepted_names_are_inert(name: Seq<char>)
    requires
        interface_name_error(name) is None,
    ensures
        forall|i: int|
            0 <= i < name.len() ==> {
                let c = #[trigger] name[i];
                &&& c != ';' && c != '|' && c != '&' && c != '$' && c != '`' && c != '\\'
                &&& c != '\'' && c != '"' && c != '<' && c != '>' && c != '*' && c != '?'
                &&& c != '!' && c != '#' && c != '~' && c != '=' && c != '%' && c != ','
                &&& c != '{' && c != '}' && c != '[' && c != ']'
                &&& (' ' <= c && c <= '~')
            },
        1 <= name.len() <= 128,
{
    assert forall|i: int| 0 <= i < name.len() implies crate::validate::is_interface_name_char(
        #[trigger] name[i],
    ) by {}
    lemma_ascii_utf8_len(name);
}

/// ASCII text takes one byte per character.
pub proof fn lemma_ascii_utf8_len(s: Seq<char>)
    requires
        forall|i: int| 0 <= i < s.len() ==> crate::validate::is_interface_name_char(#[trigger] s[i]),
    ensures
        vstd::utf8::encode_utf8(s).len() == s.len(),
    decreases s.len(),
{
    if s.len() > 0 {
        assert forall|i: int| 0 <= i < s.drop_first().len() implies crate::validate::is_interface_name_char(
            #[trigger] s.drop_first()[i],
        ) by {
            assert(s.drop_first()[i] == s[i + 1]);
        }
        lemma_ascii_utf8_len(s.drop_first());
        assert(crate::validate::is_interface_name_char(s[0]));
        assert(s[0] as u32 <= 0x7f);
    }
}

/// A request that validation accepted can always be turned into commands.
pub proof fn law_validated_is_buildable(r: ApplyRequestView, live: Seq<Seq<char>>)
    requires
        is_validated(r, live),
    ensures
        buildable(r),
{
}

/// Every platform's commands start with the one that sets the address; on
/// macOS and Windows it names the interface exactly as the request does and is
/// followed by a DNS command only when DNS servers are given or DNS is to be
/// cleared.
pub proof fn law_address_first(r: ApplyRequestView)
    ensures
        platform_commands(Platform::MacOs, r).len() >= 1,
        platform_commands(Platform::Windows, r).len() >= 1,
        platform_commands(Platform::Other, r).len() == 1,
        platform_commands(Platform::MacOs, r)[0] == macos::address_command(r),
        platform_commands(Platform::Windows, r)[0] == windows::address_command(r),
        macos::address_command(r)[2] == r.interface,
        windows::address_command(r)[5] == "name="@ + r.interface,
        (r.dns.len() == 0 && !r.dns_clear) ==> platform_commands(Platform::MacOs, r).len() == 1
            && platform_commands(Platform::Windows, r).len() == 1,
        (r.dns.len() == 0 && r.dns_clear) ==> platform_commands(Platform::MacOs, r).len() == 2
            && platform_commands(Platform::Windows, r).len() == 2,
        r.dns.len() > 0 ==> platform_commands(Platform::MacOs, r).len() == 2
            && platform_commands(Platform::Windows, r).len() == r.dns.len() + 1,
{
    let w = windows::address_command(r);
    assert(w[5] == windows::name_arg(r));
}

/// A DHCP preset becomes the command that switches the address to DHCP,
/// followed only by the command that reverts DNS to automatic when the preset
/// asks for that.
pub proof fn law_dhcp_single_command(
    preset: crate::types::PresetView,
    interface: Seq<char>,
    live: Seq<Seq<char>>,
    platform: Platform,
)
    requires
        preset.mode == Mode::Dhcp,
        apply_outcome(preset, interface, live) is Ok,
    ensures
        platform != Platform::Other ==> platform_commands(
            platform,
            apply_outcome(preset, interface, live)->Ok_0,
        ).len() == if preset.dns_clear {
            2int
        } else {
            1int
        },
        platform == Platform::Other ==> platform_commands(
            platform,
            apply_outcome(preset, interface, live)->Ok_0,
        ).len() == 1,
{
    law_address_first(apply_outcome(preset, interface, live)->Ok_0);
}

/// The helper runs commands only for a request that passes validation against
/// the interfaces live at that moment, and then exactly the commands built
/// from the validated request; it refuses a request exactly when validation
/// does.
pub proof fn law_helper_revalidates(req: HelperRequest, live: Seq<Seq<char>>, platform: Platform)
    ensures
        plan_outcome(req, live, platform) is Ok <==> apply_outcome(
            req.preset@,
            req.interface@,
            live,
        ) is Ok,
        plan_outcome(req, live, platform) is Ok ==> {
            let r = apply_outcome(req.preset@, req.interface@, live)->Ok_0;
            &&& is_validated(r, live)
            &&& live.contains(req.interface@)
            &&& plan_outcome(req, live, platform)->Ok_0 == platform_commands(platform, r)
        },
{
    if apply_outcome(req.preset@, req.interface@, live) is Ok {
        let r = apply_outcome(req.preset@, req.interface@, live)->Ok_0;
        lemma_outcome_validated(req.preset@, req.interface@, live);
        law_address_first(r);
    }
}

} // verus!
