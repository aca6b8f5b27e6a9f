//! Read-only discovery of interfaces and their current IPs. Running the OS
//! tools is the caller's part; this module turns their output into
//! `Interface` values and decides what each one is called and shown as.

pub mod fallback;
pub mod macos;
pub mod windows;

use vstd::prelude::*;

use crate::types::Interface;

verus! {

/// What `str::to_lowercase` makes of a text: the Unicode lowercase mapping of
/// each character, independent of locale.
pub uninterp spec fn lowercase(s: Seq<char>) -> Seq<char>;

/// ASCII text with its upper case letters lowered.
pub open spec fn ascii_lowercase(s: Seq<char>) -> Seq<char> {
    s.map_values(
        |c: char|
            if 'A' <= c && c <= 'Z' {
                ((c as u32) + 32) as char
            } else {
                c
            },
    )
}

/// Every character of `s` is ASCII.
pub open spec fn is_ascii_text(s: Seq<char>) -> bool {
    forall|i: int| 0 <= i < s.len() ==> (#[trigger] s[i]) <= '\u{7f}'
}

/// Calls `str::to_lowercase`. The contract claims that the result is the
/// lowercase mapping named `lowercase` of the argument, and that on ASCII text
/// it lowers the letters `A`..`Z` and keeps every other character (as
/// Unicode's mapping does there); what the mapping does to other characters
/// (Unicode's tables) is left unsaid.
#[verifier::external_body]
pub(crate) fn to_lowercase(s: &str) -> (res: String)
    ensures
        res@ == lowercase(s@),
        is_ascii_text(s@) ==> res@ == ascii_lowercase(s@),
{
    s.to_lowercase()
}

/// The friendly names of `interfaces`, in order.
pub open spec fn interface_names(interfaces: Seq<Interface>) -> Seq<Seq<char>> {
    interfaces.map_values(|i: Interface| i.name@)
}

/// Just the friendly names — handed to `validate_apply` as the allow-list.
pub fn live_interface_names(interfaces: Vec<Interface>) -> (res: Vec<String>)
    ensures
        res.deep_view() == interface_names(interfaces@),
{
    let mut res: Vec<String> = Vec::new();
    let mut i: usize = 0;
    while i < interfaces.len()
        invariant
            i <= interfaces.len(),
            res.deep_view() == interface_names(interfaces@).take(i as int),
        decreases interfaces.len() - i,
    {
        let name = interfaces[i].name.clone();
        let ghost before = res.deep_view();
        res.push(name);
        assert(res.deep_view() =~= before.push(interfaces@[i as int].name@));
        assert(interface_names(interfaces@).take(i + 1) =~= interface_names(interfaces@).take(
            i as int,
        ).push(interfaces@[i as int].name@));
        i = i + 1;
    }
    assert(interface_names(interfaces@).take(i as int) =~= interface_names(interfaces@));
    res
}

} // verus!
