//! Resolution from what the route-query and address-query commands print,
//! both handed in as text.

use crate::error::MacError;
use crate::mac::{is_valid_mac, mac_format};
use crate::text::{
    chars_of, contains, contains_text, fields, is_space, occurs_at, rows, spaces_end,
    split_fields, split_rows, string_of, views, word_end,
};
use crate::{outcome_text, MacInfo, MacText};
use vstd::prelude::*;
use vstd::string::StringExecFns;

verus! {

/// The error of the `regex` crate. Nothing is known of a value but that it
/// exists.
#[verifier::external_type_specification]
#[verifier::external_body]
pub struct ExRegexError(regex::Error);

/// The pattern that finds a hardware address in the output of the
/// address-query command: six pairs of hexadecimal digits with colons
/// between them, as the first capture group.
pub const MAC_PATTERN: &'static str =
    "(?i)([0-9A-Fa-f]{2}:[0-9A-Fa-f]{2}:[0-9A-Fa-f]{2}:[0-9A-Fa-f]{2}:[0-9A-Fa-f]{2}:[0-9A-Fa-f]{2})";

/// What the `regex` crate makes of `pattern`, `haystack` and `group`:
/// `None` where it refuses the pattern; else what capture group `group`
/// holds in the first match of the pattern in the haystack, which is
/// nothing where no match is found or the group took no part in it.
pub uninterp spec fn captured_text(pattern: Seq<char>, haystack: Seq<char>, group: nat) -> Option<
    Option<Seq<char>>,
>;

/// What an optional string holds.
pub open spec fn text_of(found: Option<String>) -> Option<Seq<char>> {
    match found {
        Some(s) => Some(s@),
        None => None,
    }
}

/// Compiles `pattern` with `regex::Regex::new`, searches `haystack` with
/// `Regex::captures` and copies out group `group` of the first match with
/// `Captures::get` and `Match::as_str`. The crate compiles under limits of
/// its own and searches the haystack alone, so the outcome is a function of
/// the three arguments. The contract gives it the name `captured_text`, the
/// error standing for a pattern that the crate refuses, and claims nothing
/// else.
#[verifier::external_body]
fn regex_capture(pattern: &str, haystack: &str, group: usize) -> (found: Result<
    Option<String>,
    regex::Error,
>)
    ensures
        match found {
            Ok(text) => captured_text(pattern@, haystack@, group as nat) == Some(text_of(text)),
            Err(_) => captured_text(pattern@, haystack@, group as nat) is None,
        },
{
    let re = regex::Regex::new(pattern)?;
    match re.captures(haystack) {
        None => Ok(None),
        Some(caps) => match caps.get(group) {
            None => Ok(None),
            Some(found) => Ok(Some(found.as_str().to_string())),
        },
    }
}

/// The word that marks the row that names the interface.
pub open spec fn interface_label() -> Seq<char> {
    "interface"@
}

/// Row `k` of `output` is the first that mentions the interface.
pub open spec fn is_first_interface_row(output: Seq<char>, k: int) -> bool {
    &&& 0 <= k < rows(output).len()
    &&& contains_text(rows(output)[k], interface_label())
    &&& forall|j: int| 0 <= j < k ==> !contains_text(#[trigger] rows(output)[j], interface_label())
}

/// The white space that begins at `from` ends at or before any later
/// character that is not white space.
proof fn lemma_spaces_end_before(s: Seq<char>, from: int, at: int)
    requires
        0 <= from <= at < s.len(),
        !is_space(s[at]),
    ensures
        from <= spaces_end(s, from) <= at,
        !is_space(s[spaces_end(s, from)]),
    decreases at - from,
{
    if is_space(s[from]) {
        lemma_spaces_end_before(s, from + 1, at);
    }
}

/// The end of a field lies between its start and the end of the text.
proof fn lemma_word_end_bounds(s: Seq<char>, from: int)
    requires
        0 <= from <= s.len(),
    ensures
        from <= word_end(s, from) <= s.len(),
    decreases s.len() - from,
{
    if from < s.len() && !is_space(s[from]) {
        lemma_word_end_bounds(s, from + 1);
    }
}

/// A row that mentions the interface has at least one field.
proof fn lemma_labelled_row_has_field(row: Seq<char>)
    requires
        contains_text(row, interface_label()),
    ensures
        fields(row).len() > 0,
{
    reveal_strlit("interface");
    let i = choose|i: int| occurs_at(row, interface_label(), i);
    assert(row.subrange(i, i + 9)[0] == 'i');
    lemma_spaces_end_before(row, 0, i);
    let start = spaces_end(row, 0);
    lemma_word_end_bounds(row, start + 1);
}

/// Finds the name of the default route's interface in what the route query
/// printed: the last field of the first row that mentions the interface.
pub fn default_interface(route_output: &str) -> (found: Result<String, MacError>)
    ensures
        match found {
            Ok(name) => exists|k: int|
                is_first_interface_row(route_output@, k) && name@ == fields(
                    #[trigger] rows(route_output@)[k],
                ).last(),
            Err(e) => e == MacError::CommandError && forall|k: int|
                0 <= k < rows(route_output@).len() ==> !contains_text(
                    #[trigger] rows(route_output@)[k],
                    interface_label(),
                ),
        },
{
    let output = chars_of(route_output);
    let label = chars_of("interface");
    let all = split_rows(&output);
    let mut k: usize = 0;
    while k < all.len()
        invariant
            label@ == interface_label(),
            views(all@) == rows(route_output@),
            forall|j: int|
                0 <= j < k ==> !contains_text(#[trigger] rows(route_output@)[j], interface_label()),
        decreases all.len() - k,
    {
        assert(views(all@)[k as int] == all@[k as int]@);
        if contains(&all[k], &label) {
            let row_fields = split_fields(&all[k]);
            proof {
                lemma_labelled_row_has_field(all@[k as int]@);
            }
            let last = row_fields.len() - 1;
            assert(views(row_fields@)[last as int] == row_fields@[last as int]@);
            let name = string_of(&row_fields[last]);
            assert(is_first_interface_row(route_output@, k as int));
            return Ok(name);
        }
        k += 1;
    }
    Err(MacError::CommandError)
}

/// What the search for an address comes to: nothing found is a failure of
/// the command, and a find that the validator refuses is an address of the
/// wrong form.
pub open spec fn capture_outcome(interface: Seq<char>, capture: Option<Seq<char>>) -> Result<
    MacText,
    MacError,
> {
    match capture {
        None => Err(MacError::CommandError),
        Some(addr) => if mac_format(addr) {
            Ok(MacText { name: interface, addr })
        } else {
            Err(MacError::InvalidMacFormat)
        },
    }
}

/// Puts the result together from the interface's name and what the search
/// for an address gave.
pub fn info_from_capture(interface: &str, capture: Option<String>) -> (found: Result<
    MacInfo,
    MacError,
>)
    ensures
        outcome_text(found) == capture_outcome(interface@, text_of(capture)),
        found matches Ok(info) ==> info.wf(),
{
    match capture {
        None => Err(MacError::CommandError),
        Some(addr) => {
            if !is_valid_mac(addr.as_str()) {
                return Err(MacError::InvalidMacFormat);
            }
            Ok(MacInfo { name: String::from_str(interface), addr })
        },
    }
}

/// What the output of the address query comes to. The address is what the
/// first capture group of `MAC_PATTERN` holds in the first match. A pattern
/// that is refused is a failure of the command, as is an output without a
/// match; a find that the validator refuses is an address of the wrong
/// form.
pub open spec fn output_outcome(interface: Seq<char>, address_output: Seq<char>) -> Result<
    MacText,
    MacError,
> {
    match captured_text(MAC_PATTERN@, address_output, 1) {
        None => Err(MacError::CommandError),
        Some(capture) => capture_outcome(interface, capture),
    }
}

/// Puts the result together from the interface's name and what the address
/// query printed.
pub fn get_mac(interface: &str, address_output: &str) -> (found: Result<MacInfo, MacError>)
    ensures
        outcome_text(found) == output_outcome(interface@, address_output@),
        found matches Ok(info) ==> info.wf(),
{
    match regex_capture(MAC_PATTERN, address_output, 1) {
        Ok(capture) => info_from_capture(interface, capture),
        Err(_) => Err(MacError::CommandError),
    }
}

} // verus!
