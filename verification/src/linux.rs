//! Resolution from the kernel's routing table and the per-interface address
//! file, both handed in as text.

use crate::error::MacError;
use crate::mac::{is_valid_mac, mac_format};
use crate::text::{
    chars_of, fields, rows, split_fields, split_rows, string_of, trim, trimmed, views,
};
use crate::{outcome_text, MacInfo, MacText};
use vstd::prelude::*;
use vstd::string::StringExecFns;

verus! {

/// The destination field of a default route: the all-zero address, written
/// as eight zeros.
pub open spec fn zero_destination() -> Seq<char> {
    Seq::new(8, |i: int| '0')
}

/// `row` is a default route: it has a second field, and that field is the
/// all-zero address.
pub open spec fn is_default_row(row: Seq<char>) -> bool {
    fields(row).len() > 1 && fields(row)[1] == zero_destination()
}

/// Row `k` of `table` is the default route that counts: the first default
/// row after the header row.
pub open spec fn is_first_default_row(table: Seq<char>, k: int) -> bool {
    &&& 1 <= k < rows(table).len()
    &&& is_default_row(rows(table)[k])
    &&& forall|j: int| 1 <= j < k ==> !is_default_row(#[trigger] rows(table)[j])
}

/// The directory that holds one entry per interface.
pub open spec fn net_directory() -> Seq<char> {
    "/sys/class/net/"@
}

/// The name of the address file inside an interface's entry.
pub open spec fn address_file() -> Seq<char> {
    "/address"@
}

/// The path of the file that holds the hardware address of `interface`.
pub open spec fn address_path_of(interface: Seq<char>) -> Seq<char> {
    net_directory() + interface + address_file()
}

/// Tells whether a field is the all-zero address.
fn is_zero_destination(field: &Vec<char>) -> (yes: bool)
    ensures
        yes == (field@ == zero_destination()),
{
    if field.len() != 8 {
        return false;
    }
    let mut i: usize = 0;
    while i < 8
        invariant
            i <= 8,
            field.len() == 8,
            forall|j: int| 0 <= j < i ==> field@[j] == '0',
        decreases 8 - i,
    {
        if field[i] != '0' {
            assert(zero_destination()[i as int] == '0');
            return false;
        }
        i += 1;
    }
    assert(field@ =~= zero_destination());
    true
}

/// Finds the interface of the default route in the text of the routing
/// table. The first row is the header and is passed over. Among the others
/// the first whose destination is the all-zero address decides, and the
/// interface is its first field.
pub fn default_interface(route_table: &str) -> (found: Result<String, MacError>)
    ensures
        match found {
            Ok(name) => exists|k: int|
                is_first_default_row(route_table@, k) && name@ == fields(
                    #[trigger] rows(route_table@)[k],
                )[0],
            Err(e) => e == MacError::NoDefaultRoute && forall|k: int|
                1 <= k < rows(route_table@).len() ==> !is_default_row(
                    #[trigger] rows(route_table@)[k],
                ),
        },
{
    let table = chars_of(route_table);
    let all = split_rows(&table);
    let mut k: usize = 1;
    while k < all.len()
        invariant
            1 <= k,
            views(all@) == rows(route_table@),
            forall|j: int| 1 <= j < k ==> !is_default_row(#[trigger] rows(route_table@)[j]),
        decreases all.len() - k,
    {
        assert(views(all@)[k as int] == all@[k as int]@);
        let row_fields = split_fields(&all[k]);
        if row_fields.len() > 1 {
            assert(views(row_fields@)[1] == row_fields@[1]@);
            assert(views(row_fields@)[0] == row_fields@[0]@);
            if is_zero_destination(&row_fields[1]) {
                let name = string_of(&row_fields[0]);
                assert(is_first_default_row(route_table@, k as int));
                return Ok(name);
            }
        }
        k += 1;
    }
    Err(MacError::NoDefaultRoute)
}

/// The path of the address file of `interface`.
pub fn address_path(interface: &str) -> (path: String)
    ensures
        path@ == address_path_of(interface@),
{
    let mut path = String::from_str("/sys/class/net/");
    path.append(interface);
    path.append("/address");
    path
}

/// What the content of an address file comes to: the text without the white
/// space around it, where that is an address.
pub open spec fn address_outcome(interface: Seq<char>, address: Seq<char>) -> Result<
    MacText,
    MacError,
> {
    if mac_format(trimmed(address)) {
        Ok(MacText { name: interface, addr: trimmed(address) })
    } else {
        Err(MacError::InvalidMacFormat)
    }
}

/// Puts the result together from the interface's name and the content of its
/// address file. White space around the address is dropped; its case is left
/// as it was read.
pub fn get_mac(interface: &str, address: &str) -> (found: Result<MacInfo, MacError>)
    ensures
        outcome_text(found) == address_outcome(interface@, address@),
        found matches Ok(info) ==> info.wf(),
{
    let content = chars_of(address);
    let addr = string_of(&trim(&content));
    if !is_valid_mac(addr.as_str()) {
        return Err(MacError::InvalidMacFormat);
    }
    Ok(MacInfo { name: String::from_str(interface), addr })
}

} // verus!
