//! The text that describes the device itself: one labelled line for each of
//! brand, name, power limit and total memory.

use crate::memory::bytes_to_mib;
use crate::memory::mib_of;
use crate::text::decimal;
use crate::text::padded;
use crate::text::push_decimal;
use crate::text::push_padded;
use vstd::prelude::*;

verus! {

/// Milliwatts in one watt.
pub const MILLIWATTS_PER_WATT: u32 = 1000;

/// One line of the description: the label in a column of 16 characters, a
/// colon, and the value.
pub open spec fn info_line(label: Seq<char>, value: Seq<char>) -> Seq<char> {
    padded(label, 16) + ": "@ + value + "\n"@
}

/// The line that gives the power limit, in whole watts.
pub open spec fn power_limit_text(milliwatts: u32) -> Seq<char> {
    info_line("Power Limit"@, decimal((milliwatts / 1000) as nat) + " (watts)"@)
}

/// The line that gives the total device memory, in mebibytes.
pub open spec fn total_memory_text(bytes: u64) -> Seq<char> {
    info_line("Total GPU Memory"@, decimal(mib_of(bytes as nat)) + " (MiB)"@)
}

/// The description of a device: brand, name, power limit and total memory,
/// one line each.
pub open spec fn info_text(
    brand: Seq<char>,
    name: Seq<char>,
    power_limit_milliwatts: u32,
    total_memory_bytes: u64,
) -> Seq<char> {
    info_line("Brand"@, brand) + info_line("Name"@, name) + power_limit_text(
        power_limit_milliwatts,
    ) + total_memory_text(total_memory_bytes)
}

/// Renders one line of the description.
fn labelled_line(label: &str, value: &str) -> (line: String)
    ensures
        line@ == info_line(label@, value@),
{
    let mut line = String::new();
    push_padded(&mut line, label, 16);
    line.append(": ");
    line.append(value);
    line.append("\n");
    line
}

/// Renders the line that gives the brand of the device.
pub fn brand_line(brand: &str) -> (line: String)
    ensures
        line@ == info_line("Brand"@, brand@),
{
    labelled_line("Brand", brand)
}

/// Renders the line that gives the name of the device.
pub fn name_line(name: &str) -> (line: String)
    ensures
        line@ == info_line("Name"@, name@),
{
    labelled_line("Name", name)
}

/// Renders the line that gives the power limit, in whole watts.
pub fn power_limit_line(milliwatts: u32) -> (line: String)
    ensures
        line@ == power_limit_text(milliwatts),
{
    let mut value = String::new();
    push_decimal(&mut value, (milliwatts / MILLIWATTS_PER_WATT) as u64);
    value.append(" (watts)");
    labelled_line("Power Limit", value.as_str())
}

/// Renders the line that gives the total device memory, in mebibytes.
pub fn total_memory_line(bytes: u64) -> (line: String)
    ensures
        line@ == total_memory_text(bytes),
{
    let mut value = String::new();
    push_decimal(&mut value, bytes_to_mib(bytes));
    value.append(" (MiB)");
    labelled_line("Total GPU Memory", value.as_str())
}

/// Renders the description of a device.
pub fn render_info(
    brand: &str,
    name: &str,
    power_limit_milliwatts: u32,
    total_memory_bytes: u64,
) -> (text: String)
    ensures
        text@ == info_text(brand@, name@, power_limit_milliwatts, total_memory_bytes),
{
    let mut text = brand_line(brand);
    text.append(name_line(name).as_str());
    text.append(power_limit_line(power_limit_milliwatts).as_str());
    text.append(total_memory_line(total_memory_bytes).as_str());
    text
}

} // verus!
