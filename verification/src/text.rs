//! The text form of a header.
use vstd::prelude::*;

use crate::guid::{hyphenated, law_text_of_guid};
use crate::header::{Header, HeaderView};

verus! {

/// The decimal digits of a number.
pub open spec fn decimal(value: nat) -> Seq<char>
    decreases value,
{
    let digit = ('0' as int + value % 10) as char;
    if value < 10 {
        seq![digit]
    } else {
        decimal(value / 10).push(digit)
    }
}

/// The digit for a value below ten.
fn digit_text(value: u32) -> (text: &'static str)
    requires
        value < 10,
    ensures
        text@ == seq![('0' as int + value) as char],
{
    proof {
        reveal_strlit("0");
        reveal_strlit("1");
        reveal_strlit("2");
        reveal_strlit("3");
        reveal_strlit("4");
        reveal_strlit("5");
        reveal_strlit("6");
        reveal_strlit("7");
        reveal_strlit("8");
        reveal_strlit("9");
    }
    let text = match value {
        0 => "0",
        1 => "1",
        2 => "2",
        3 => "3",
        4 => "4",
        5 => "5",
        6 => "6",
        7 => "7",
        8 => "8",
        _ => "9",
    };
    assert(text@ =~= seq![('0' as int + value) as char]);
    text
}

/// The decimal digits of a number.
pub fn decimal_text(value: u32) -> (text: String)
    ensures
        text@ == decimal(value as nat),
    decreases value,
{
    if value < 10 {
        String::from_str(digit_text(value))
    } else {
        let mut text = decimal_text(value / 10);
        text.append(digit_text(value % 10));
        assert(text@ =~= decimal(value as nat));
        text
    }
}

impl HeaderView {
    /// The disk's GUID and the two checksums, each in a line of its own.
    pub open spec fn text(self) -> Seq<char> {
        "Disk:\t\t"@ + hyphenated(self.disk_guid) + "\nCRC32:\t\t"@ + decimal(self.crc32 as nat)
            + "\nTable CRC:\t"@ + decimal(self.crc32_parts as nat)
    }
}

impl Header {
    /// The disk's GUID and the two checksums, each in a line of its own.
    pub fn to_string(&self) -> (text: String)
        ensures
            text@ == self@.text(),
    {
        let mut text = String::from_str("Disk:\t\t");
        text.append(self.disk_guid.to_text().as_str());
        text.append("\nCRC32:\t\t");
        text.append(decimal_text(self.crc32).as_str());
        text.append("\nTable CRC:\t");
        text.append(decimal_text(self.crc32_parts).as_str());
        text
    }
}

/// The digits of a number: a value below ten has one, and each further digit comes behind
/// those of the number before it.
pub proof fn law_decimal(value: nat, digit: nat)
    requires
        digit < 10,
    ensures
        decimal(digit).len() == 1 && decimal(digit)[0] as int == 0x30 + digit,
        value > 0 ==> {
            let longer = decimal(10 * value + digit);
            &&& longer.len() == decimal(value).len() + 1
            &&& longer.drop_last() == decimal(value)
            &&& longer.last() as int == 0x30 + digit
        },
{
    if value > 0 {
        let longer = decimal(10 * value + digit);
        assert((10 * value + digit) / 10 == value);
        assert((10 * value + digit) % 10 == digit);
        assert(longer.drop_last() =~= decimal(value));
    }
}

/// The text of a header: a line for the GUID of the disk, one for the checksum of the
/// header, and one for that of the table, each behind its name.
pub proof fn law_text_of_header(header: HeaderView)
    requires
        header.disk_guid.len() == 16,
    ensures
        ({
            let text = header.text();
            let sum = decimal(header.crc32 as nat);
            let table_sum = decimal(header.crc32_parts as nat);
            let second = 52 + sum.len() as int;
            &&& text.len() == second + 12 + table_sum.len()
            &&& text.subrange(0, 7) == "Disk:\t\t"@
            &&& text.subrange(7, 43) == hyphenated(header.disk_guid)
            &&& text.subrange(43, 52) == "\nCRC32:\t\t"@
            &&& text.subrange(52, second) == sum
            &&& text.subrange(second, second + 12) == "\nTable CRC:\t"@
            &&& text.subrange(second + 12, text.len() as int) == table_sum
        }),
{
    reveal_strlit("Disk:\t\t");
    reveal_strlit("\nCRC32:\t\t");
    reveal_strlit("\nTable CRC:\t");
    law_text_of_guid(header.disk_guid);
    let text = header.text();
    let sum = decimal(header.crc32 as nat);
    let table_sum = decimal(header.crc32_parts as nat);
    let second = 52 + sum.len() as int;
    assert(text.subrange(0, 7) =~= "Disk:\t\t"@);
    assert(text.subrange(7, 43) =~= hyphenated(header.disk_guid));
    assert(text.subrange(43, 52) =~= "\nCRC32:\t\t"@);
    assert(text.subrange(52, second) =~= sum);
    assert(text.subrange(second, second + 12) =~= "\nTable CRC:\t"@);
    assert(text.subrange(second + 12, text.len() as int) =~= table_sum);
}

} // verus!
