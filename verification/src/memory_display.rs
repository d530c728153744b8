//! Memory amounts shown in GB with two decimals.
use vstd::prelude::*;
use vstd::string::*;
use crate::text::{decimal, push_decimal};

verus! {

/// An amount split into whole units and hundredths of a unit.
pub struct MemoryWithUnit {
    pub amount: u64,
    pub decimal: u64,
    pub unit: &'static str,
}

impl MemoryWithUnit {
    pub open spec fn display_spec(&self) -> Seq<char> {
        decimal(self.amount as nat) + ","@ + decimal(self.decimal as nat) + " "@ + self.unit@
    }

    /// The text `<amount>,<decimal> <unit>`.
    pub fn to_display_string(&self) -> (s: String)
        ensures
            s@ == self.display_spec(),
    {
        let mut s = String::new();
        push_decimal(&mut s, self.amount);
        s.append(",");
        push_decimal(&mut s, self.decimal);
        s.append(" ");
        s.append(self.unit);
        s
    }
}

/// A value in kB shown in GB (10^6 kB): whole GB, and the hundredths of a GB cut off
/// toward zero.
pub fn as_gb(value: u64) -> (m: MemoryWithUnit)
    ensures
        m.amount == value / 1_000_000,
        m.decimal == (value % 1_000_000) / 10_000,
        m.decimal < 100,
        m.unit@ == "GB"@,
        m.amount * 1_000_000 + m.decimal * 10_000 <= value < m.amount * 1_000_000 + (m.decimal + 1)
            * 10_000,
{
    MemoryWithUnit { amount: value / 1_000_000, decimal: (value % 1_000_000) / 10_000, unit: "GB" }
}

} // verus!
