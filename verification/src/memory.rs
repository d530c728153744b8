//! Host memory as reported by `/proc/meminfo`, in KiB.
use vstd::prelude::*;
use crate::numeric::{parse_u64_in, parse_u64_spec};
use crate::text::{chars_of, second_token, starts_with, starts_with_str, ws_tokens};

verus! {

#[derive(Debug, Clone)]
pub struct Memory {
    pub total: u64,
    pub used: u64,
    pub free: u64,
    pub available: u64,
}

/// The value of a `/proc/meminfo` line such as `MemTotal:   16000000 kB`: its second
/// white-space separated field read as an unsigned integer, or 0 when there is none or
/// it does not parse.
pub open spec fn kb_value_spec(line: Seq<char>) -> u64 {
    let tokens = ws_tokens(line);
    if tokens.len() >= 2 {
        match parse_u64_spec(tokens[1]) {
            Ok(v) => v,
            Err(_) => 0,
        }
    } else {
        0
    }
}

/// The value of the last line that starts with `key`, or 0 when no line does.
pub open spec fn field_value(lines: Seq<Seq<char>>, key: Seq<char>) -> u64
    decreases lines.len(),
{
    if lines.len() == 0 {
        0
    } else if starts_with(lines.last(), key) {
        kb_value_spec(lines.last())
    } else {
        field_value(lines.drop_last(), key)
    }
}

pub open spec fn lines_view(lines: Seq<String>) -> Seq<Seq<char>> {
    lines.map_values(|l: String| l@)
}

impl Memory {
    pub fn new(total: u64, used: u64, free: u64, available: u64) -> (m: Memory)
        ensures
            m.total == total,
            m.used == used,
            m.free == free,
            m.available == available,
    {
        Memory { total, used, free, available }
    }

    /// The memory figures in the lines of `/proc/meminfo`: `total` from the last line
    /// starting with `MemTotal:`, `available` from the last starting with `MemAvailable:`;
    /// `used` and `free` are 0.
    pub fn from_meminfo(lines: &Vec<String>) -> (m: Memory)
        ensures
            m.total == field_value(lines_view(lines@), "MemTotal:"@),
            m.available == field_value(lines_view(lines@), "MemAvailable:"@),
            m.used == 0,
            m.free == 0,
    {
        let mut total: u64 = 0;
        let mut available: u64 = 0;
        let mut i: usize = 0;
        while i < lines.len()
            invariant
                i <= lines.len(),
                total == field_value(lines_view(lines@.take(i as int)), "MemTotal:"@),
                available == field_value(lines_view(lines@.take(i as int)), "MemAvailable:"@),
            decreases lines.len() - i,
        {
            let line = lines[i].as_str();
            proof {
                let v = lines_view(lines@.take(i + 1));
                assert(v.drop_last() =~= lines_view(lines@.take(i as int)));
                assert(v.last() == lines@[i as int]@);
            }
            if starts_with_str(line, "MemTotal:") {
                total = Self::parse_kb_value(line);
            }
            if starts_with_str(line, "MemAvailable:") {
                available = Self::parse_kb_value(line);
            }
            i = i + 1;
        }
        assert(lines@.take(lines.len() as int) =~= lines@);
        Memory::new(total, 0, 0, available)
    }

    /// Reads the value of a `/proc/meminfo` line: the second field as an integer, else 0.
    pub fn parse_kb_value(line: &str) -> (v: u64)
        ensures
            v == kb_value_spec(line@),
    {
        let chars = chars_of(line);
        let (count, b, e) = second_token(&chars);
        if count >= 2 {
            match parse_u64_in(&chars, b, e) {
                Ok(value) => value,
                Err(_) => 0,
            }
        } else {
            0
        }
    }
}

} // verus!
