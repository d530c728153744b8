//! Kubernetes resource quantities: CPU in millicores, memory in MiB.
//!
//! A quantity is a number with an optional unit suffix. Integer forms (`<int>m` for CPU,
//! a bare integer of bytes for memory) are read exactly here. The other forms are
//! floating-point literals whose value is converted to the unit in `f64` and truncated:
//! this library checks the literal and picks the conversion step, and the caller supplies
//! the converted value (see `cpu_float_step`, `memory_float_step`).
//!
//! Nanocores follow the documented example `1000000000n` -> 1 millicore: the number is
//! divided by a billion. Earlier releases divided by a million, so nanocore usage read
//! from a metrics server now comes out a thousand times smaller than it did there.
use vstd::prelude::*;
use vstd::string::*;
use crate::metrics::error::MetricsError;
use crate::numeric::{
    FloatErrorKind, float_check_spec, float_literal_in, lemma_decimal, lemma_decimal_is_float_literal,
    lemma_decimal_parses_as_u64, parse_u64_in, parse_u64_spec,
};
use crate::text::{chars_of, decimal, push_decimal};

verus! {

/// `q` ends with the characters of `suffix`.
pub open spec fn ends_with(q: Seq<char>, suffix: Seq<char>) -> bool {
    q.len() >= suffix.len() && q.skip(q.len() - suffix.len()) == suffix
}

/// `q` without its last `k` characters.
pub open spec fn strip(q: Seq<char>, k: nat) -> Seq<char> {
    q.take(q.len() - k)
}

/// The message of a quantity that does not parse: `<label>'<text>': <reason>`.
pub open spec fn quantity_error(label: Seq<char>, text: Seq<char>, reason: Seq<char>) -> Seq<char> {
    label + "'"@ + text + "': "@ + reason
}

/// The floating-point step that brings a quantity's number to the unit: the number, read
/// as an `f64`, is multiplied or divided by a constant and the product truncated to `u64`
/// (negative and not-a-number products give 0, products past `u64::MAX` give `u64::MAX`).
#[derive(Debug, Clone, Copy, PartialEq, Eq, Structural)]
pub enum FloatScale {
    /// Cores to millicores: times a thousand.
    TimesThousand,
    /// Microcores to millicores: divided by a thousand.
    OverThousand,
    /// Nanocores to millicores: divided by a billion.
    OverBillion,
    /// KiB (or `k`) to MiB: times the reciprocal of 1024.
    OverKibi,
    /// MiB to MiB: times one.
    Unit,
    /// GiB to MiB: times 1024.
    TimesKibi,
    /// TiB to MiB: times 1024 squared.
    TimesMebi,
    /// Decimal megabytes to MiB: times 953674 millionths.
    DecimalMega,
    /// Decimal gigabytes to MiB: times 953674 thousandths.
    DecimalGiga,
}

/// An executable step agrees with its specification.
pub open spec fn step_agrees(r: Option<(usize, FloatScale)>, s: Option<(nat, FloatScale)>) -> bool {
    match (r, s) {
        (None, None) => true,
        (Some((a, x)), Some((b, y))) => a == b && x == y,
        _ => false,
    }
}

/// Where a CPU quantity is read in floating point: the length of its number (the quantity
/// without its suffix) and the step to millicores. `None` for `<int>m`, read as an integer.
pub open spec fn cpu_float_step_spec(q: Seq<char>) -> Option<(nat, FloatScale)> {
    if ends_with(q, "m"@) {
        None
    } else if ends_with(q, "n"@) {
        Some(((q.len() - 1) as nat, FloatScale::OverBillion))
    } else if ends_with(q, "u"@) {
        Some(((q.len() - 1) as nat, FloatScale::OverThousand))
    } else {
        Some((q.len(), FloatScale::TimesThousand))
    }
}

/// Where a memory quantity is read in floating point: the length of its number and the
/// step to MiB. `None` for a quantity without a known suffix, read as an integer of bytes.
pub open spec fn memory_float_step_spec(q: Seq<char>) -> Option<(nat, FloatScale)> {
    if ends_with(q, "Ki"@) {
        Some(((q.len() - 2) as nat, FloatScale::OverKibi))
    } else if ends_with(q, "Mi"@) {
        Some(((q.len() - 2) as nat, FloatScale::Unit))
    } else if ends_with(q, "Gi"@) {
        Some(((q.len() - 2) as nat, FloatScale::TimesKibi))
    } else if ends_with(q, "Ti"@) {
        Some(((q.len() - 2) as nat, FloatScale::TimesMebi))
    } else if ends_with(q, "k"@) {
        Some(((q.len() - 1) as nat, FloatScale::OverKibi))
    } else if ends_with(q, "M"@) {
        Some(((q.len() - 1) as nat, FloatScale::DecimalMega))
    } else if ends_with(q, "G"@) {
        Some(((q.len() - 1) as nat, FloatScale::DecimalGiga))
    } else {
        None
    }
}

/// A number read in floating point: `float_value` when `num` is a floating-point literal,
/// else the parse error reported against `text`.
pub open spec fn float_or_error(num: Seq<char>, float_value: u64, label: Seq<char>, text: Seq<char>) -> Result<
    u64,
    Seq<char>,
> {
    match float_check_spec(num) {
        Ok(_) => Ok(float_value),
        Err(k) => Err(quantity_error(label, text, k.message_spec())),
    }
}

/// CPU quantity to millicores. `<int>m` is millicores, read as an integer. Any other
/// quantity is a floating-point literal with an optional suffix: `n` (nanocores, divided by
/// a billion, so that `1000000000n` gives 1), `u` (microcores, divided by a thousand) or
/// none (cores, times a thousand). That conversion is floating-point arithmetic, done by the
/// caller: `float_value` is the number read as an `f64`, taken through the step of
/// `cpu_float_step_spec` and truncated. A malformed number gives `CPU '<quantity>': <reason>`.
pub open spec fn cpu_millicores_spec(q: Seq<char>, float_value: u64) -> Result<u64, Seq<char>> {
    match cpu_float_step_spec(q) {
        None => match parse_u64_spec(strip(q, 1)) {
            Ok(v) => Ok(v),
            Err(k) => Err(quantity_error("CPU "@, q, k.message_spec())),
        },
        Some((len, _)) => float_or_error(q.take(len as int), float_value, "CPU "@, q),
    }
}

/// Memory quantity to MiB. A quantity with a binary suffix (`Ki`, `Mi`, `Gi`, `Ti`) or a
/// decimal one (`k`, `M`, `G`) is a floating-point literal converted in floating point by
/// the caller: `float_value` is the number read as an `f64`, taken through the step of
/// `memory_float_step_spec` and truncated; a malformed number gives `'<number>': <reason>`.
/// Any other quantity is an integer of bytes, divided by 1048576, or the error
/// `Memory '<quantity>': <reason>`.
pub open spec fn memory_mib_spec(q: Seq<char>, float_value: u64) -> Result<u64, Seq<char>> {
    match memory_float_step_spec(q) {
        None => match parse_u64_spec(q) {
            Ok(v) => Ok(v / 1048576),
            Err(k) => Err(quantity_error("Memory "@, q, k.message_spec())),
        },
        Some((len, _)) => float_or_error(q.take(len as int), float_value, ""@, q.take(len as int)),
    }
}

/// The CPU reading of a quantity held as its text and its floating-point conversion.
pub open spec fn cpu_reading(q: (Seq<char>, u64)) -> Result<u64, Seq<char>> {
    cpu_millicores_spec(q.0, q.1)
}

/// The memory reading of a quantity held as its text and its floating-point conversion.
pub open spec fn memory_reading(q: (Seq<char>, u64)) -> Result<u64, Seq<char>> {
    memory_mib_spec(q.0, q.1)
}

/// A parse result agrees with its specification: the same value, or a
/// `ParseError` with the specified message.
pub open spec fn agrees(r: Result<u64, MetricsError>, spec: Result<u64, Seq<char>>) -> bool {
    match (r, spec) {
        (Ok(v), Ok(w)) => v == w,
        (Err(MetricsError::ParseError(m)), Err(w)) => m@ == w,
        _ => false,
    }
}

/// The text of a CPU quantity in millicores: whole cores without a suffix, else millicores with `m`.
pub open spec fn cpu_text(millicores: u64) -> Seq<char> {
    if millicores >= 1000 && millicores % 1000 == 0 {
        decimal((millicores / 1000) as nat)
    } else {
        decimal(millicores as nat) + "m"@
    }
}

/// The text of a memory quantity in MiB: whole GiB with `Gi`, else MiB with `Mi`.
pub open spec fn memory_text(mib: u64) -> Seq<char> {
    if mib >= 1024 && mib % 1024 == 0 {
        decimal((mib / 1024) as nat) + "Gi"@
    } else {
        decimal(mib as nat) + "Mi"@
    }
}

fn ends_with_chars(q: &Vec<char>, a: char, b: char) -> (r: bool)
    ensures
        r == (q@.len() >= 2 && q@[q@.len() - 2] == a && q@[q@.len() - 1] == b),
{
    let n = q.len();
    n >= 2 && q[n - 2] == a && q[n - 1] == b
}

fn ends_with_char(q: &Vec<char>, a: char) -> (r: bool)
    ensures
        r == (q@.len() >= 1 && q@[q@.len() - 1] == a),
{
    let n = q.len();
    n >= 1 && q[n - 1] == a
}

proof fn lemma_ends_with_one(q: Seq<char>, s: &str, a: char)
    requires
        s@ == seq![a],
    ensures
        ends_with(q, s@) == (q.len() >= 1 && q[q.len() - 1] == a),
{
    if q.len() >= 1 && q[q.len() - 1] == a {
        assert(q.skip(q.len() - 1) =~= seq![a]);
    }
    if ends_with(q, s@) {
        assert(q.skip(q.len() - 1)[0] == q[q.len() - 1]);
    }
}

proof fn lemma_ends_with_two(q: Seq<char>, s: &str, a: char, b: char)
    requires
        s@ == seq![a, b],
    ensures
        ends_with(q, s@) == (q.len() >= 2 && q[q.len() - 2] == a && q[q.len() - 1] == b),
{
    if q.len() >= 2 && q[q.len() - 2] == a && q[q.len() - 1] == b {
        assert(q.skip(q.len() - 2) =~= seq![a, b]);
    }
    if ends_with(q, s@) {
        assert(q.skip(q.len() - 2)[0] == q[q.len() - 2]);
        assert(q.skip(q.len() - 2)[1] == q[q.len() - 1]);
    }
}

/// Builds `<label>'<text>': <reason>`.
fn quantity_message(label: &str, text: &str, reason: &str) -> (m: String)
    ensures
        m@ == quantity_error(label@, text@, reason@),
{
    let mut m = String::new();
    m.append(label);
    m.append("'");
    m.append(text);
    m.append("': ");
    m.append(reason);
    assert(m@ =~= quantity_error(label@, text@, reason@));
    m
}

/// Checks that `chars[0..len]` is a floating-point literal: then the value is `float_value`;
/// a failure is reported against `text`.
fn float_or_parse_error(
    chars: &Vec<char>,
    len: usize,
    float_value: u64,
    label: &str,
    text: &str,
) -> (r: Result<u64, MetricsError>)
    requires
        len <= chars.len(),
    ensures
        agrees(r, float_or_error(chars@.take(len as int), float_value, label@, text@)),
{
    assert(chars@.subrange(0, len as int) =~= chars@.take(len as int));
    match float_literal_in(chars, 0, len) {
        Ok(()) => Ok(float_value),
        Err(k) => Err(MetricsError::ParseError(quantity_message(label, text, k.message()))),
    }
}

fn cpu_step_in(chars: &Vec<char>) -> (r: Option<(usize, FloatScale)>)
    ensures
        step_agrees(r, cpu_float_step_spec(chars@)),
        r is None ==> chars@.len() >= 1,
        r matches Some((len, _)) ==> len <= chars@.len(),
{
    proof {
        reveal_strlit("m");
        reveal_strlit("n");
        reveal_strlit("u");
        assert("m"@ =~= seq!['m']);
        assert("n"@ =~= seq!['n']);
        assert("u"@ =~= seq!['u']);
        lemma_ends_with_one(chars@, "m", 'm');
        lemma_ends_with_one(chars@, "n", 'n');
        lemma_ends_with_one(chars@, "u", 'u');
    }
    let n = chars.len();
    if ends_with_char(chars, 'm') {
        None
    } else if ends_with_char(chars, 'n') {
        Some((n - 1, FloatScale::OverBillion))
    } else if ends_with_char(chars, 'u') {
        Some((n - 1, FloatScale::OverThousand))
    } else {
        Some((n, FloatScale::TimesThousand))
    }
}

fn memory_step_in(chars: &Vec<char>) -> (r: Option<(usize, FloatScale)>)
    ensures
        step_agrees(r, memory_float_step_spec(chars@)),
        r matches Some((len, _)) ==> len <= chars@.len(),
{
    proof {
        reveal_strlit("Ki");
        reveal_strlit("Mi");
        reveal_strlit("Gi");
        reveal_strlit("Ti");
        reveal_strlit("k");
        reveal_strlit("M");
        reveal_strlit("G");
        assert("Ki"@ =~= seq!['K', 'i']);
        assert("Mi"@ =~= seq!['M', 'i']);
        assert("Gi"@ =~= seq!['G', 'i']);
        assert("Ti"@ =~= seq!['T', 'i']);
        assert("k"@ =~= seq!['k']);
        assert("M"@ =~= seq!['M']);
        assert("G"@ =~= seq!['G']);
        lemma_ends_with_two(chars@, "Ki", 'K', 'i');
        lemma_ends_with_two(chars@, "Mi", 'M', 'i');
        lemma_ends_with_two(chars@, "Gi", 'G', 'i');
        lemma_ends_with_two(chars@, "Ti", 'T', 'i');
        lemma_ends_with_one(chars@, "k", 'k');
        lemma_ends_with_one(chars@, "M", 'M');
        lemma_ends_with_one(chars@, "G", 'G');
    }
    let n = chars.len();
    if ends_with_chars(chars, 'K', 'i') {
        Some((n - 2, FloatScale::OverKibi))
    } else if ends_with_chars(chars, 'M', 'i') {
        Some((n - 2, FloatScale::Unit))
    } else if ends_with_chars(chars, 'G', 'i') {
        Some((n - 2, FloatScale::TimesKibi))
    } else if ends_with_chars(chars, 'T', 'i') {
        Some((n - 2, FloatScale::TimesMebi))
    } else if ends_with_char(chars, 'k') {
        Some((n - 1, FloatScale::OverKibi))
    } else if ends_with_char(chars, 'M') {
        Some((n - 1, FloatScale::DecimalMega))
    } else if ends_with_char(chars, 'G') {
        Some((n - 1, FloatScale::DecimalGiga))
    } else {
        None
    }
}

/// Where the number of a CPU quantity is read in floating point: the number of leading
/// characters that form it, and the step that brings it to millicores; `None` when the
/// quantity is read as an integer of millicores.
pub fn cpu_float_step(quantity: &str) -> (r: Option<(usize, FloatScale)>)
    ensures
        step_agrees(r, cpu_float_step_spec(quantity@)),
{
    let chars = chars_of(quantity);
    cpu_step_in(&chars)
}

/// Where the number of a memory quantity is read in floating point: the number of leading
/// characters that form it, and the step that brings it to MiB; `None` when the quantity
/// is read as an integer of bytes.
pub fn memory_float_step(quantity: &str) -> (r: Option<(usize, FloatScale)>)
    ensures
        step_agrees(r, memory_float_step_spec(quantity@)),
{
    let chars = chars_of(quantity);
    memory_step_in(&chars)
}

/// Parse CPU quantity to millicores.
/// Examples: "100m" -> 100, "2" -> 2000, "0.5" -> 500, "1000000000n" -> 1.
/// `float_value` is the conversion of the number in floating point (see `cpu_float_step`);
/// it is the result wherever the quantity is not `<int>m` and its number is well formed.
pub fn parse_cpu_to_millicores(quantity: &str, float_value: u64) -> (r: Result<u64, MetricsError>)
    ensures
        agrees(r, cpu_millicores_spec(quantity@, float_value)),
{
    let chars = chars_of(quantity);
    let n = chars.len();
    match cpu_step_in(&chars) {
        None => {
            assert(chars@.subrange(0, n - 1) =~= strip(quantity@, 1));
            match parse_u64_in(&chars, 0, n - 1) {
                Ok(v) => Ok(v),
                Err(k) => Err(
                    MetricsError::ParseError(quantity_message("CPU ", quantity, k.message())),
                ),
            }
        },
        Some((len, _)) => float_or_parse_error(&chars, len, float_value, "CPU ", quantity),
    }
}

/// Parse memory quantity to MiB.
/// Examples: "2048Mi" -> 2048, "2Gi" -> 2048, "1048576Ki" -> 1024.
/// `float_value` is the conversion of the number in floating point (see `memory_float_step`);
/// it is the result wherever the quantity has a unit suffix and its number is well formed.
pub fn parse_memory_to_mib(quantity: &str, float_value: u64) -> (r: Result<u64, MetricsError>)
    ensures
        agrees(r, memory_mib_spec(quantity@, float_value)),
{
    let chars = chars_of(quantity);
    let n = chars.len();
    match memory_step_in(&chars) {
        None => {
            assert(chars@.subrange(0, n as int) =~= quantity@);
            match parse_u64_in(&chars, 0, n) {
                Ok(v) => Ok(v / 1048576),
                Err(k) => Err(
                    MetricsError::ParseError(quantity_message("Memory ", quantity, k.message())),
                ),
            }
        },
        Some((len, _)) => {
            let num = quantity.substring_char(0, len);
            assert(num@ =~= quantity@.take(len as int));
            proof {
                reveal_strlit("");
            }
            float_or_parse_error(&chars, len, float_value, "", num)
        },
    }
}

/// Format millicores back to K8s style
pub fn format_cpu(millicores: u64) -> (s: String)
    ensures
        s@ == cpu_text(millicores),
{
    let mut out = String::new();
    if millicores >= 1000 && millicores % 1000 == 0 {
        push_decimal(&mut out, millicores / 1000);
    } else {
        push_decimal(&mut out, millicores);
        out.append("m");
    }
    out
}

/// Format MiB back to K8s style
pub fn format_memory(mib: u64) -> (s: String)
    ensures
        s@ == memory_text(mib),
{
    let mut out = String::new();
    if mib >= 1024 && mib % 1024 == 0 {
        push_decimal(&mut out, mib / 1024);
        out.append("Gi");
    } else {
        push_decimal(&mut out, mib);
        out.append("Mi");
    }
    out
}


/// Formatting millicores and reading the text back. Millicores written with `m` come back
/// exactly, whatever the floating-point value. Whole cores are written as the decimal of
/// the cores, which is a well-formed literal read in floating point and multiplied by a
/// thousand: the text parses, and its value is that conversion.
pub proof fn lemma_cpu_text_round_trip(millicores: u64, float_value: u64)
    ensures
        if millicores >= 1000 && millicores % 1000 == 0 {
            &&& cpu_float_step_spec(cpu_text(millicores)) == Some(
                (cpu_text(millicores).len(), FloatScale::TimesThousand),
            )
            &&& cpu_millicores_spec(cpu_text(millicores), float_value) == Ok::<u64, Seq<char>>(float_value)
        } else {
            cpu_millicores_spec(cpu_text(millicores), float_value) == Ok::<u64, Seq<char>>(millicores)
        },
{
    reveal_strlit("m");
    reveal_strlit("n");
    reveal_strlit("u");
    assert("m"@ =~= seq!['m']);
    assert("n"@ =~= seq!['n']);
    assert("u"@ =~= seq!['u']);
    let t = cpu_text(millicores);
    lemma_ends_with_one(t, "m", 'm');
    lemma_ends_with_one(t, "n", 'n');
    lemma_ends_with_one(t, "u", 'u');
    if millicores >= 1000 && millicores % 1000 == 0 {
        let k = (millicores / 1000) as nat;
        lemma_decimal(k);
        assert(t[t.len() - 1] == decimal(k)[decimal(k).len() - 1]);
        lemma_decimal_is_float_literal(k);
        assert(t.take(t.len() as int) =~= t);
    } else {
        let d = decimal(millicores as nat);
        lemma_decimal(millicores as nat);
        assert(t.len() == d.len() + 1);
        assert(t[t.len() - 1] == 'm');
        assert(strip(t, 1) =~= d);
        lemma_decimal_parses_as_u64(millicores);
    }
}

/// Formatting MiB and reading the text back: the text is always well formed, and its value
/// is the floating-point conversion of its number, the decimal of the GiB times 1024 or
/// of the MiB times one.
pub proof fn lemma_memory_text_round_trip(mib: u64, float_value: u64)
    ensures
        memory_mib_spec(memory_text(mib), float_value) == Ok::<u64, Seq<char>>(float_value),
        memory_float_step_spec(memory_text(mib)) == if mib >= 1024 && mib % 1024 == 0 {
            Some((decimal((mib / 1024) as nat).len(), FloatScale::TimesKibi))
        } else {
            Some((decimal(mib as nat).len(), FloatScale::Unit))
        },
{
    reveal_strlit("Ki");
    reveal_strlit("Mi");
    reveal_strlit("Gi");
    assert("Ki"@ =~= seq!['K', 'i']);
    assert("Mi"@ =~= seq!['M', 'i']);
    assert("Gi"@ =~= seq!['G', 'i']);
    let n: nat = if mib >= 1024 && mib % 1024 == 0 {
        (mib / 1024) as nat
    } else {
        mib as nat
    };
    let d = decimal(n);
    let t = memory_text(mib);
    lemma_ends_with_two(t, "Ki", 'K', 'i');
    lemma_ends_with_two(t, "Mi", 'M', 'i');
    lemma_ends_with_two(t, "Gi", 'G', 'i');
    lemma_decimal(n);
    assert(t.len() == d.len() + 2);
    assert(t.take(d.len() as int) =~= d);
    lemma_decimal_is_float_literal(n);
}

} // verus!
