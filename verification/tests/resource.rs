use rwatch::metrics::error::MetricsError;
use rwatch::metrics::resource::{
    cpu_float_step, format_cpu, format_memory, memory_float_step, parse_cpu_to_millicores, parse_memory_to_mib,
    FloatScale,
};

/// The floating-point conversion of a quantity's number, as the agent makes it.
fn float_conversion(step: Option<(usize, FloatScale)>, q: &str) -> u64 {
    match step {
        None => 0,
        Some((len, scale)) => {
            let number: String = q.chars().take(len).collect();
            match number.parse::<f64>() {
                Ok(v) => match scale {
                    FloatScale::TimesThousand => (v * 1000.0) as u64,
                    FloatScale::OverThousand => (v / 1000.0) as u64,
                    FloatScale::OverBillion => (v / 1_000_000_000.0) as u64,
                    FloatScale::OverKibi => (v * (1.0 / 1024.0)) as u64,
                    FloatScale::Unit => (v * 1.0) as u64,
                    FloatScale::TimesKibi => (v * 1024.0) as u64,
                    FloatScale::TimesMebi => (v * (1024.0 * 1024.0)) as u64,
                    FloatScale::DecimalMega => (v * 0.953674) as u64,
                    FloatScale::DecimalGiga => (v * 953.674) as u64,
                },
                Err(_) => 0,
            }
        }
    }
}

fn float_cpu(q: &str) -> u64 {
    float_conversion(cpu_float_step(q), q)
}

fn float_memory(q: &str) -> u64 {
    float_conversion(memory_float_step(q), q)
}

fn cpu(q: &str) -> Result<u64, MetricsError> {
    parse_cpu_to_millicores(q, float_cpu(q))
}

fn memory(q: &str) -> Result<u64, MetricsError> {
    parse_memory_to_mib(q, float_memory(q))
}

fn parse_error_message(r: Result<u64, MetricsError>) -> String {
    match r {
        Err(MetricsError::ParseError(m)) => m,
        other => panic!("expected a parse error, got {:?}", other),
    }
}

#[test]
fn test_parse_cpu() {
    assert_eq!(parse_cpu_to_millicores("100m", float_cpu("100m")).unwrap(), 100);
    assert_eq!(parse_cpu_to_millicores("2", float_cpu("2")).unwrap(), 2000);
    assert_eq!(parse_cpu_to_millicores("0.5", float_cpu("0.5")).unwrap(), 500);
}

#[test]
fn test_parse_memory() {
    assert_eq!(parse_memory_to_mib("1024Mi", float_memory("1024Mi")).unwrap(), 1024);
    assert_eq!(parse_memory_to_mib("1Gi", float_memory("1Gi")).unwrap(), 1024);
    assert_eq!(parse_memory_to_mib("1048576Ki", float_memory("1048576Ki")).unwrap(), 1024);
}

#[test]
fn test_format_cpu() {
    assert_eq!(format_cpu(100), "100m");
    assert_eq!(format_cpu(2000), "2");
    assert_eq!(format_cpu(1500), "1500m");
}

#[test]
fn test_format_memory() {
    assert_eq!(format_memory(512), "512Mi");
    assert_eq!(format_memory(1024), "1Gi");
    assert_eq!(format_memory(2048), "2Gi");
}

#[test]
fn cpu_documented_examples() {
    assert_eq!(cpu("1000000000n").unwrap(), 1);
    assert_eq!(cpu("250000u").unwrap(), 250);
    assert_eq!(cpu("1999999999n").unwrap(), 1);
    assert_eq!(cpu("999999999n").unwrap(), 0);
    assert_eq!(cpu("2.5e9n").unwrap(), 2);
    assert_eq!(cpu("0.0015").unwrap(), 1);
}

#[test]
fn cpu_float_syntax() {
    assert_eq!(cpu("1e3").unwrap(), 1_000_000);
    assert_eq!(cpu("2.5E-1").unwrap(), 250);
    assert_eq!(cpu(".5").unwrap(), 500);
    assert_eq!(cpu("3.").unwrap(), 3000);
    assert_eq!(cpu("+1").unwrap(), 1000);
    assert_eq!(cpu("-1").unwrap(), 0);
    assert_eq!(cpu("inf").unwrap(), u64::MAX);
    assert_eq!(cpu("-Infinity").unwrap(), 0);
    assert_eq!(cpu("NaN").unwrap(), 0);
    assert_eq!(cpu("1e30").unwrap(), u64::MAX);
    assert_eq!(cpu("1e-30").unwrap(), 0);
    assert_eq!(cpu("0e999999999999999999999").unwrap(), 0);
    assert_eq!(cpu("5e99999999999999999999999").unwrap(), u64::MAX);
}

#[test]
fn cpu_parse_errors() {
    assert_eq!(
        parse_error_message(cpu("abcm")),
        "CPU 'abcm': invalid digit found in string"
    );
    assert_eq!(
        parse_error_message(cpu("m")),
        "CPU 'm': cannot parse integer from empty string"
    );
    assert_eq!(
        parse_error_message(cpu("99999999999999999999m")),
        "CPU '99999999999999999999m': number too large to fit in target type"
    );
    assert_eq!(
        parse_error_message(cpu("")),
        "CPU '': cannot parse float from empty string"
    );
    assert_eq!(
        parse_error_message(cpu("1.2.3")),
        "CPU '1.2.3': invalid float literal"
    );
    assert_eq!(
        parse_error_message(cpu("xn")),
        "CPU 'xn': invalid float literal"
    );
    assert_eq!(
        parse_error_message(cpu("1e")),
        "CPU '1e': invalid float literal"
    );
}

#[test]
fn memory_documented_examples() {
    assert_eq!(memory("2048Mi").unwrap(), 2048);
    assert_eq!(memory("2Gi").unwrap(), 2048);
    assert_eq!(memory("1Ti").unwrap(), 1_048_576);
    assert_eq!(memory("1.5Gi").unwrap(), 1536);
    assert_eq!(memory("2048k").unwrap(), 2);
    assert_eq!(memory("1000M").unwrap(), 953);
    assert_eq!(memory("1M").unwrap(), 0);
    assert_eq!(memory("2G").unwrap(), 1907);
    assert_eq!(memory("1073741824").unwrap(), 1024);
    assert_eq!(memory("1048575").unwrap(), 0);
}

#[test]
fn memory_parse_errors() {
    assert_eq!(
        parse_error_message(memory("abcGi")),
        "'abc': invalid float literal"
    );
    assert_eq!(
        parse_error_message(memory("Ki")),
        "'': cannot parse float from empty string"
    );
    assert_eq!(
        parse_error_message(memory("12x")),
        "Memory '12x': invalid digit found in string"
    );
    assert_eq!(
        parse_error_message(memory("")),
        "Memory '': cannot parse integer from empty string"
    );
    assert_eq!(
        parse_error_message(memory("-5")),
        "Memory '-5': invalid digit found in string"
    );
}

#[test]
fn format_then_parse_gives_back_the_value() {
    for m in [0u64, 1, 999, 1000, 1001, 2000, 123456000, u64::MAX] {
        assert_eq!(cpu(&format_cpu(m)).unwrap(), m);
    }
    for mib in [0u64, 1, 512, 1023, 1024, 1025, 2048, 1_048_576, u64::MAX] {
        assert_eq!(memory(&format_memory(mib)).unwrap(), mib);
    }
}

#[test]
fn format_edge_cases() {
    assert_eq!(format_cpu(0), "0m");
    assert_eq!(format_cpu(999), "999m");
    assert_eq!(format_cpu(1000), "1");
    assert_eq!(format_memory(0), "0Mi");
    assert_eq!(format_memory(1536), "1536Mi");
    assert_eq!(format_memory(u64::MAX), "18446744073709551615Mi");
}

#[test]
fn cpu_follows_floating_point() {
    assert_eq!(cpu("1.001").unwrap(), 1000);
    assert_eq!(cpu("1.003").unwrap(), 1002);
    assert_eq!(cpu("0.001").unwrap(), 1);
    assert_eq!(parse_cpu_to_millicores("1.5", 7).unwrap(), 7);
    assert_eq!(parse_cpu_to_millicores("15m", 7).unwrap(), 15);
    assert_eq!(parse_memory_to_mib("3Gi", 9).unwrap(), 9);
    assert_eq!(parse_memory_to_mib("3145728", 9).unwrap(), 3);
}

#[test]
fn conversion_steps() {
    assert_eq!(cpu_float_step("100m"), None);
    assert_eq!(cpu_float_step("5n"), Some((1, FloatScale::OverBillion)));
    assert_eq!(cpu_float_step("25u"), Some((2, FloatScale::OverThousand)));
    assert_eq!(cpu_float_step("1.5"), Some((3, FloatScale::TimesThousand)));
    assert_eq!(cpu_float_step(""), Some((0, FloatScale::TimesThousand)));
    assert_eq!(memory_float_step("12Ki"), Some((2, FloatScale::OverKibi)));
    assert_eq!(memory_float_step("12Mi"), Some((2, FloatScale::Unit)));
    assert_eq!(memory_float_step("12Gi"), Some((2, FloatScale::TimesKibi)));
    assert_eq!(memory_float_step("12Ti"), Some((2, FloatScale::TimesMebi)));
    assert_eq!(memory_float_step("12k"), Some((2, FloatScale::OverKibi)));
    assert_eq!(memory_float_step("12M"), Some((2, FloatScale::DecimalMega)));
    assert_eq!(memory_float_step("12G"), Some((2, FloatScale::DecimalGiga)));
    assert_eq!(memory_float_step("12"), None);
    assert_eq!(memory_float_step(""), None);
}

#[test]
fn round_trip_needs_exact_floating_point() {
    let mib: u64 = (1 << 53) + 1;
    let text = format_memory(mib);
    assert_eq!(text, "9007199254740993Mi");
    assert_eq!(memory(&text).unwrap(), mib - 1);
}
