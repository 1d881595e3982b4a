//! Tests for Kubernetes quantities.

use tessera_core::quantity::{bytes, cpu_milli, fmt_bytes, fmt_cpu};

#[test]
fn cpu() {
    assert_eq!(cpu_milli("500m"), Some(500));
    assert_eq!(cpu_milli("2"), Some(2000));
    assert_eq!(cpu_milli("0.25"), Some(250));
    assert_eq!(cpu_milli("3920m"), Some(3920));
    assert_eq!(cpu_milli("250000000n"), Some(250));
    assert_eq!(cpu_milli("abc"), None);
}

#[test]
fn memory() {
    assert_eq!(bytes("256Mi"), Some(268435456));
    assert_eq!(bytes("1Gi"), Some(1073741824));
    assert_eq!(bytes("512M"), Some(512_000_000));
    assert_eq!(bytes("129e6"), Some(129_000_000));
    assert_eq!(bytes("128974848"), Some(128974848));
    assert_eq!(bytes("15564212Ki"), Some(15564212 * 1024));
}

#[test]
fn formatting() {
    assert_eq!(fmt_bytes(268435456), "256Mi");
    assert_eq!(fmt_bytes(1610612736), "1.5Gi");
    assert_eq!(fmt_cpu(500), "500m");
    assert_eq!(fmt_cpu(6000), "6");
    assert_eq!(fmt_cpu(3920), "3.92");
}

fn cpu_by_floats(q: &str) -> Option<i64> {
    let q = q.trim();
    if let Some(m) = q.strip_suffix('m') {
        return m.parse::<f64>().ok().map(|v| v.round() as i64);
    }
    if let Some(n) = q.strip_suffix('n') {
        return n.parse::<f64>().ok().map(|v| (v / 1_000_000.0).round() as i64);
    }
    if let Some(u) = q.strip_suffix('u') {
        return u.parse::<f64>().ok().map(|v| (v / 1_000.0).round() as i64);
    }
    q.parse::<f64>().ok().map(|v| (v * 1000.0).round() as i64)
}

fn bytes_by_floats(q: &str) -> Option<i64> {
    let q = q.trim();
    let units: [(&str, f64); 12] = [
        ("Ki", 1024.0),
        ("Mi", 1048576.0),
        ("Gi", 1073741824.0),
        ("Ti", 1099511627776.0),
        ("Pi", 1125899906842624.0),
        ("Ei", 1152921504606846976.0),
        ("k", 1e3),
        ("M", 1e6),
        ("G", 1e9),
        ("T", 1e12),
        ("P", 1e15),
        ("E", 1e18),
    ];
    for (suffix, mult) in units {
        if let Some(n) = q.strip_suffix(suffix) {
            return n.parse::<f64>().ok().map(|v| (v * mult).round() as i64);
        }
    }
    if let Some(m) = q.strip_suffix('m') {
        return m.parse::<f64>().ok().map(|v| (v / 1000.0).round() as i64);
    }
    q.parse::<f64>().ok().map(|v| v.round() as i64)
}

const NUMBERS: [&str; 46] = [
    "0", "1", "2.5", "0.1", "0.25", ".5", "5.", ".", "", "-", "+", "-1", "+2", "-0", "1e3", "1E3",
    "1e-3", "1e+2", "1e", "e5", "1e5.0", "inf", "-inf", "Infinity", "nan", "NaN", "0x10", "1_0",
    "1.2.3", "9007199254740993", "12345678901234567890", "123456789012345678901234567890",
    "0.30000000000000004", "2.2250738585072014e-308", "4.9e-324", "2e-324", "1e400", "-1e400",
    "179769313486231580000000000000000000000", "0.5", "1.5", "2.4999999999999999", "0.0005",
    "1e-400", "00012", "١",
];

#[test]
fn quantities_read_as_doubles_do() {
    for n in NUMBERS {
        for unit in ["", "m", "n", "u", " "] {
            let q = format!("{n}{unit}");
            assert_eq!(cpu_milli(&q), cpu_by_floats(&q), "{q:?}");
        }
        for unit in
            ["", "Ki", "Mi", "Gi", "Ti", "Pi", "Ei", "k", "M", "G", "T", "P", "E", "m", "\t"]
        {
            let q = format!("{n}{unit}");
            assert_eq!(bytes(&q), bytes_by_floats(&q), "{q:?}");
        }
    }
}

#[test]
fn many_quantities_read_as_doubles_do() {
    let mut x: u64 = 88172645463325252;
    for _ in 0..2000 {
        x ^= x << 13;
        x ^= x >> 7;
        x ^= x << 17;
        let q = format!("{}.{}", x % 100_000, x >> 40);
        assert_eq!(cpu_milli(&q), cpu_by_floats(&q), "{q:?}");
        let q = format!("{}.{}Gi", x % 10_000, (x >> 20) % 1_000_000_007);
        assert_eq!(bytes(&q), bytes_by_floats(&q), "{q:?}");
        let q = format!("{}e{}", x, (x % 40) as i64 - 30);
        assert_eq!(bytes(&q), bytes_by_floats(&q), "{q:?}");
    }
}

#[test]
fn exact_quantities() {
    assert_eq!(cpu_milli(" 1500u "), Some(2));
    assert_eq!(cpu_milli("-500m"), Some(-500));
    assert_eq!(cpu_milli("inf"), Some(i64::MAX));
    assert_eq!(cpu_milli("NaN"), Some(0));
    assert_eq!(cpu_milli("m"), None);
    assert_eq!(bytes("1.5Gi"), Some(1610612736));
    assert_eq!(bytes("1500m"), Some(2));
    assert_eq!(bytes("8Ei"), Some(i64::MAX));
    assert_eq!(bytes("-1Ki"), Some(-1024));
    assert_eq!(bytes("abcMi"), None);
}

#[test]
fn sizes_are_written_as_doubles_are() {
    let by_floats = |b: i64| -> String {
        let units = [("Gi", 1i64 << 30), ("Mi", 1 << 20), ("Ki", 1 << 10)];
        for (u, size) in units {
            if b >= size {
                let v = b as f64 / size as f64;
                return if (v - v.round()).abs() < 0.05 {
                    format!("{}{u}", v.round() as i64)
                } else {
                    format!("{v:.1}{u}")
                };
            }
        }
        format!("{b}B")
    };
    for b in -10..20_000i64 {
        assert_eq!(fmt_bytes(b), by_floats(b), "{b}");
    }
    let mut x: u64 = 88172645463325252;
    for _ in 0..5000 {
        x ^= x << 13;
        x ^= x >> 7;
        x ^= x << 17;
        let b = (x >> (x % 60)) as i64;
        assert_eq!(fmt_bytes(b), by_floats(b), "{b}");
    }
    assert_eq!(fmt_bytes(i64::MAX), by_floats(i64::MAX));
    assert_eq!(fmt_bytes(i64::MIN), by_floats(i64::MIN));
    assert_eq!(fmt_bytes(1024), "1Ki");
    assert_eq!(fmt_bytes(1100), "1.1Ki");
    assert_eq!(fmt_bytes(0), "0B");
}

#[test]
fn cpus_are_written_as_doubles_are() {
    let by_floats = |milli: i64| -> String {
        if milli % 1000 == 0 {
            format!("{}", milli / 1000)
        } else if milli > 1000 {
            format!("{:.2}", milli as f64 / 1000.0)
        } else {
            format!("{milli}m")
        }
    };
    for m in -3000..20_000i64 {
        assert_eq!(fmt_cpu(m), by_floats(m), "{m}");
    }
    for m in [i64::MAX, i64::MIN, i64::MAX - 1, 1_234_567_890_123] {
        assert_eq!(fmt_cpu(m), by_floats(m), "{m}");
    }
}

#[test]
fn written_amounts_read_back() {
    for m in (0..200_000i64).chain([999_999_999, 1_000_000_000, 123_456_785]) {
        let n = cpu_milli(&fmt_cpu(m)).unwrap();
        assert!((n - m).abs() <= 5, "{m} {n}");
        assert!(n == m || !(m <= 1000 || m % 10 == 0), "{m} {n}");
    }
    for k in 1..1024i64 {
        for e in [10, 20, 30] {
            assert_eq!(bytes(&fmt_bytes(k << e)), Some(k << e));
        }
    }
}
