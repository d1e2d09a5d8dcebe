use palette::{Hsl, IntoColor, Srgb};

use tmstat::config::Config;
use tmstat::cpu;
use tmstat::net;
use tmstat::util::{format_metric, gradient};

fn policy(minw: usize, maxw: usize, precision: usize) -> Config {
    Config {
        client_pid: None,
        status_interval: 15,
        format: String::new(),
        extras: Some((minw, maxw, precision)),
        interfaces: Vec::new(),
        physical: false,
        cachedir: String::from("/tmp/tmstat/"),
    }
}

fn render(value: f64, minw: usize, maxw: usize, precision: usize) -> String {
    format_metric(&format!("{value:.precision$}"), &policy(minw, maxw, precision))
}

fn colour(fraction: f64) -> String {
    let hue = 120.0 - (120.0 * fraction);
    let hsl: Hsl<_, f64> = Hsl::new(hue, 1.0, 0.5);
    let rgb: Srgb<f64> = hsl.into_color();
    let (r, g, b) = rgb.into_format::<u8>().into_components();
    gradient(r, g, b)
}

#[test]
fn float_overflow_sentinel() {
    assert_eq!(render(12345.0, 0, 4, 0), "9999+");
}

#[test]
fn float_truncation_without_dangling_point() {
    let out = render(9.99, 0, 3, 2);
    assert_eq!(out.len(), 3);
    assert!(!out.ends_with('.'));
    assert_eq!(out, "9.9");
    assert_eq!(render(99.99, 0, 3, 2), " 99");
}

#[test]
fn float_width_over_a_range_of_values() {
    let values = [0.0, 0.5, 9.99, 10.0, 99.5, 100.0, 1234.5678, 98765.4321];
    for value in values {
        for precision in 0..4usize {
            for maxw in 1..9usize {
                for minw in 0..4usize {
                    let text = format!("{value:.precision$}");
                    let out = render(value, minw, maxw, precision);
                    let naive = text.len().max(minw);
                    if naive <= maxw {
                        assert!(out.len() >= minw);
                        assert!(out.len() <= maxw);
                    } else if out.ends_with('+') {
                        assert_eq!(out, "9".repeat(maxw) + "+");
                    } else {
                        assert_eq!(out.len(), maxw);
                        assert!(!out.ends_with('.'));
                    }
                }
            }
        }
    }
}

#[test]
fn gradient_boundaries_through_hsl() {
    assert_eq!(colour(0.0), "#00FF00");
    assert_eq!(colour(1.0), "#FF0000");
}

#[test]
fn gradient_midpoint_is_yellow() {
    assert_eq!(colour(0.5), "#FFFF00");
}

#[test]
fn wrapped_usage_is_not_negative() {
    let (busy, elapsed) = cpu::usage(5, 8, Some((10, 20)));
    let usage = busy as f64 / elapsed as f64;
    assert!(usage >= 0.0);
    assert!(usage.is_finite());
}

#[test]
fn idle_usage_is_exactly_zero() {
    for total in [0u64, 3, 100, u64::MAX] {
        for prior_total in [0u64, 3, 100, u64::MAX] {
            let (busy, elapsed) = cpu::usage(42, total, Some((42, prior_total)));
            assert_eq!(busy as f64 / elapsed as f64, 0.0);
        }
    }
}

#[test]
fn configured_interface_end_to_end() {
    let rows = vec![
        net::InterfaceSample { name: String::from("lo"), rx: 4096, tx: 4096 },
        net::InterfaceSample { name: String::from("eth0"), rx: 2048, tx: 1024 },
        net::InterfaceSample { name: String::from("eth1"), rx: 1024, tx: 1024 },
    ];
    let mut config = policy(0, usize::MAX, 0);
    config.interfaces = vec![String::from("eth0")];
    let snapshot = net::traffic(&rows, &config.interfaces);
    assert_eq!(snapshot, Ok((2048, 1024)));
    let (rx, tx) = net::deltas(2048, 1024, Some((0, 0)));
    let (rx_divisor, rx_unit) = net::format_net_bytes(rx);
    let (tx_divisor, tx_unit) = net::format_net_bytes(tx);
    let down = format!("{:.0}", rx as f64 / rx_divisor as f64);
    let up = format!("{:.0}", tx as f64 / tx_divisor as f64);
    let mut s = String::from("{d}{du} {u}{uu}");
    net::format(&mut s, &down, rx_unit, &up, tx_unit, &config);
    assert_eq!(s, "2K 1K");
}

#[test]
fn one_pebibyte_is_shown_in_the_largest_unit() {
    let (divisor, unit) = net::format_net_bytes(1 << 50);
    assert_eq!(unit, "T");
    assert_eq!(format!("{:.0}", (1u64 << 50) as f64 / divisor as f64), "1024");
    let (divisor, unit) = net::format_net_bytes(1 << 40);
    assert_eq!(unit, "T");
    assert_eq!(format!("{:.0}", (1u64 << 40) as f64 / divisor as f64), "1");
}

#[test]
fn net_scale_divides_through_the_units() {
    let samples = [
        0u64,
        1,
        1023,
        1024,
        (1 << 20) - 1,
        1 << 20,
        (1 << 30) - 1,
        1 << 30,
        (1 << 40) - 1,
        1 << 40,
        (1 << 50) - 1,
        1 << 50,
        (1 << 60) + 12345,
        u64::MAX,
    ];
    for amount in samples {
        let units = ["K", "M", "G", "T"];
        let mut scaled = amount as f64 / 1024.0;
        let mut index = 0;
        while scaled >= 1024.0 && index + 1 < units.len() {
            scaled /= 1024.0;
            index += 1;
        }
        let (divisor, chosen) = net::format_net_bytes(amount);
        assert_eq!(chosen, units[index]);
        assert_eq!(divisor, 1u64 << (10 * (index + 1)));
        assert_eq!(amount as f64 / divisor as f64, scaled);
        assert!(scaled < 1024.0 || chosen == "T");
    }
}
