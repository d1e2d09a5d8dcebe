use tmstat::config::Config;
use tmstat::cpu::{self, CpuError};
use tmstat::load::{self, LoadText};
use tmstat::mem;
use tmstat::net::{self, InterfaceSample, NetError};

fn config(extras: Option<(usize, usize, usize)>, interfaces: &[&str], physical: bool) -> Config {
    Config {
        client_pid: Some(String::from("7")),
        status_interval: 15,
        format: String::new(),
        extras,
        interfaces: interfaces.iter().map(|s| String::from(*s)).collect(),
        physical,
        cachedir: String::from("/tmp/tmstat/"),
    }
}

fn row(name: &str, rx: u64, tx: u64) -> InterfaceSample {
    InterfaceSample { name: String::from(name), rx, tx }
}

fn rows() -> Vec<InterfaceSample> {
    vec![row("lo:", 1000, 2000), row("eth0:", 10, 20), row("eth1:", 300, 400)]
}

#[test]
fn cpu_totals() {
    assert_eq!(cpu::jiffies(&vec![1, 2, 3, 4, 5, 6, 7, 8, 9, 10]), Ok((27, 36)));
    assert_eq!(cpu::jiffies(&vec![1, 2, 3, 4, 5, 6, 7, 8]), Ok((27, 36)));
    assert_eq!(cpu::jiffies(&vec![0; 8]), Ok((0, 0)));
}

#[test]
fn cpu_missing_field() {
    assert_eq!(cpu::jiffies(&vec![1, 2, 3, 4, 5, 6, 7]), Err(CpuError::MissingField));
    assert_eq!(cpu::jiffies(&Vec::new()), Err(CpuError::MissingField));
}

#[test]
fn cpu_overflow() {
    assert_eq!(
        cpu::jiffies(&vec![u64::MAX, 1, 0, 0, 0, 0, 0, 0]),
        Err(CpuError::Overflow)
    );
    assert_eq!(
        cpu::jiffies(&vec![u64::MAX - 1, 0, 0, 2, 0, 0, 0, 0]),
        Err(CpuError::Overflow)
    );
    assert_eq!(
        cpu::jiffies(&vec![u64::MAX - 1, 0, 0, 1, 0, 0, 0, 0]),
        Ok((u64::MAX - 1, u64::MAX))
    );
}

#[test]
fn cpu_usage_wraps_instead_of_failing() {
    assert_eq!(cpu::usage(5, 8, Some((10, 20))), (u64::MAX - 4, u64::MAX - 11));
}

#[test]
fn cpu_usage_is_zero_when_nonidle_has_not_moved() {
    assert_eq!(cpu::usage(7, 100, Some((7, 3))), (0, 1));
    assert_eq!(cpu::usage(7, 100, Some((7, 100))), (0, 1));
    assert_eq!(cpu::usage(7, 100, Some((7, 200))), (0, 1));
    assert_eq!(cpu::usage(0, 0, Some((0, 0))), (0, 1));
}

#[test]
fn cpu_usage_without_prior_sample() {
    assert_eq!(cpu::usage(7, 100, None), (0, 1));
}

#[test]
fn cpu_usage_delta() {
    assert_eq!(cpu::usage(30, 200, Some((10, 100))), (20, 100));
    assert_eq!(cpu::usage(30, 100, Some((10, 100))), (20, 0));
}

#[test]
fn cpu_tokens() {
    let mut s = String::from("#[fg={gc}]{c}% {c}");
    cpu::format(&mut s, "12.34", "#00FF00", &config(Some((0, 4, 2)), &[], false));
    assert_eq!(s, "#[fg=#00FF00]12.3% 12.3");
}

#[test]
fn mem_share() {
    assert_eq!(mem::in_use(100, 25), Some((75, 100)));
    assert_eq!(mem::in_use(100, 100), Some((0, 100)));
    assert_eq!(mem::in_use(0, 0), Some((0, 0)));
    assert_eq!(mem::in_use(10, 20), None);
}

#[test]
fn mem_tokens() {
    let mut s = String::from("{gm} {m} {c}");
    mem::format(&mut s, "75", "#FF0000", &config(Some((4, 6, 0)), &[], false));
    assert_eq!(s, "#FF0000 75   {c}");
}

#[test]
fn loopback_excluded_without_filter() {
    assert_eq!(net::traffic(&rows(), &Vec::new()), Ok((310, 420)));
    assert!(!net::is_selected("lo:", &Vec::new()));
    assert!(!net::is_selected("lo", &Vec::new()));
    assert!(!net::is_selected("lo::", &Vec::new()));
    assert!(net::is_selected("eth0:", &Vec::new()));
    assert!(net::is_selected("lo0:", &Vec::new()));
    assert!(net::is_selected(":lo", &Vec::new()));
    assert!(net::is_selected("", &Vec::new()));
}

#[test]
fn dots_filter_includes_loopback() {
    let filter = vec![String::from("..")];
    assert_eq!(net::traffic(&rows(), &filter), Ok((1310, 2420)));
    assert!(net::is_selected("lo:", &filter));
}

#[test]
fn filter_selects_listed_interfaces() {
    let filter = vec![String::from("eth1"), String::from("lo")];
    assert_eq!(net::traffic(&rows(), &filter), Ok((1300, 2400)));
    assert!(!net::is_selected("eth0:", &filter));
    assert!(!net::is_selected("eth0", &filter));
    assert!(net::is_selected("eth1:", &filter));
    assert!(net::is_selected("eth1", &filter));
    assert!(net::is_selected("eth1::", &filter));
    assert!(net::is_selected("lo:", &filter));
    assert!(!net::is_selected("eth10:", &filter));
    assert!(!net::is_selected(":eth1", &filter));
}

#[test]
fn configured_interface_is_found_by_its_bare_name() {
    let filter = vec![String::from("eth0")];
    assert_eq!(net::traffic(&rows(), &filter), Ok((10, 20)));
    let bare = vec![row("lo", 4096, 4096), row("eth0", 2048, 1024), row("eth1", 1024, 1024)];
    assert_eq!(net::traffic(&bare, &filter), Ok((2048, 1024)));
}

#[test]
fn filter_entry_is_compared_as_written() {
    let filter = vec![String::from("eth1:")];
    assert!(!net::is_selected("eth1:", &filter));
    assert!(!net::is_selected("eth1", &filter));
    assert_eq!(net::traffic(&rows(), &filter), Err(NetError::NoInterface));
}

#[test]
fn no_matching_interface() {
    assert_eq!(
        net::traffic(&rows(), &vec![String::from("wlan0")]),
        Err(NetError::NoInterface)
    );
    assert_eq!(net::traffic(&Vec::new(), &Vec::new()), Err(NetError::NoInterface));
    assert_eq!(
        net::traffic(&vec![row("lo:", 1, 1)], &Vec::new()),
        Err(NetError::NoInterface)
    );
}

#[test]
fn traffic_overflow() {
    let big = vec![row("a:", u64::MAX, 0), row("b:", 1, 0)];
    assert_eq!(net::traffic(&big, &Vec::new()), Err(NetError::Overflow));
    let fits = vec![row("a:", u64::MAX, 0), row("b:", 0, u64::MAX)];
    assert_eq!(net::traffic(&fits, &Vec::new()), Ok((u64::MAX, u64::MAX)));
}

#[test]
fn net_deltas() {
    assert_eq!(net::deltas(100, 50, Some((40, 50))), (60, 0));
    assert_eq!(net::deltas(100, 50, None), (0, 0));
    assert_eq!(net::deltas(1, 2, Some((3, 3))), (u64::MAX - 1, u64::MAX));
}

#[test]
fn net_scale() {
    assert_eq!(net::format_net_bytes(0), (1 << 10, "K"));
    assert_eq!(net::format_net_bytes(1023), (1 << 10, "K"));
    assert_eq!(net::format_net_bytes((1 << 20) - 1), (1 << 10, "K"));
    assert_eq!(net::format_net_bytes(1 << 20), (1 << 20, "M"));
    assert_eq!(net::format_net_bytes((1 << 30) - 1), (1 << 20, "M"));
    assert_eq!(net::format_net_bytes(1 << 30), (1 << 30, "G"));
    assert_eq!(net::format_net_bytes((1 << 40) - 1), (1 << 30, "G"));
    assert_eq!(net::format_net_bytes(1 << 40), (1 << 40, "T"));
    assert_eq!(net::format_net_bytes((1 << 50) - 1), (1 << 40, "T"));
    assert_eq!(net::format_net_bytes(1 << 50), (1 << 40, "T"));
    assert_eq!(net::format_net_bytes(u64::MAX), (1 << 40, "T"));
}

#[test]
fn net_tokens() {
    let mut s = String::from("{d}{du} {u}{uu}");
    net::format(&mut s, "1.50", "K", "20.25", "M", &config(Some((0, 4, 2)), &[], false));
    assert_eq!(s, "1.50K 20.2M");
}

#[test]
fn cached_cores_are_used() {
    assert_eq!(load::core_counts(Some((8, 4))), ((8, 4), None));
    assert_eq!(load::resolve_cores(Some((8, 4)), (2, 1)), ((8, 4), None));
}

#[test]
fn queried_cores_are_written_back() {
    assert_eq!(load::resolve_cores(None, (2, 1)), ((2, 1), Some((2, 1))));
    let (counts, write) = load::core_counts(None);
    assert_eq!(write, Some(counts));
    assert!(counts.0 >= 1);
    assert!(counts.1 >= 1);
}

#[test]
fn core_choice_follows_configuration() {
    assert_eq!(load::cores((8, 4), &config(None, &[], true)), 4);
    assert_eq!(load::cores((8, 4), &config(None, &[], false)), 8);
}

#[test]
fn load_tokens() {
    let one = LoadText { text: String::from("0.52"), colour: String::from("#11FF00") };
    let five = LoadText { text: String::from("1.25"), colour: String::from("#22FF00") };
    let fifteen = LoadText { text: String::from("10.75"), colour: String::from("#33FF00") };
    let mut s = String::from("{gl1}{l1} {gl5}{l5} {gl15}{l15} {l1}");
    load::format(&mut s, &vec![one, five, fifteen], &config(Some((0, 4, 2)), &[], false));
    assert_eq!(s, "#11FF000.52 #22FF001.25 #33FF0010.7 0.52");
}

fn load_text(text: &str, colour: &str) -> LoadText {
    LoadText { text: String::from(text), colour: String::from(colour) }
}

#[test]
fn only_the_loads_present_are_rendered() {
    let policy = config(None, &[], false);
    let mut none = String::from("{l1} {l5} {l15}");
    load::format(&mut none, &Vec::new(), &policy);
    assert_eq!(none, "{l1} {l5} {l15}");
    let mut one = String::from("{gl1}{l1} {gl5}{l5} {l15}");
    load::format(&mut one, &vec![load_text("0.5", "#A")], &policy);
    assert_eq!(one, "#A0.5 {gl5}{l5} {l15}");
    let mut two = String::from("{l1} {l5} {gl15}{l15}");
    load::format(&mut two, &vec![load_text("1", "#A"), load_text("2", "#B")], &policy);
    assert_eq!(two, "1 2 {gl15}{l15}");
}

#[test]
fn loads_behind_the_third_are_not_shown() {
    let policy = config(None, &[], false);
    let loads = vec![
        load_text("1", "#A"),
        load_text("2", "#B"),
        load_text("3", "#C"),
        load_text("4", "#D"),
    ];
    let mut s = String::from("{l1}{l5}{l15}{gl1}{gl5}{gl15}");
    load::format(&mut s, &loads, &policy);
    assert_eq!(s, "123#A#B#C");
}
