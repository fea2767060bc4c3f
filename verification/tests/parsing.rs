use nperf_core::args::{
    parse_collate_format, parse_event_source, parse_granularity, try_parse_period, EventSource,
    Granularity, ProcessFilter, TargetProcess,
};
use nperf_core::arm::Arch;
use nperf_core::cmd_collate::CollateFormat;
use nperf_core::prel31::{prel31_encode, prel31_target};

#[test]
fn periods_scale_by_their_suffix() {
    assert_eq!(try_parse_period("100ms"), Ok(100_000_000));
    assert_eq!(try_parse_period("250us"), Ok(250_000));
    assert_eq!(try_parse_period("7ns"), Ok(7));
    assert_eq!(try_parse_period("3s"), Ok(3_000_000_000));
    assert_eq!(try_parse_period("2"), Ok(2_000_000_000));
}

#[test]
fn invalid_periods_are_rejected() {
    assert!(try_parse_period("").is_err());
    assert!(try_parse_period("ms").is_err());
    assert!(try_parse_period("12x3s").is_err());
    assert!(try_parse_period("-5s").is_err());
    assert!(try_parse_period("99999999999999999999").is_err());
}

#[test]
fn event_sources_parse() {
    assert_eq!(parse_event_source("hw_cpu_cycles"), EventSource::HwCpuCycles);
    assert_eq!(parse_event_source("hw_ref_cpu_cycles"), EventSource::HwRefCpuCycles);
    assert_eq!(parse_event_source("sw_cpu_clock"), EventSource::SwCpuClock);
    assert_eq!(parse_event_source("sw_page_faults"), EventSource::SwPageFaults);
    assert_eq!(parse_event_source("sw_dummy"), EventSource::SwDummy);
}

#[test]
fn collate_formats_parse() {
    assert_eq!(parse_collate_format("collapsed"), CollateFormat::Collapsed);
    assert_eq!(parse_collate_format("perf-like"), CollateFormat::PerfLike);
}

#[test]
fn granularities_parse() {
    assert_eq!(parse_granularity("address"), Granularity::Address);
    assert_eq!(parse_granularity("function"), Granularity::Function);
    assert_eq!(parse_granularity("line"), Granularity::Line);
    assert_eq!(Granularity::default(), Granularity::Line);
}

#[test]
fn process_filters_select_their_target() {
    let by_name = ProcessFilter {
        pid: None,
        process: Some("app".to_string()),
        wait: false,
        wait_timeout: 5,
    };
    assert_eq!(TargetProcess::from(by_name), TargetProcess::ByName("app".to_string()));

    let waiting = ProcessFilter {
        pid: Some(7),
        process: Some("app".to_string()),
        wait: true,
        wait_timeout: 5,
    };
    assert_eq!(
        TargetProcess::from(waiting),
        TargetProcess::ByNameWaiting("app".to_string(), 5)
    );

    let by_pid = ProcessFilter { pid: Some(42), process: None, wait: false, wait_timeout: 0 };
    assert_eq!(TargetProcess::from(by_pid), TargetProcess::ByPid(42));
}

#[test]
fn register_names_follow_arm_convention() {
    assert_eq!(Arch::register_name_str(0), Some("R0"));
    assert_eq!(Arch::register_name_str(10), Some("R10"));
    assert_eq!(Arch::register_name_str(11), Some("FP"));
    assert_eq!(Arch::register_name_str(12), Some("IP"));
    assert_eq!(Arch::register_name_str(13), Some("SP"));
    assert_eq!(Arch::register_name_str(14), Some("LR"));
    assert_eq!(Arch::register_name_str(15), Some("PC"));
    assert_eq!(Arch::register_name_str(16), None);
}

#[test]
fn prel31_round_trips_nearby_addresses() {
    let cases: &[(u32, u32)] = &[
        (0x0001_0000, 0x0001_0000),
        (0x0001_0000, 0x0000_8000),
        (0x0000_8000, 0x0001_0000),
        (0x4000_0000, 0x4000_0000 + 0x3FFF_FFFF),
        (0xFFFF_0000, 0x0000_1000),
    ];
    for &(at, target) in cases {
        let word = prel31_encode(target, at);
        assert_eq!(word >> 31, 0);
        assert_eq!(prel31_target(word, at), target);
    }
}

#[test]
fn prel31_sign_extends_from_bit_thirty() {
    // an offset of -8 encodes as 0x7FFFFFF8 and must decode below `at`
    assert_eq!(prel31_encode(0x0000_FFF8, 0x0001_0000), 0x7FFF_FFF8);
    assert_eq!(prel31_target(0x7FFF_FFF8, 0x0001_0000), 0x0000_FFF8);
    assert_eq!(prel31_target(0x0000_0008, 0x0001_0000), 0x0001_0008);
}
