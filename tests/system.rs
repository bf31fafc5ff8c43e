use appmgr::action::DockerIOFormat;
use appmgr::error::Error;
use appmgr::logs::{Level, LogOptions, Notification};
use appmgr::parse::{parse_i64, parse_u64, split_lines, split_words};
use appmgr::system::{parse_journal, parse_mem_info, parse_proc_stat, status_code, MemInfo, ProcStat};
use appmgr::wifi::{
    check_exit_status, delete_decision, fallback_network, parse_network_list, parse_signal_poll, signal_strength, AddWifiReq,
    NetworkAttr, NetworkId,
};

#[test]
fn proc_stat_first_line() {
    let p = parse_proc_stat("cpu  10 2 30 400 5 6 7 0 0 0").unwrap();
    assert_eq!(
        p,
        ProcStat { user: 10, nice: 2, system: 30, idle: 400, iowait: 5, irq: 6, softirq: 7 }
    );
    assert_eq!(p.total(), 460);
    assert_eq!(p.user(), 12);
    assert_eq!(p.system(), 43);
    assert_eq!(p.used(), 55);
    assert_eq!(parse_proc_stat("cpu 1 2 3 4 5 6 7 8 9"), Err(Error::InvalidOutput));
    assert_eq!(parse_proc_stat("cpu 1 2 3 4 5 6 7 8 9 x"), Err(Error::InvalidOutput));
    assert_eq!(parse_proc_stat(""), Err(Error::InvalidOutput));
}

#[test]
fn mem_info_needs_all_eight_fields() {
    let text = "MemTotal:       16000 kB\nMemFree:  1000 kB\nMemAvailable: 8000 kB\nBuffers: 100 kB\nCached: 2000 kB\nSwapCached: 0 kB\nSlab: 300 kB\nSwapTotal: 4000 kB\nSwapFree: 3500 kB\n";
    let m = parse_mem_info(text).unwrap();
    assert_eq!(
        m,
        MemInfo {
            mem_total: 16000,
            mem_free: 1000,
            mem_available: 8000,
            buffers: 100,
            cached: 2000,
            slab: 300,
            swap_total: 4000,
            swap_free: 3500,
        }
    );
    assert_eq!(parse_mem_info("MemTotal: 1 kB\n"), Err(Error::InvalidOutput));
    assert_eq!(parse_mem_info("MemTotal:\n"), Err(Error::InvalidOutput));
}

#[test]
fn words_lines_and_numbers() {
    assert_eq!(split_words("  a bc\t d\n"), vec!["a", "bc", "d"]);
    assert!(split_words("   ").is_empty());
    assert_eq!(split_lines("a\r\nb\n\nc"), vec!["a", "b", "", "c"]);
    assert_eq!(split_lines("a\n"), vec!["a"]);
    assert!(split_lines("").is_empty());
    assert_eq!(parse_u64("+42"), Some(42));
    assert_eq!(parse_u64("18446744073709551615"), Some(u64::MAX));
    assert_eq!(parse_u64("18446744073709551616"), None);
    assert_eq!(parse_u64("-1"), None);
    assert_eq!(parse_u64("+"), None);
    assert_eq!(parse_i64("-9223372036854775808"), Some(i64::MIN));
    assert_eq!(parse_i64("-60"), Some(-60));
    assert_eq!(parse_i64("9223372036854775808"), None);
    assert_eq!(parse_i64("-"), None);
}

#[test]
fn journal_lines_are_split_and_reordered() {
    let out = "-- Logs begin --\n2021-01-02T00:00:02 second entry\n2021-01-02T00:00:01 first\n";
    let v = parse_journal(out).unwrap();
    assert_eq!(
        v,
        vec![
            ("2021-01-02T00:00:01".to_string(), "first".to_string()),
            ("2021-01-02T00:00:02".to_string(), "second entry".to_string()),
        ]
    );
    assert_eq!(parse_journal("head\nnospace\n"), Err(Error::InvalidOutput));
    assert!(parse_journal("").unwrap().is_empty());
}

#[test]
fn rpc_error_codes_map_to_http_status() {
    assert_eq!(status_code(-32700), 400);
    assert_eq!(status_code(-32602), 400);
    assert_eq!(status_code(-32603), 500);
    assert_eq!(status_code(0), 500);
}

#[test]
fn wifi_answers() {
    let rows = parse_network_list("network id / ssid / bssid / flags\n0\thome\tany\t[CURRENT]\n1\twork\tany\t\nbad\n");
    assert_eq!(rows.len(), 2);
    assert_eq!(rows[0].0, "home");
    assert_eq!(rows[0].1, NetworkId("0".to_string()));
    assert_eq!(rows[1].0, "work");
    assert_eq!(parse_signal_poll("FAIL"), Ok(None));
    assert_eq!(parse_signal_poll("RSSI=-60\nLINKSPEED=65\n"), Ok(Some(-60)));
    assert_eq!(parse_signal_poll("garbage"), Err(Error::InvalidOutput));
    assert_eq!(signal_strength(Some(-120)), Some(0));
    assert_eq!(signal_strength(Some(-100)), Some(0));
    assert_eq!(signal_strength(Some(-60)), Some(80));
    assert_eq!(signal_strength(Some(-50)), Some(100));
    assert_eq!(signal_strength(None), None);
    assert_eq!(check_exit_status(Some(0)), Ok(()));
    assert_eq!(check_exit_status(Some(3)), Err(Error::ExitStatus(Some(3))));
    assert_eq!(check_exit_status(None), Err(Error::ExitStatus(None)));
    assert_eq!(NetworkAttr::Ssid("home".to_string()).to_arg(), "\"home\"");
    assert_eq!(NetworkAttr::Psk("pw".to_string()).to_arg(), "\"pw\"");
    assert_eq!(NetworkAttr::Priority(-3).to_arg(), "-3");
    assert_eq!(NetworkAttr::Priority(12).to_arg(), "12");
    assert_eq!(NetworkAttr::ScanSsid(true).to_arg(), "1");
    assert_eq!(NetworkAttr::ScanSsid(false).to_arg(), "0");
    let req = AddWifiReq {
        ssid: "café".to_string(),
        password: "pw".to_string(),
        country: "US".to_string(),
        priority: 0,
        connect: true,
    };
    assert_eq!(req.check(), Err(Error::NotAscii));
    let ok = AddWifiReq { ssid: "cafe".to_string(), ..req };
    assert_eq!(ok.check(), Ok(()));
}

#[test]
fn notification_lines_and_levels() {
    let n = Notification {
        time: 0,
        level: Level::Warn,
        code: 12,
        title: "a:b".to_string(),
        message: "x\ny".to_string(),
    };
    assert_eq!(n.to_line(), "WARN:12:a\u{A789}b:x\u{2026}y");
    assert_eq!(Level::from_name("SUCCESS"), Some(Level::Success));
    assert_eq!(Level::from_name("success"), None);
    assert_eq!(Level::Info.as_str(), "INFO");
    assert_eq!(Level::Error.as_str(), "ERROR");
    assert_eq!(DockerIOFormat::Yaml.as_str(), "YAML");
}

#[test]
fn docker_log_arguments() {
    let o = LogOptions {
        details: true,
        follow: false,
        since: Some("1h".to_string()),
        until: None,
        tail: Some(50),
        timestamps: true,
    };
    assert_eq!(
        o.docker_args("foo_main"),
        vec!["logs", "--details", "--since", "1h", "--tail", "50", "-t", "foo_main"]
    );
    let plain = LogOptions {
        details: false,
        follow: true,
        since: None,
        until: Some("now".to_string()),
        tail: None,
        timestamps: false,
    };
    assert_eq!(plain.docker_args("x"), vec!["logs", "-f", "--until", "now", "x"]);
}

#[test]
fn wifi_decisions() {
    assert_eq!(delete_decision(None, "home", false), Ok(true));
    assert_eq!(delete_decision(Some("home"), "home", true), Ok(true));
    assert_eq!(delete_decision(Some("home"), "home", false), Err(Error::WouldDisconnect));
    assert_eq!(delete_decision(Some("work"), "home", false), Ok(false));
    assert_eq!(fallback_network(false, Some("home".to_string())), Some("home".to_string()));
    assert_eq!(fallback_network(true, Some("home".to_string())), None);
    assert_eq!(fallback_network(false, None), None);
}

#[test]
fn backup_ignore_rules() {
    let lines = vec![
        "cache".to_string(),
        "".to_string(),
        "!!cache/keep".to_string(),
        "/abs".to_string(),
    ];
    assert_eq!(
        appmgr::backup::backup_filter_args("/mnt/vol/foo", &lines),
        vec![
            "--exclude=/mnt/vol/foo/cache",
            "--include=/mnt/vol/foo/cache/keep",
            "--exclude=/abs",
        ]
    );
}
