use mochi_scheduler::clock::{fmt_at, fmt_local, Timestamp};
use mochi_scheduler::gpu::{
    count_device_lines, detect, detect_amd, detect_nvidia, override_gpus, probe_result, GpuInfo,
    Vendor,
};
use mochi_scheduler::ipc::job::JobState;
use mochi_scheduler::settings::{Settings, SettingsError};
use mochi_scheduler::text;

#[test]
fn vendors_have_their_variables() {
    assert_eq!(Vendor::Nvidia.visible_devices_env(), ["CUDA_VISIBLE_DEVICES"]);
    assert_eq!(
        Vendor::Amd.visible_devices_env(),
        ["HIP_VISIBLE_DEVICES", "ROCR_VISIBLE_DEVICES"]
    );
    assert!(Vendor::NoGpu.visible_devices_env().is_empty());
}

#[test]
fn vendors_are_named_loosely() {
    assert_eq!(Vendor::parse(" NVidia\t"), Some(Vendor::Nvidia));
    assert_eq!(Vendor::parse("cuda"), Some(Vendor::Nvidia));
    assert_eq!(Vendor::parse("amd"), Some(Vendor::Amd));
    assert_eq!(Vendor::parse("ROCm"), Some(Vendor::Amd));
    assert_eq!(Vendor::parse("\u{3000}hip\u{a0}"), Some(Vendor::Amd));
    assert_eq!(Vendor::parse("None"), Some(Vendor::NoGpu));
    assert_eq!(Vendor::parse("intel"), None);
    assert_eq!(Vendor::parse(""), None);
    assert_eq!(Vendor::NoGpu.name(), "None");
}

#[test]
fn an_override_short_circuits_detection() {
    let info = |count, vendor| Some(GpuInfo { count, vendor });
    assert_eq!(override_gpus(Some(" 2 "), None), info(2, Vendor::Nvidia));
    assert_eq!(override_gpus(Some("2"), Some("rocm")), info(2, Vendor::Amd));
    assert_eq!(override_gpus(Some("2"), Some("what")), info(2, Vendor::Nvidia));
    assert_eq!(override_gpus(Some("2"), Some("none")), info(2, Vendor::NoGpu));
    assert_eq!(override_gpus(Some("0"), Some("amd")), info(0, Vendor::NoGpu));
    assert_eq!(override_gpus(Some("many"), Some("amd")), None);
    assert_eq!(override_gpus(None, Some("amd")), None);
    assert_eq!(
        detect(Some("4"), None, Some(1), Some(1)),
        GpuInfo { count: 4, vendor: Vendor::Nvidia }
    );
}

#[test]
fn probes_are_taken_in_turn() {
    let gpus = |n, a| detect(None, None, n, a);
    assert_eq!(gpus(Some(3), Some(2)), GpuInfo { count: 3, vendor: Vendor::Nvidia });
    assert_eq!(gpus(None, Some(2)), GpuInfo { count: 2, vendor: Vendor::Amd });
    assert_eq!(gpus(None, None), GpuInfo { count: 0, vendor: Vendor::NoGpu });
}

#[test]
fn device_lines_are_counted() {
    let nvidia = b"GPU 0: A100 (UUID: x)\n  GPU 1: A100\nnot a GPU\n";
    assert_eq!(detect_nvidia(true, nvidia), Some(2));
    assert_eq!(detect_nvidia(false, nvidia), None);
    assert_eq!(detect_nvidia(true, b"No devices\n"), None);
    let amd = b"=== ROCm ===\r\nGPU[0] : id\r\nGPU[1] : id\r\nGPU 2\r\n";
    assert_eq!(detect_amd(true, amd), Some(2));
    // Bytes that are no text do not get in the way.
    assert_eq!(detect_nvidia(true, b"\xff\xfe\nGPU 0"), Some(1));
    assert_eq!(count_device_lines("", "GPU"), 0);
    assert_eq!(count_device_lines("GPU\n\nGPU", "GPU"), 2);
    assert_eq!(probe_result(true, 0), None);
    assert_eq!(probe_result(true, 5), Some(5));
}

#[test]
fn states_have_names_and_ends() {
    for (state, name, over) in [
        (JobState::Queued, "queued", false),
        (JobState::Paused, "paused", false),
        (JobState::Running, "running", false),
        (JobState::Finished, "finished", true),
        (JobState::Killed, "killed", true),
        (JobState::Failed, "failed", true),
    ] {
        assert_eq!((state.as_str(), state.is_terminal()), (name, over));
    }
}

fn some(s: &str) -> Option<String> {
    Some(s.to_string())
}

fn join(dir: &str, name: &str) -> String {
    std::path::Path::new(dir).join(name).to_string_lossy().into_owned()
}

#[test]
fn settings_hang_off_the_data_directory() {
    let s = Settings::resolve(some("/data"), some("/other"), some("ann"), some("bob")).unwrap();
    assert_eq!(s.data_dir, "/data");
    assert_eq!(s.state_file, join("/data", "state.json"));
    assert_eq!(s.log_dir, join("/data", "logs"));
    assert_eq!(s.socket_ns, "mochi-ann.sock");
    assert_eq!(s.socket_fs, join("/data", "mochi-ann.sock"));
    assert_eq!(s.socket_display(true), "mochi-ann.sock");
    assert_eq!(s.socket_display(false), join("/data", "mochi-ann.sock"));
    assert_eq!(s.socket_name_display(), "mochi-ann.sock");
    let other = Settings::resolve(some("/data"), None, some("bob"), None).unwrap();
    assert_ne!(other.socket_ns, s.clone().socket_ns);
}

#[test]
fn settings_have_fallbacks() {
    let s = Settings::resolve(None, some("/other"), None, some("bob")).unwrap();
    assert_eq!((s.data_dir.as_str(), s.socket_ns.as_str()), ("/other", "mochi-bob.sock"));
    let s = Settings::resolve(None, some("/other"), None, None).unwrap();
    assert_eq!(s.socket_ns, "mochi-default.sock");
    let e = Settings::resolve(None, None, None, None).unwrap_err();
    assert_eq!(e, SettingsError::NoHome);
    assert_eq!(e.message(), "could not determine a home directory for mochi");
}

#[test]
fn numbers_are_written_and_read() {
    assert_eq!(text::u32_text(0), "0");
    assert_eq!(text::u64_text(u64::MAX), "18446744073709551615");
    assert_eq!(text::i32_text(i32::MIN), "-2147483648");
    assert_eq!(text::usize_text(1020), "1020");
    for n in [0, 9, 10, 4_294_967_295] {
        assert_eq!(text::parse_u32(&text::u32_text(n)), Some(n));
    }
    for i in [0, -1, 77, i32::MIN, i32::MAX] {
        assert_eq!(text::parse_i32(&text::i32_text(i)), Some(i));
    }
    for s in ["", "+", "-", "1a", " 1", "4294967296", "99999999999999999999999"] {
        assert_eq!(text::parse_u32(s), None);
        assert_eq!(s.parse::<u32>().ok(), None);
    }
    for s in ["+5", "-0", "007", "-2147483649", "2147483648", "--1"] {
        assert_eq!(text::parse_i32(s), s.parse::<i32>().ok());
        assert_eq!(text::parse_u32(s), s.parse::<u32>().ok());
    }
}

#[test]
fn text_is_trimmed_and_joined() {
    assert_eq!(text::trim("\t a b \u{2003}\n"), "a b");
    assert_eq!(text::trim(" \n"), "");
    assert_eq!(text::join(&vec![], ","), "");
    assert_eq!(text::join(&vec!["a".to_string(), "".to_string()], ", "), "a, ");
    assert_eq!(text::join_numbers(&vec![3, 10], ","), "3,10");
    assert!(text::same_text("é", "é"));
    assert!(!text::same_text("a", "b"));
}

#[test]
fn times_can_be_shown_if_they_exist() {
    let shown = |secs, nanos| Timestamp { secs, nanos }.is_displayable();
    assert!(shown(0, 0));
    assert!(shown(-1, 999_999_999));
    // A leap second.
    assert!(shown(59, 1_500_000_000));
    assert!(shown(-1, 1_500_000_000));
    assert!(!shown(58, 1_500_000_000));
    assert!(!shown(59, 2_000_000_000));
    assert!(!shown(i64::MIN, 0));
    assert!(shown(8_210_266_876_799, 1_500_000_000));
    assert!(!shown(8_210_266_876_800, 0));
    assert!(shown(-8_334_601_228_800, 0));
    assert!(!shown(-8_334_601_228_801, 0));
    let text = fmt_local(Timestamp { secs: 1_600_000_000, nanos: 0 });
    assert_eq!(text.len(), 19);
    assert!(text.starts_with("2020-09-1"));
    assert_eq!((&text[10..11], &text[13..14], &text[16..17]), (" ", ":", ":"));
}

#[test]
fn times_are_shown_at_an_offset() {
    let at = |secs, nanos, offset| fmt_at(Timestamp { secs, nanos }, offset);
    assert_eq!(at(0, 0, 0), "1970-01-01 00:00:00");
    assert_eq!(at(0, 0, 3_600), "1970-01-01 01:00:00");
    assert_eq!(at(0, 999_999_999, -1), "1969-12-31 23:59:59");
    assert_eq!(at(1_600_000_000, 0, 0), "2020-09-13 12:26:40");
    assert_eq!(at(1_600_000_000, 0, 19_800), "2020-09-13 17:56:40");
    assert_eq!(at(1_600_000_000, 0, -86_399), "2020-09-12 12:26:41");
    // A leap second.
    assert_eq!(at(59, 1_500_000_000, 0), "1970-01-01 00:00:60");
    // The first and the last second, in every zone.
    assert_eq!(at(-8_334_601_228_800, 0, 0), "-262143-01-01 00:00:00");
    assert_eq!(at(8_210_266_876_799, 0, 0), "+262142-12-31 23:59:59");
    for offset in [-86_399, 86_399] {
        assert!(at(-8_334_601_228_800, 0, offset).starts_with("-26214"));
        assert!(at(8_210_266_876_799, 0, offset).starts_with("+26214"));
    }
}

#[test]
fn local_times_are_shown_at_some_offset() {
    for secs in [-8_334_601_228_800, -11_000_000_000, 0, 1_700_000_000, 8_210_266_876_799] {
        let t = Timestamp { secs, nanos: 0 };
        let text = fmt_local(t);
        assert!((-86_399..86_400).any(|offset| fmt_at(t, offset) == text), "{text}");
    }
}

#[test]
fn white_space_is_what_the_standard_library_says() {
    for c in '\0'..=char::MAX {
        assert_eq!(text::trim(&c.to_string()).is_empty(), c.is_whitespace(), "{c:?}");
    }
}

#[test]
fn the_daemon_has_an_address() {
    let s = Settings::resolve(some("/data"), None, some("ann"), None).unwrap();
    let name = s.socket_name().unwrap();
    assert!(name.is_namespaced());
    assert_eq!(name, s.socket_address(true).unwrap());
    // A path that starts with one backslash is an address like any other.
    let odd = Settings::resolve(some("\\data"), None, some("ann"), None).unwrap();
    assert!(odd.socket_address(false).unwrap().is_path());
    let path = s.socket_address(false).unwrap();
    assert!(path.is_path());
    assert_ne!(name, path);
    // A name cannot hold a zero byte.
    let s = Settings::resolve(some("/data"), None, some("a\0b"), None).unwrap();
    if let Err(e) = s.socket_name() {
        assert_eq!(e.message(), "Cannot get the socket name");
    }
    if let Err(e) = s.socket_address(false) {
        assert_eq!(e.message(), "Cannot get the socket name");
    }
}
