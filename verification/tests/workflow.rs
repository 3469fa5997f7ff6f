use ollama_service::install::{
    archive_http_check, archive_install_platform_check, check_entry_name, download_percent,
    download_report_due, entry_is_dir, expected_executable, extraction_report_due, install_dir,
    phase_notification, release_url, temp_archive_path, verify_install, InstallPhase,
};
use ollama_service::launch::{LaunchStep, Launcher, Platform};
use ollama_service::resolve::{
    linux_candidate_paths, linux_resolve, trim_str, unit_state_recognized, windows_search_result,
};
use ollama_service::terminate::{stop_command, stop_outcome, StopEvent};

#[test]
fn windows_plan_probes_managed_path_first() {
    let l = Launcher::windows("C:\\Users\\u\\AppData\\Local", "C:\\Program Files");
    match l.current() {
        LaunchStep::SpawnServeAt { path } => {
            assert_eq!(path, "C:\\Users\\u\\AppData\\Local\\PrivatePDF\\ollama\\ollama.exe");
        },
        _ => panic!("first strategy must probe the managed install path"),
    }
}

#[test]
fn windows_exhaustion_aggregates_failures() {
    let mut l = Launcher::windows("C:\\lad", "C:\\pf");
    let mut n: usize = 0;
    while l.outcome().is_none() {
        n += 1;
        l.fail(format!("fail{}", n));
    }
    assert_eq!(l.outcome(), Some(false));
    assert_eq!(n, 5);
    let msg = l.error_message();
    let expected_prefix = "Could not find or start Ollama. Please:\n1. Install Ollama from \
                           https://ollama.com/download/windows\n2. Or open Command Prompt and \
                           run: ollama serve\n3. Then click 'Check Status' in PrivatePDF";
    assert_eq!(
        msg,
        format!("{} Attempts: fail1; fail2; fail3; fail4; fail5", expected_prefix)
    );
}

#[test]
fn first_success_ends_attempt() {
    let mut l = Launcher::windows("C:\\lad", "C:\\pf");
    l.fail("missing".to_string());
    assert!(l.outcome().is_none());
    l.succeed();
    assert_eq!(l.outcome(), Some(true));
    assert_eq!(
        l.success_message(),
        "Ollama server starting. Please wait a few seconds for it to initialize."
    );
}

#[test]
fn macos_plan_and_messages() {
    let mut l = Launcher::macos();
    match l.current() {
        LaunchStep::SpawnServeCommand { program } => assert_eq!(program, "ollama"),
        _ => panic!("macOS tries the command-line server first"),
    }
    l.fail("spawn failed".to_string());
    match l.current() {
        LaunchStep::LaunchApp => {},
        _ => panic!("macOS falls back to launching the app"),
    }
    l.succeed();
    assert_eq!(
        l.success_message(),
        "Ollama starting via app... Please wait 10-20 seconds for it to initialize."
    );
}

#[test]
fn linux_plan_and_messages() {
    let mut l = Launcher::linux("/usr/bin/ollama");
    match l.current() {
        LaunchStep::StartServiceUnit => {},
        _ => panic!("Linux tries the service manager first"),
    }
    l.succeed();
    assert_eq!(l.success_message(), "Ollama service started via systemd.");

    let mut l = Launcher::linux("/usr/bin/ollama");
    l.fail("unit not recognized".to_string());
    match l.current() {
        LaunchStep::DirectSpawn { path } => assert_eq!(path, "/usr/bin/ollama"),
        _ => panic!("Linux falls back to a direct spawn"),
    }
    l.succeed();
    assert_eq!(
        l.success_message(),
        "Ollama service started. Please wait a few seconds for it to initialize."
    );
}

#[test]
fn linux_resolve_prefers_path_lookup() {
    let candidates = linux_candidate_paths("/home/u");
    assert_eq!(
        candidates,
        vec![
            "/usr/local/bin/ollama".to_string(),
            "/usr/bin/ollama".to_string(),
            "/opt/ollama/bin/ollama".to_string(),
            "/home/u/.local/bin/ollama".to_string(),
        ]
    );
    let exists = vec![false, false, false, false];
    let r = linux_resolve(Some("/custom/ollama\n"), &candidates, &exists);
    assert_eq!(r, Ok("/custom/ollama".to_string()));
}

#[test]
fn linux_resolve_falls_back_to_first_existing_path() {
    let candidates = linux_candidate_paths("/home/u");
    let exists = vec![false, true, true, false];
    let r = linux_resolve(None, &candidates, &exists);
    assert_eq!(r, Ok("/usr/bin/ollama".to_string()));
    let r = linux_resolve(Some("   \n"), &candidates, &exists);
    assert_eq!(r, Ok("/usr/bin/ollama".to_string()));
}

#[test]
fn linux_resolve_fails_when_nothing_found() {
    let candidates = linux_candidate_paths("/home/u");
    let exists = vec![false, false, false, false];
    let r = linux_resolve(None, &candidates, &exists);
    assert_eq!(
        r,
        Err("Ollama is not installed or not in PATH. Please install Ollama from \
             https://ollama.com/download/linux"
            .to_string())
    );
}

#[test]
fn unit_state_codes() {
    assert!(unit_state_recognized(Some(0)));
    assert!(unit_state_recognized(Some(1)));
    assert!(unit_state_recognized(Some(3)));
    assert!(!unit_state_recognized(Some(4)));
    assert!(!unit_state_recognized(None));
}

#[test]
fn search_output_accepted_case_insensitively() {
    assert_eq!(
        windows_search_result("  C:\\Tools\\OLLAMA.EXE \r\n"),
        Some("C:\\Tools\\OLLAMA.EXE".to_string())
    );
    assert_eq!(windows_search_result("C:\\Tools\\other.exe\r\n"), None);
    assert_eq!(windows_search_result("   \r\n"), None);
    assert_eq!(windows_search_result(""), None);
}

#[test]
fn trim_removes_surrounding_whitespace_only() {
    assert_eq!(trim_str("  a b \t\r\n"), "a b");
    assert_eq!(trim_str(""), "");
    assert_eq!(trim_str(" \t "), "");
    assert_eq!(trim_str("x"), "x");
}

#[test]
fn stop_commands_per_platform() {
    let (prog, args) = stop_command(Platform::MacOs);
    assert_eq!(prog, "pkill");
    assert_eq!(args, vec!["-f".to_string(), "ollama".to_string()]);
    let (prog, args) = stop_command(Platform::Windows);
    assert_eq!(prog, "taskkill");
    assert_eq!(args, vec!["/F".to_string(), "/IM".to_string(), "ollama.exe".to_string()]);
    let (prog, args) = stop_command(Platform::Linux);
    assert_eq!(prog, "pkill");
    assert_eq!(args, vec!["-f".to_string(), "ollama serve".to_string()]);
}

#[test]
fn stop_outcomes_treat_no_match_as_success() {
    let r = stop_outcome(Platform::Windows, &StopEvent::Completed { success: false });
    assert_eq!(r, Ok("Ollama stop attempted (may not have been running)".to_string()));
    let r = stop_outcome(Platform::Linux, &StopEvent::Completed { success: false });
    assert_eq!(r, Ok("Ollama service stopped (or not running)".to_string()));
    let r = stop_outcome(Platform::Windows, &StopEvent::Completed { success: true });
    assert_eq!(r, Ok("Ollama service stopped".to_string()));
}

#[test]
fn stop_outcomes_on_command_failure() {
    let r = stop_outcome(
        Platform::MacOs,
        &StopEvent::SpawnFailed { detail: "boom".to_string() },
    );
    assert_eq!(r, Err("Failed to stop Ollama: boom".to_string()));
    let r = stop_outcome(
        Platform::Linux,
        &StopEvent::ExecFailed { detail: "boom".to_string() },
    );
    assert_eq!(r, Ok("Ollama stop attempted".to_string()));
    let r = stop_outcome(Platform::MacOs, &StopEvent::Spawned);
    assert_eq!(r, Ok("Ollama service stopped".to_string()));
}

#[test]
fn release_urls_by_capability() {
    assert_eq!(
        release_url(true),
        "https://github.com/ollama/ollama/releases/latest/download/ollama-windows-amd64-rocm.zip"
    );
    assert_eq!(
        release_url(false),
        "https://github.com/ollama/ollama/releases/latest/download/ollama-windows-amd64.zip"
    );
}

#[test]
fn managed_install_locations() {
    assert_eq!(install_dir("C:\\lad"), "C:\\lad\\PrivatePDF\\ollama");
    assert_eq!(temp_archive_path("C:\\lad"), "C:\\lad\\PrivatePDF\\ollama_temp.zip");
    assert_eq!(
        expected_executable("C:\\lad\\PrivatePDF\\ollama"),
        "C:\\lad\\PrivatePDF\\ollama\\ollama.exe"
    );
}

#[test]
fn archive_install_is_windows_only() {
    assert!(archive_install_platform_check(Platform::Windows).is_ok());
    assert_eq!(
        archive_install_platform_check(Platform::MacOs),
        Err("ZIP installation only supported on Windows".to_string())
    );
    assert_eq!(
        archive_install_platform_check(Platform::Linux),
        Err("ZIP installation only supported on Windows".to_string())
    );
}

#[test]
fn archive_http_check_message() {
    assert!(archive_http_check(200).is_ok());
    assert_eq!(archive_http_check(403), Err("Download failed: HTTP 403".to_string()));
}

#[test]
fn download_progress_throttle() {
    assert!(download_report_due(1048576, 8192, 99999999));
    assert!(download_report_due(1048580, 8192, 99999999));
    assert!(!download_report_due(524288, 8192, 99999999));
    assert!(download_report_due(99999999, 8192, 99999999));
}

#[test]
fn download_percent_values() {
    assert_eq!(download_percent(0, 0), 0);
    assert_eq!(download_percent(50, 100), 50);
    assert_eq!(download_percent(1, 3), 33);
    assert_eq!(download_percent(100, 100), 100);
}

#[test]
fn extraction_progress_throttle() {
    assert!(extraction_report_due(0, 5));
    assert!(extraction_report_due(10, 20));
    assert!(!extraction_report_due(3, 5));
    assert!(extraction_report_due(4, 5));
}

#[test]
fn traversal_entries_rejected() {
    assert!(!check_entry_name(b".."));
    assert!(!check_entry_name(b"../evil.exe"));
    assert!(!check_entry_name(b"dir/../../evil"));
    assert!(!check_entry_name(b"dir\\..\\evil"));
    assert!(!check_entry_name(b"/absolute"));
    assert!(!check_entry_name(b"\\absolute"));
    assert!(!check_entry_name(b"C:\\windows\\evil"));
    assert!(!check_entry_name(b""));
}

#[test]
fn ordinary_entries_accepted() {
    assert!(check_entry_name(b"ollama.exe"));
    assert!(check_entry_name(b"lib/ollama/runner.dll"));
    assert!(check_entry_name(b"dir/"));
    assert!(check_entry_name(b"..hidden"));
    assert!(check_entry_name(b"a..b/c"));
    assert!(check_entry_name(b"dots../file"));
}

#[test]
fn directory_entries_end_with_slash() {
    assert!(entry_is_dir(b"lib/"));
    assert!(!entry_is_dir(b"lib"));
    assert!(!entry_is_dir(b""));
}

#[test]
fn phase_notifications() {
    assert_eq!(
        phase_notification(&InstallPhase::Downloading),
        ("downloading", "Starting download...")
    );
    assert_eq!(
        phase_notification(&InstallPhase::Extracting),
        ("extracting", "Extracting files...")
    );
    assert_eq!(
        phase_notification(&InstallPhase::Completed),
        ("completed", "Installation complete!")
    );
}

#[test]
fn install_verified_only_when_executable_exists() {
    assert_eq!(
        verify_install(true, "C:\\lad\\PrivatePDF\\ollama"),
        Ok("Installed to: C:\\lad\\PrivatePDF\\ollama".to_string())
    );
    assert_eq!(
        verify_install(false, "C:\\lad\\PrivatePDF\\ollama"),
        Err("Extraction failed: ollama.exe not found".to_string())
    );
}
