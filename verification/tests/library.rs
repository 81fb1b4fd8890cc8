use std::{cell::RefCell, time::Duration};

use gpu_driver_helper::{
    commands::{validate_argv, wait_step, CommandError, CommandResult, CommandRunner, WaitStep},
    executor::{
        apply_plan, continue_apply, record_outcome, start_apply, ApplyState, ApplyStep,
        CommandResultJson, Progress,
    },
    models::{CommandPlan, GpuDevice, RepairPlan, SystemReport, VulkanDevice},
    probe::{
        detect_platform, detect_vendor, diagnose, distribution, filter_found,
        hardware_vulkan_present, is_found, known_command_names, lspci_devices,
        lspci_devices_from, nvidia_devices, nvidia_devices_from, nvidia_smi_path,
        parse_lspci_output, parse_nvidia_smi_list, parse_vulkan_summary, platform_from_lowercase,
        software_from_lowercase, sysfs_devices, vendor_from_lowercase, vulkan_devices_from,
        DrmEntry, HostProbe,
    },
    recipes::plan_repair,
    text::trim_str,
};

/// Answers each command from a script and records what it was asked.
struct ScriptedRunner {
    answers: RefCell<Vec<Result<CommandResult, CommandError>>>,
    calls: RefCell<Vec<Vec<String>>>,
}

impl ScriptedRunner {
    fn new(answers: Vec<Result<CommandResult, CommandError>>) -> Self {
        ScriptedRunner {
            answers: RefCell::new(answers),
            calls: RefCell::new(Vec::new()),
        }
    }
}

impl CommandRunner for ScriptedRunner {
    fn run(&self, argv: &[String], _timeout: Duration) -> Result<CommandResult, CommandError> {
        self.calls.borrow_mut().push(argv.to_vec());
        let mut answers = self.answers.borrow_mut();
        if answers.is_empty() {
            Err(CommandError::Start("no answer".to_string()))
        } else {
            answers.remove(0)
        }
    }
}

fn finished(argv: &[&str], code: i32, stdout: &str) -> Result<CommandResult, CommandError> {
    Ok(CommandResult {
        argv: argv.iter().map(|s| s.to_string()).collect(),
        return_code: code,
        stdout: stdout.to_string(),
        stderr: String::new(),
    })
}

fn gpu(vendor: &str) -> GpuDevice {
    GpuDevice {
        vendor: vendor.to_string(),
        model: "card0".to_string(),
        pci_id: None,
        driver: None,
        source: "sysfs".to_string(),
    }
}

fn report(platform: &str, vendor: &str, managers: &[&str]) -> SystemReport {
    SystemReport {
        platform: platform.to_string(),
        distribution: Some("debian".to_string()),
        devices: vec![gpu(vendor)],
        vulkan_devices: Vec::new(),
        nvidia_smi: false,
        package_managers: managers.iter().map(|s| s.to_string()).collect(),
        available_commands: managers.iter().map(|s| s.to_string()).collect(),
    }
}

fn ready_plan(commands: &[&[&str]]) -> RepairPlan {
    RepairPlan {
        status: "READY".to_string(),
        message: "plan".to_string(),
        commands: commands
            .iter()
            .map(|argv| CommandPlan {
                argv: argv.iter().map(|s| s.to_string()).collect(),
                reason: "plan".to_string(),
                privileged: true,
            })
            .collect(),
    }
}

fn strings(words: &[&str]) -> Vec<String> {
    words.iter().map(|s| s.to_string()).collect()
}

#[test]
fn platform_from_dxg_and_kernel_string() {
    assert_eq!(detect_platform("Linux version 6.1", true), "wsl");
    assert_eq!(detect_platform("Linux version 5.15.90.1-MICROSOFT-standard", false), "wsl");
    assert_eq!(detect_platform("", false), "unknown");
    assert_eq!(detect_platform("Linux version 6.1.0-13-amd64", false), "linux");
}

#[test]
fn vendor_names() {
    assert_eq!(detect_vendor("NVIDIA Corporation GA106"), "nvidia");
    assert_eq!(detect_vendor("Intel Corporation UHD Graphics 620"), "intel");
    assert_eq!(detect_vendor("Advanced Micro Devices Navi"), "amd");
    assert_eq!(detect_vendor("card with AMD inside"), "amd");
    assert_eq!(detect_vendor("pci:v000010DEd"), "unknown");
    assert_eq!(detect_vendor("Matrox G200"), "unknown");
}

#[test]
fn vulkan_cpu_types_and_software_names_are_not_hardware() {
    let output = "GPU0:\r\n\tdeviceName = SwiftShader Device\r\n\tdeviceType = PHYSICAL_DEVICE_TYPE_INTEGRATED_GPU\r\nGPU1:\n deviceName = Some GPU\n deviceType = CPU\nGPU2:\n deviceName = Radeon RX 6600\n deviceType = PHYSICAL_DEVICE_TYPE_DISCRETE_GPU\n driverName = radv\n";
    let devices = parse_vulkan_summary(output);
    assert_eq!(devices.len(), 3);
    assert_eq!(devices[0].name, "SwiftShader Device");
    assert!(!devices[0].hardware);
    assert_eq!(devices[1].device_type.as_deref(), Some("CPU"));
    assert!(!devices[1].hardware);
    assert_eq!(devices[2].name, "Radeon RX 6600");
    assert_eq!(devices[2].driver.as_deref(), Some("radv"));
    assert!(devices[2].hardware);
}

#[test]
fn vulkan_summary_without_devices() {
    assert!(parse_vulkan_summary("").is_empty());
    assert!(parse_vulkan_summary("GPU0:\n deviceType = CPU\n").is_empty());
    let devices = parse_vulkan_summary("deviceName = Lone GPU");
    assert_eq!(devices.len(), 1);
    assert_eq!(devices[0].device_type, None);
    assert!(devices[0].hardware);
}

#[test]
fn nvidia_smi_list_edge_cases() {
    let output = "GPU 0: NVIDIA A100 (UUID: GPU-1)\nno colon here\nGPU 1:   (UUID: GPU-2)\nGPU 2: Tesla T4\n";
    assert_eq!(parse_nvidia_smi_list(output), vec!["NVIDIA A100", "Tesla T4"]);
    assert!(parse_nvidia_smi_list("").is_empty());
}

#[test]
fn lspci_lines_are_filtered() {
    let output = "00:02.0 VGA compatible controller [0300]: Intel Corporation UHD [8086:9bc4]\n\tKernel driver in use: i915\n01:00.0 3D controller [0302]: NVIDIA Corporation TU117M [10de:1f9d]  \n02:00.0 Display controller: Matrox Electronics G200\n03:00.0 Ethernet controller: Intel Corporation I219\n";
    let devices = parse_lspci_output(output);
    assert_eq!(devices.len(), 2);
    assert_eq!(devices[0].vendor, "intel");
    assert_eq!(devices[0].source, "lspci");
    assert_eq!(devices[1].vendor, "nvidia");
    assert_eq!(
        devices[1].model,
        "01:00.0 3D controller [0302]: NVIDIA Corporation TU117M [10de:1f9d]"
    );
}

#[test]
fn lspci_needs_success() {
    let line = "00:02.0 VGA compatible controller: Intel Corporation UHD\n";
    assert_eq!(lspci_devices_from(finished(&["lspci"], 0, line)).len(), 1);
    assert!(lspci_devices_from(finished(&["lspci"], 1, line)).is_empty());
    assert!(lspci_devices_from(Err(CommandError::Empty)).is_empty());
    let runner = ScriptedRunner::new(vec![finished(&["lspci", "-nnk"], 0, line)]);
    assert_eq!(lspci_devices(&runner).len(), 1);
    assert_eq!(runner.calls.borrow()[0], strings(&["lspci", "-nnk"]));
}

#[test]
fn nvidia_devices_from_smi() {
    let out = "GPU 0: NVIDIA T1200 Laptop GPU (UUID: GPU-x)\n";
    let devices = nvidia_devices_from(finished(&["nvidia-smi", "-L"], 0, out));
    assert_eq!(devices.len(), 1);
    assert_eq!(devices[0].vendor, "nvidia");
    assert_eq!(devices[0].model, "NVIDIA T1200 Laptop GPU");
    assert_eq!(devices[0].source, "nvidia-smi");
    assert!(nvidia_devices_from(finished(&["nvidia-smi", "-L"], 9, out)).is_empty());
    let runner = ScriptedRunner::new(vec![finished(&["x"], 0, out)]);
    assert!(nvidia_devices(&runner, None).is_empty());
    assert!(runner.calls.borrow().is_empty());
    assert_eq!(nvidia_devices(&runner, Some("/usr/bin/nvidia-smi")).len(), 1);
    assert_eq!(runner.calls.borrow()[0], strings(&["/usr/bin/nvidia-smi", "-L"]));
}

#[test]
fn vulkan_devices_ignore_exit_code() {
    let out = "GPU0:\n deviceName = Radeon\n";
    assert_eq!(vulkan_devices_from(finished(&["vulkaninfo"], 3, out)).len(), 1);
    assert!(vulkan_devices_from(Err(CommandError::Output("broken".into()))).is_empty());
}

#[test]
fn os_release_distribution() {
    assert_eq!(
        distribution("NAME=\"Ubuntu\"\nID_LIKE=debian\nID=\"ubuntu\"\nID=other\n").as_deref(),
        Some("ubuntu")
    );
    assert_eq!(distribution("ID=fedora").as_deref(), Some("fedora"));
    assert_eq!(distribution(" ID=arch\n"), None);
    assert_eq!(distribution(""), None);
}

#[test]
fn nvidia_smi_locations() {
    assert_eq!(nvidia_smi_path(true, true, true).as_deref(), Some("/usr/bin/nvidia-smi"));
    assert_eq!(
        nvidia_smi_path(false, true, true).as_deref(),
        Some("/usr/lib/wsl/lib/nvidia-smi")
    );
    assert_eq!(nvidia_smi_path(false, false, true).as_deref(), Some("nvidia-smi"));
    assert_eq!(nvidia_smi_path(false, false, false), None);
}

fn entry(name: &str, vendor_id: &str, modalias: &str) -> DrmEntry {
    DrmEntry {
        name: name.to_string(),
        vendor_id: vendor_id.to_string(),
        modalias: modalias.to_string(),
        driver: Some("drv".to_string()),
    }
}

#[test]
fn sysfs_cards_only() {
    let entries = vec![
        entry("card0", "0x10de\n", ""),
        entry("card0-HDMI-A-1", "0x10de\n", ""),
        entry("renderD128", "0x8086\n", ""),
        entry("card1", "0x1234\n", "pci:Intel Corporation"),
        entry("card2", "", ""),
    ];
    let devices = sysfs_devices(&entries);
    assert_eq!(devices.len(), 3);
    assert_eq!(devices[0].vendor, "nvidia");
    assert_eq!(devices[0].pci_id.as_deref(), Some("0x10de"));
    assert_eq!(devices[0].model, "card0");
    assert_eq!(devices[0].driver.as_deref(), Some("drv"));
    assert_eq!(devices[0].source, "sysfs");
    assert_eq!(devices[1].vendor, "intel");
    assert_eq!(devices[2].vendor, "unknown");
    assert_eq!(devices[2].pci_id, None);
}

#[test]
fn command_lists_keep_their_order() {
    let known = known_command_names();
    assert_eq!(known.len(), 9);
    assert_eq!(known[0], "lspci");
    let found = strings(&["apk", "lspci", "other"]);
    assert_eq!(filter_found(&known, &found), strings(&["lspci", "apk"]));
    assert!(is_found(&found, "apk"));
    assert!(!is_found(&found, "dnf"));
}

fn host(entries: Vec<DrmEntry>, on_path: &[&str]) -> HostProbe {
    HostProbe {
        proc_version: "Linux version 6.1".to_string(),
        dxg_exists: false,
        drm_entries: entries,
        nvidia_smi_at_usr_bin: false,
        nvidia_smi_at_wsl_lib: false,
        commands_on_path: strings(on_path),
        os_release: "ID=debian\n".to_string(),
    }
}

#[test]
fn diagnose_prefers_sysfs() {
    let runner = ScriptedRunner::new(Vec::new());
    let r = diagnose(&runner, &host(vec![entry("card0", "0x1002", "")], &["apt-get"]));
    assert!(runner.calls.borrow().is_empty());
    assert_eq!(r.platform, "linux");
    assert_eq!(r.distribution.as_deref(), Some("debian"));
    assert_eq!(r.devices.len(), 1);
    assert_eq!(r.devices[0].vendor, "amd");
    assert!(r.vulkan_devices.is_empty());
    assert!(!r.nvidia_smi);
    assert_eq!(r.package_managers, strings(&["apt-get"]));
    assert_eq!(r.available_commands, strings(&["apt-get"]));
}

#[test]
fn diagnose_falls_back_to_commands() {
    let runner = ScriptedRunner::new(vec![
        finished(&["lspci"], 0, "no display here\n"),
        finished(&["nvidia-smi"], 0, "GPU 0: Tesla T4 (UUID: x)\n"),
        finished(&["vulkaninfo"], 0, "GPU0:\n deviceName = Tesla T4\n"),
    ]);
    let r = diagnose(&runner, &host(Vec::new(), &["vulkaninfo", "nvidia-smi", "dnf"]));
    let calls = runner.calls.borrow();
    assert_eq!(calls.len(), 3);
    assert_eq!(calls[0], strings(&["lspci", "-nnk"]));
    assert_eq!(calls[1], strings(&["nvidia-smi", "-L"]));
    assert_eq!(calls[2], strings(&["vulkaninfo", "--summary"]));
    assert!(r.nvidia_smi);
    assert_eq!(r.devices.len(), 1);
    assert_eq!(r.devices[0].source, "nvidia-smi");
    assert_eq!(r.vulkan_devices.len(), 1);
    assert!(hardware_vulkan_present(&r));
    assert_eq!(r.package_managers, strings(&["dnf"]));
    assert_eq!(r.available_commands, strings(&["vulkaninfo", "nvidia-smi", "dnf"]));
}

#[test]
fn hardware_vulkan_check() {
    let mut r = report("linux", "amd", &[]);
    assert!(!hardware_vulkan_present(&r));
    r.vulkan_devices.push(VulkanDevice {
        name: "llvmpipe".into(),
        device_type: None,
        driver: None,
        hardware: false,
    });
    assert!(!hardware_vulkan_present(&r));
    r.vulkan_devices.push(VulkanDevice {
        name: "Radeon".into(),
        device_type: None,
        driver: None,
        hardware: true,
    });
    assert!(hardware_vulkan_present(&r));
}

#[test]
fn plan_statuses() {
    let mut none = report("linux", "amd", &["apt-get"]);
    none.devices.clear();
    assert_eq!(plan_repair(&none).status, "NO_DEVICE");
    assert_eq!(plan_repair(&report("wsl", "nvidia", &["apt-get"])).status, "WSL_WINDOWS_DRIVER_REQUIRED");
    assert_eq!(plan_repair(&report("linux", "amd", &[])).status, "PACKAGE_PROVIDER_UNAVAILABLE");
    let p = plan_repair(&report("linux", "nvidia", &["apt-get"]));
    assert_eq!(p.status, "DRIVER_PACKAGE_UNAVAILABLE");
    assert!(p.commands.is_empty());
    assert_eq!(plan_repair(&report("linux", "intel", &["brew"])).status, "DRIVER_PACKAGE_UNAVAILABLE");
}

#[test]
fn plan_install_commands() {
    let p = plan_repair(&report("linux", "amd", &["apt-get", "dnf"]));
    assert_eq!(p.status, "READY");
    assert_eq!(p.message, "Install Vulkan user-space packages for amd.");
    assert_eq!(p.commands.len(), 1);
    assert_eq!(
        p.commands[0].argv,
        strings(&["sudo", "apt-get", "install", "-y", "mesa-vulkan-drivers", "vulkan-tools"])
    );
    assert_eq!(p.commands[0].reason, "Use packages from the detected distribution.");
    assert!(p.commands[0].privileged);
    let p = plan_repair(&report("linux", "intel", &["pacman"]));
    assert_eq!(p.commands[0].argv, strings(&["sudo", "pacman", "install", "-y", "vulkan-tools", "vulkan-intel"]));
    let p = plan_repair(&report("linux", "amd", &["pacman"]));
    assert_eq!(p.commands[0].argv, strings(&["sudo", "pacman", "install", "-y", "vulkan-tools", "vulkan-radeon"]));
    let p = plan_repair(&report("linux", "intel", &["zypper"]));
    assert_eq!(p.commands[0].argv, strings(&["sudo", "zypper", "install", "-y", "Mesa-vulkan-drivers", "vulkan-tools"]));
    let p = plan_repair(&report("linux", "amd", &["apk"]));
    assert_eq!(p.commands[0].argv, strings(&["sudo", "apk", "install", "-y", "mesa-vulkan-lavapipe", "vulkan-tools"]));
}

#[test]
fn plan_ubuntu_drivers_for_nvidia() {
    let mut r = report("linux", "nvidia", &["apt-get"]);
    r.distribution = Some("ubuntu".into());
    r.available_commands.push("ubuntu-drivers".into());
    let p = plan_repair(&r);
    assert_eq!(p.status, "READY");
    assert_eq!(p.message, "Use the distribution's signed NVIDIA driver selector.");
    assert_eq!(p.commands[0].reason, p.message);
    assert_eq!(p.commands[0].argv, strings(&["sudo", "ubuntu-drivers", "install"]));
}

#[test]
fn every_ready_plan_starts_with_sudo() {
    for platform in ["linux", "wsl", ""] {
        for vendor in ["amd", "intel", "nvidia", "unknown"] {
            for manager in ["apt-get", "dnf", "pacman", "zypper", "apk", "brew"] {
                let p = plan_repair(&report(platform, vendor, &[manager]));
                assert_eq!(p.status == "READY", !p.commands.is_empty());
                assert!(p.commands.len() <= 1);
                for c in &p.commands {
                    assert_eq!(c.argv[0], "sudo");
                    assert!(c.privileged);
                }
            }
        }
    }
}

#[test]
fn wsl_plan_is_never_applied() {
    let mut r = report("wsl", "nvidia", &["apt-get"]);
    r.nvidia_smi = true;
    let plan = plan_repair(&r);
    let runner = ScriptedRunner::new(Vec::new());
    let result = apply_plan(&plan, "YES", &runner);
    assert!(!result.applied);
    assert_eq!(result.message, plan.message);
    assert!(result.commands.is_empty());
    assert!(runner.calls.borrow().is_empty());
}

#[test]
fn apply_refusals() {
    let runner = ScriptedRunner::new(Vec::new());
    let plan = ready_plan(&[&["sudo", "true"]]);
    let r = apply_plan(&plan, "YES ", &runner);
    assert!(!r.applied);
    assert_eq!(r.message, "Confirmation was not exactly YES.");
    let mut not_ready = plan.clone();
    not_ready.status = "NO_DEVICE".into();
    not_ready.message = "nothing to do".into();
    let r = apply_plan(&not_ready, "YES", &runner);
    assert_eq!(r.message, "nothing to do");
    let empty = ready_plan(&[]);
    assert!(!apply_plan(&empty, "YES", &runner).applied);
    assert!(runner.calls.borrow().is_empty());
}

#[test]
fn apply_stops_at_first_failure() {
    let plan = ready_plan(&[&["a"], &["b"], &["c"]]);
    let runner = ScriptedRunner::new(vec![
        finished(&["a"], 0, "ok"),
        finished(&["b"], 2, "bad"),
        finished(&["c"], 0, "ok"),
    ]);
    let r = apply_plan(&plan, "YES", &runner);
    assert!(!r.applied);
    assert_eq!(r.message, "A proposed command failed.");
    assert_eq!(r.commands.len(), 2);
    assert_eq!(r.commands[1].return_code, 2);
    assert_eq!(r.commands[1].stdout, "bad");
    assert_eq!(runner.calls.borrow().len(), 2);
    assert_eq!(runner.calls.borrow()[1], strings(&["b"]));
}

#[test]
fn apply_reports_runner_errors() {
    let plan = ready_plan(&[&["a"], &["b"]]);
    let runner = ScriptedRunner::new(vec![
        finished(&["a"], 0, ""),
        Err(CommandError::Start("No such file or directory".into())),
    ]);
    let r = apply_plan(&plan, "YES", &runner);
    assert!(!r.applied);
    assert_eq!(r.message, "command failed to start: No such file or directory");
    assert_eq!(r.commands.len(), 1);
}

#[test]
fn apply_runs_every_command() {
    let plan = ready_plan(&[&["a"], &["b"]]);
    let runner = ScriptedRunner::new(vec![finished(&["a"], 0, "1"), finished(&["b"], 0, "2")]);
    let r = apply_plan(&plan, "YES", &runner);
    assert!(r.applied);
    assert_eq!(r.message, "All approved commands completed.");
    assert_eq!(r.commands.len(), 2);
    assert_eq!(r.commands[0].argv, strings(&["a"]));
    assert_eq!(r.commands[1].stdout, "2");
}

#[test]
fn outcome_recording() {
    match record_outcome(Vec::new(), finished(&["a"], 0, "x")) {
        Progress::Continue(v) => assert_eq!(v.len(), 1),
        Progress::Finished(_) => panic!("a success continues"),
    }
    match record_outcome(Vec::new(), finished(&["a"], 1, "x")) {
        Progress::Finished(a) => {
            assert!(!a.applied);
            assert_eq!(a.commands.len(), 1);
        }
        Progress::Continue(_) => panic!("a failure finishes"),
    }
    match record_outcome(Vec::new(), Err(CommandError::Empty)) {
        Progress::Finished(a) => {
            assert_eq!(a.message, "command is empty");
            assert!(a.commands.is_empty());
        }
        Progress::Continue(_) => panic!("an error finishes"),
    }
}

#[test]
fn error_texts() {
    assert_eq!(CommandError::Empty.to_string(), "command is empty");
    assert_eq!(CommandError::Start("e1".into()).to_string(), "command failed to start: e1");
    assert_eq!(CommandError::Output("e2".into()).to_string(), "command output failed: e2");
}

#[test]
fn argv_validation() {
    assert!(matches!(validate_argv(&[]), Err(CommandError::Empty)));
    assert!(matches!(validate_argv(&strings(&["ls", ""])), Err(CommandError::Empty)));
    assert!(validate_argv(&strings(&["ls", "-l"])).is_ok());
}

#[test]
fn result_conversion_keeps_fields() {
    let c = CommandResult {
        argv: strings(&["x"]),
        return_code: 7,
        stdout: "o".into(),
        stderr: "e".into(),
    };
    let j = CommandResultJson::from(c);
    assert_eq!(j.argv, strings(&["x"]));
    assert_eq!(j.return_code, 7);
    assert_eq!(j.stdout, "o");
    assert_eq!(j.stderr, "e");
}

#[test]
fn trimming_text() {
    assert_eq!(trim_str("  YES\r\n"), "YES");
    assert_eq!(trim_str("\u{3000}a b\u{a0}"), "a b");
    assert_eq!(trim_str(" \t "), "");
}

#[test]
fn decisions_on_lowercase_text() {
    assert_eq!(platform_from_lowercase("linux microsoft wsl2", false, false), "wsl");
    assert_eq!(platform_from_lowercase("Linux MICROSOFT", false, false), "linux");
    assert_eq!(platform_from_lowercase("", true, false), "unknown");
    assert_eq!(platform_from_lowercase("", true, true), "wsl");
    assert_eq!(vendor_from_lowercase("nvidia corporation"), "nvidia");
    assert_eq!(vendor_from_lowercase("NVIDIA Corporation"), "unknown");
    assert_eq!(vendor_from_lowercase("advanced micro devices"), "amd");
    assert_eq!(vendor_from_lowercase("amd/ati"), "amd");
    assert_eq!(vendor_from_lowercase("intel uhd"), "intel");
    assert!(software_from_lowercase("llvmpipe (llvm 15.0.7, 256 bits)"));
    assert!(software_from_lowercase("google swiftshader"));
    assert!(!software_from_lowercase("LLVMPIPE"));
    assert!(!software_from_lowercase("radeon rx 6600"));
}

#[test]
fn apply_step_machine() {
    let plan = ready_plan(&[&["a"], &["b"]]);
    assert!(matches!(start_apply(&plan, "yes"), ApplyStep::Finished(r) if !r.applied));
    let state = match start_apply(&plan, "YES") {
        ApplyStep::Ask { index, timeout_secs, state } => {
            assert_eq!(index, 0);
            assert_eq!(timeout_secs, 900);
            assert_eq!(state.next, 0);
            state
        }
        ApplyStep::Finished(_) => panic!("a confirmed plan asks for its first command"),
    };
    let state = match continue_apply(&plan, state, finished(&["a"], 0, "")) {
        ApplyStep::Ask { index, timeout_secs, state } => {
            assert_eq!(index, 1);
            assert_eq!(timeout_secs, 900);
            assert_eq!(state.done.len(), 1);
            state
        }
        ApplyStep::Finished(_) => panic!("a success asks for the next command"),
    };
    match continue_apply(&plan, state, finished(&["b"], 0, "")) {
        ApplyStep::Finished(r) => {
            assert!(r.applied);
            assert_eq!(r.commands.len(), 2);
        }
        ApplyStep::Ask { .. } => panic!("the last success finishes"),
    }
    let fresh = ApplyState { next: 0, done: Vec::new() };
    match continue_apply(&plan, fresh, finished(&["a"], 5, "")) {
        ApplyStep::Finished(r) => {
            assert!(!r.applied);
            assert_eq!(r.message, "A proposed command failed.");
        }
        ApplyStep::Ask { .. } => panic!("a failure finishes"),
    }
}

#[test]
fn waiting_on_a_child() {
    assert!(matches!(wait_step(Some(Some(3)), true), WaitStep::Exited(3)));
    assert!(matches!(wait_step(Some(None), false), WaitStep::Exited(128)));
    assert!(matches!(wait_step(None, true), WaitStep::TimedOut(124)));
    assert!(matches!(wait_step(None, false), WaitStep::KeepWaiting));
}
