//! Read-only Linux and WSL hardware probes: what the library concludes from
//! kernel strings, sysfs entries and the output of `lspci`, `nvidia-smi` and
//! `vulkaninfo`.
use vstd::prelude::*;

use crate::commands::{
    answers_uniquely, outcome_view, CommandError, CommandErrorView, CommandResult, CommandResultView,
    CommandRunner,
};
use crate::models::{
    gpu_views, vulkan_views, GpuDevice, GpuDeviceView, SystemReport, SystemReportView,
    VulkanDevice, VulkanDeviceView,
};
use crate::text::{
    before_first, before_first_chars, char_views, lemma_trim_shape, strips, chars_eq_str, chars_of, contains, contains_str, is_white,
    is_white_char, lines, matches_here, lowercase, lowercase_string, opt_view, split_lines, split_once,
    split_once_chars, starts_with, starts_with_str, str_eq, string_views, sub_chars,
    to_string, trim, trim_by, trim_chars, Strip,
};

verus! {

// ---------------------------------------------------------------------------
// Platform and vendor
// ---------------------------------------------------------------------------

/// The kernel environment, from the lowercase form of `/proc/version`,
/// whether that file was empty, and whether `/dev/dxg` exists.
pub open spec fn platform_of(lowered_version: Seq<char>, version_is_empty: bool, dxg_exists: bool) -> Seq<char> {
    if dxg_exists || contains(lowered_version, "microsoft"@) {
        "wsl"@
    } else if version_is_empty {
        "unknown"@
    } else {
        "linux"@
    }
}

/// The kernel environment named by `/proc/version` and the presence of
/// `/dev/dxg`.
pub open spec fn platform_name(proc_version: Seq<char>, dxg_exists: bool) -> Seq<char> {
    platform_of(lowercase(proc_version), proc_version.len() == 0, dxg_exists)
}

/// Classify the kernel environment from the lowercase form of
/// `/proc/version`.
pub fn platform_from_lowercase(lowered_version: &str, version_is_empty: bool, dxg_exists: bool) -> (r: String)
    ensures
        r@ == platform_of(lowered_version@, version_is_empty, dxg_exists),
{
    if dxg_exists || contains_str(&chars_of(lowered_version), "microsoft") {
        String::from_str("wsl")
    } else if version_is_empty {
        String::from_str("unknown")
    } else {
        String::from_str("linux")
    }
}

/// Classify the current Linux kernel environment.
pub fn detect_platform(proc_version: &str, dxg_exists: bool) -> (r: String)
    ensures
        r@ == platform_name(proc_version@, dxg_exists),
{
    let lowered = lowercase_string(proc_version);
    platform_from_lowercase(lowered.as_str(), proc_version.is_empty(), dxg_exists)
}

/// The GPU vendor that a lowercase kernel or PCI description names.
pub open spec fn vendor_in_lowercase(value: Seq<char>) -> Seq<char> {
    if contains(value, "nvidia"@) {
        "nvidia"@
    } else if contains(value, "advanced micro"@) || contains(value, "amd/ati"@) || contains(
        value,
        " amd "@,
    ) {
        "amd"@
    } else if contains(value, "intel"@) {
        "intel"@
    } else {
        "unknown"@
    }
}

/// The GPU vendor that a kernel or PCI description names.
pub open spec fn vendor_name(description: Seq<char>) -> Seq<char> {
    vendor_in_lowercase(lowercase(description))
}

/// Identify a GPU vendor from a lowercase kernel or PCI description.
pub fn vendor_from_lowercase(value: &str) -> (r: String)
    ensures
        r@ == vendor_in_lowercase(value@),
{
    let value = chars_of(value);
    if contains_str(&value, "nvidia") {
        String::from_str("nvidia")
    } else if contains_str(&value, "advanced micro") || contains_str(&value, "amd/ati")
        || contains_str(&value, " amd ") {
        String::from_str("amd")
    } else if contains_str(&value, "intel") {
        String::from_str("intel")
    } else {
        String::from_str("unknown")
    }
}

/// Identify a GPU vendor from a kernel or PCI description.
pub fn detect_vendor(description: &str) -> (r: String)
    ensures
        r@ == vendor_name(description@),
{
    let lowered = lowercase_string(description);
    vendor_from_lowercase(lowered.as_str())
}

// ---------------------------------------------------------------------------
// vulkaninfo --summary
// ---------------------------------------------------------------------------

/// Where a scan of `vulkaninfo --summary` stands: the devices completed so
/// far and the fields of the device being read.
pub struct VulkanScan {
    pub devices: Seq<VulkanDeviceView>,
    pub name: Option<Seq<char>>,
    pub device_type: Option<Seq<char>>,
    pub driver: Option<Seq<char>>,
}

/// A device name that belongs to a software rasteriser.
pub open spec fn is_software_name(name: Seq<char>) -> bool {
    is_software_lowercase(lowercase(name))
}

/// A lowercase device name that belongs to a software rasteriser.
pub open spec fn is_software_lowercase(l: Seq<char>) -> bool {
    contains(l, "llvmpipe"@) || contains(l, "lavapipe"@) || contains(l, "softpipe"@) || contains(
        l,
        "swiftshader"@,
    )
}

/// Whether a lowercase device name belongs to a software rasteriser.
pub fn software_from_lowercase(lowered_name: &str) -> (r: bool)
    ensures
        r == is_software_lowercase(lowered_name@),
{
    let l = chars_of(lowered_name);
    contains_str(&l, "llvmpipe") || contains_str(&l, "lavapipe") || contains_str(&l, "softpipe")
        || contains_str(&l, "swiftshader")
}

/// A device type that names the CPU.
pub open spec fn is_cpu_type(t: Option<Seq<char>>) -> bool {
    t == Some("PHYSICAL_DEVICE_TYPE_CPU"@) || t == Some("CPU"@)
}

/// Close the device being read, if it has a name.
pub open spec fn finish_device(st: VulkanScan) -> VulkanScan {
    match st.name {
        Some(n) => VulkanScan {
            devices: st.devices.push(
                VulkanDeviceView {
                    name: n,
                    device_type: st.device_type,
                    driver: st.driver,
                    hardware: !is_software_name(n) && !is_cpu_type(st.device_type),
                },
            ),
            name: None,
            device_type: None,
            driver: None,
        },
        None => st,
    }
}

/// A line that opens a new device section, such as `GPU0:`.
pub open spec fn is_section_header(line: Seq<char>) -> bool {
    starts_with(line, "GPU"@) && line.len() > 0 && line.last() == ':'
}

pub open spec fn scan_line(st: VulkanScan, line: Seq<char>) -> VulkanScan {
    if is_section_header(line) {
        finish_device(st)
    } else {
        match split_once(line, '=') {
            Some((k, v)) => {
                let key = trim(k);
                let value = trim(v);
                if key == "deviceName"@ {
                    VulkanScan {
                        devices: st.devices,
                        name: Some(value),
                        device_type: st.device_type,
                        driver: st.driver,
                    }
                } else if key == "deviceType"@ {
                    VulkanScan {
                        devices: st.devices,
                        name: st.name,
                        device_type: Some(value),
                        driver: st.driver,
                    }
                } else if key == "driverName"@ {
                    VulkanScan {
                        devices: st.devices,
                        name: st.name,
                        device_type: st.device_type,
                        driver: Some(value),
                    }
                } else {
                    st
                }
            },
            None => st,
        }
    }
}

pub open spec fn scan_lines(ls: Seq<Seq<char>>) -> VulkanScan
    decreases ls.len(),
{
    if ls.len() == 0 {
        VulkanScan { devices: seq![], name: None, device_type: None, driver: None }
    } else {
        scan_line(scan_lines(ls.drop_last()), ls.last())
    }
}

/// The devices that `vulkaninfo --summary` printed.
pub open spec fn vulkan_summary(output: Seq<char>) -> Seq<VulkanDeviceView> {
    finish_device(scan_lines(lines(output))).devices
}

struct Scan {
    devices: Vec<VulkanDevice>,
    name: Option<String>,
    device_type: Option<String>,
    driver: Option<String>,
}

impl View for Scan {
    type V = VulkanScan;

    closed spec fn view(&self) -> VulkanScan {
        VulkanScan {
            devices: vulkan_views(self.devices@),
            name: opt_view(self.name),
            device_type: opt_view(self.device_type),
            driver: opt_view(self.driver),
        }
    }
}

fn software_name(name: &String) -> (r: bool)
    ensures
        r == is_software_name(name@),
{
    let lowered = lowercase_string(name.as_str());
    software_from_lowercase(lowered.as_str())
}

fn cpu_type(t: &Option<String>) -> (r: bool)
    ensures
        r == is_cpu_type(opt_view(*t)),
{
    match t {
        Some(s) => str_eq(s.as_str(), "PHYSICAL_DEVICE_TYPE_CPU") || str_eq(s.as_str(), "CPU"),
        None => false,
    }
}

fn finish(st: Scan) -> (r: Scan)
    ensures
        r@ == finish_device(st@),
{
    let Scan { mut devices, name, device_type, driver } = st;
    match name {
        Some(n) => {
            let hardware = !software_name(&n) && !cpu_type(&device_type);
            let ghost before = vulkan_views(devices@);
            let d = VulkanDevice { name: n, device_type, driver, hardware };
            devices.push(d);
            assert(vulkan_views(devices@) =~= before.push(d@));
            Scan { devices, name: None, device_type: None, driver: None }
        },
        None => Scan { devices, name: None, device_type, driver },
    }
}

fn scan_one(st: Scan, line: &Vec<char>) -> (r: Scan)
    ensures
        r@ == scan_line(st@, line@),
{
    let n = line.len();
    if starts_with_str(line, "GPU") && n > 0 && line[n - 1] == ':' {
        return finish(st);
    }
    match split_once_chars(line, '=') {
        Some((k, v)) => {
            let tv = trim_chars(&v, Strip::Whitespace);
            let value = to_string(&tv);
            let key = trim_chars(&k, Strip::Whitespace);
            if chars_eq_str(&key, "deviceName") {
                Scan { name: Some(value), ..st }
            } else if chars_eq_str(&key, "deviceType") {
                Scan { device_type: Some(value), ..st }
            } else if chars_eq_str(&key, "driverName") {
                Scan { driver: Some(value), ..st }
            } else {
                st
            }
        },
        None => st,
    }
}

/// Parse `vulkaninfo --summary` without treating software Vulkan as hardware.
pub fn parse_vulkan_summary(output: &str) -> (r: Vec<VulkanDevice>)
    ensures
        vulkan_views(r@) == vulkan_summary(output@),
{
    let cs = chars_of(output);
    let ls = split_lines(&cs);
    let ghost all = char_views(ls@);
    let mut st = Scan { devices: Vec::new(), name: None, device_type: None, driver: None };
    let mut i: usize = 0;
    assert(vulkan_views(st.devices@) =~= Seq::<VulkanDeviceView>::empty());
    assert(all.take(0) =~= Seq::<Seq<char>>::empty());
    while i < ls.len()
        invariant
            i <= ls@.len(),
            all == char_views(ls@),
            all == lines(cs@),
            cs@ == output@,
            st@ == scan_lines(all.take(i as int)),
        decreases ls@.len() - i,
    {
        assert(all.take(i + 1).drop_last() =~= all.take(i as int));
        assert(all.take(i + 1).last() == ls@[i as int]@);
        st = scan_one(st, &ls[i]);
        i += 1;
    }
    assert(all.take(i as int) =~= all);
    let st = finish(st);
    st.devices
}

// ---------------------------------------------------------------------------
// nvidia-smi -L
// ---------------------------------------------------------------------------

/// The model name on one line of `nvidia-smi -L`, if it has one.
pub open spec fn nvidia_model(line: Seq<char>) -> Option<Seq<char>> {
    match split_once(line, ':') {
        Some((_key, value)) => {
            let m = trim(before_first(value, " (UUID"@));
            if m.len() > 0 {
                Some(m)
            } else {
                None
            }
        },
        None => None,
    }
}

pub open spec fn nvidia_models(ls: Seq<Seq<char>>) -> Seq<Seq<char>>
    decreases ls.len(),
{
    if ls.len() == 0 {
        seq![]
    } else {
        let r = nvidia_models(ls.drop_last());
        match nvidia_model(ls.last()) {
            Some(m) => r.push(m),
            None => r,
        }
    }
}

/// The model names that `nvidia-smi -L` printed.
pub open spec fn nvidia_smi_models(output: Seq<char>) -> Seq<Seq<char>> {
    nvidia_models(lines(output))
}

/// Parse the model names printed by `nvidia-smi -L`.
pub fn parse_nvidia_smi_list(output: &str) -> (r: Vec<String>)
    ensures
        string_views(r@) == nvidia_smi_models(output@),
{
    let cs = chars_of(output);
    let ls = split_lines(&cs);
    let ghost all = char_views(ls@);
    let mut r: Vec<String> = Vec::new();
    let mut i: usize = 0;
    assert(all.take(0) =~= Seq::<Seq<char>>::empty());
    assert(string_views(r@) =~= Seq::<Seq<char>>::empty());
    while i < ls.len()
        invariant
            i <= ls@.len(),
            all == char_views(ls@),
            all == lines(cs@),
            cs@ == output@,
            string_views(r@) == nvidia_models(all.take(i as int)),
        decreases ls@.len() - i,
    {
        assert(all.take(i + 1).drop_last() =~= all.take(i as int));
        assert(all.take(i + 1).last() == ls@[i as int]@);
        let ghost before = string_views(r@);
        match split_once_chars(&ls[i], ':') {
            Some((_k, v)) => {
                let head = before_first_chars(&v, " (UUID");
                let m = trim_chars(&head, Strip::Whitespace);
                if m.len() > 0 {
                    let s = to_string(&m);
                    r.push(s);
                    assert(string_views(r@) =~= before.push(m@));
                }
            },
            None => {},
        }
        i += 1;
    }
    assert(all.take(i as int) =~= all);
    r
}


// ---------------------------------------------------------------------------
// lspci -nnk
// ---------------------------------------------------------------------------

/// Whether a line of `lspci` names a display controller.
pub open spec fn is_display_class(line: Seq<char>) -> bool {
    contains(line, "VGA compatible controller"@) || contains(line, "3D controller"@) || contains(
        line,
        "Display controller"@,
    )
}

/// The GPU that one line of `lspci -nnk` describes. Indented lines carry
/// details of the device above and are skipped; so are devices of an
/// unknown vendor.
pub open spec fn lspci_device(line: Seq<char>) -> Option<GpuDeviceView> {
    if line.len() > 0 && is_white(line[0]) {
        None
    } else if !is_display_class(line) {
        None
    } else if vendor_name(line) == "unknown"@ {
        None
    } else {
        Some(
            GpuDeviceView {
                vendor: vendor_name(line),
                model: trim(line),
                pci_id: None,
                driver: None,
                source: "lspci"@,
            },
        )
    }
}

pub open spec fn lspci_listing(ls: Seq<Seq<char>>) -> Seq<GpuDeviceView>
    decreases ls.len(),
{
    if ls.len() == 0 {
        seq![]
    } else {
        let r = lspci_listing(ls.drop_last());
        match lspci_device(ls.last()) {
            Some(d) => r.push(d),
            None => r,
        }
    }
}

/// The GPUs found by a run of `lspci -nnk`: none unless it exited with 0.
pub open spec fn lspci_report(out: Result<CommandResultView, CommandErrorView>) -> Seq<
    GpuDeviceView,
> {
    match out {
        Ok(r) => if r.return_code != 0 {
            seq![]
        } else {
            lspci_listing(lines(r.stdout))
        },
        Err(_) => seq![],
    }
}

/// The GPUs listed in the output of `lspci -nnk`.
pub fn parse_lspci_output(output: &str) -> (r: Vec<GpuDevice>)
    ensures
        gpu_views(r@) == lspci_listing(lines(output@)),
{
    let cs = chars_of(output);
    let ls = split_lines(&cs);
    let ghost all = char_views(ls@);
    let mut r: Vec<GpuDevice> = Vec::new();
    let mut i: usize = 0;
    assert(all.take(0) =~= Seq::<Seq<char>>::empty());
    assert(gpu_views(r@) =~= Seq::<GpuDeviceView>::empty());
    while i < ls.len()
        invariant
            i <= ls@.len(),
            all == char_views(ls@),
            all == lines(cs@),
            cs@ == output@,
            gpu_views(r@) == lspci_listing(all.take(i as int)),
        decreases ls@.len() - i,
    {
        assert(all.take(i + 1).drop_last() =~= all.take(i as int));
        assert(all.take(i + 1).last() == ls@[i as int]@);
        let ghost before = gpu_views(r@);
        let line = &ls[i];
        let indented = line.len() > 0 && is_white_char(line[0]);
        if !indented && (contains_str(line, "VGA compatible controller") || contains_str(
            line,
            "3D controller",
        ) || contains_str(line, "Display controller")) {
            let text = to_string(line);
            let vendor = detect_vendor(text.as_str());
            if !str_eq(vendor.as_str(), "unknown") {
                let t = trim_chars(line, Strip::Whitespace);
                let d = GpuDevice {
                    vendor,
                    model: to_string(&t),
                    pci_id: None,
                    driver: None,
                    source: String::from_str("lspci"),
                };
                r.push(d);
                assert(gpu_views(r@) =~= before.push(d@));
            }
        }
        i += 1;
    }
    assert(all.take(i as int) =~= all);
    r
}

/// The GPUs that a run of `lspci -nnk` reported.
pub fn lspci_devices_from(outcome: Result<CommandResult, CommandError>) -> (r: Vec<GpuDevice>)
    ensures
        gpu_views(r@) == lspci_report(outcome_view(outcome)),
{
    match outcome {
        Ok(result) => {
            if result.return_code != 0 {
                let r: Vec<GpuDevice> = Vec::new();
                assert(gpu_views(r@) =~= Seq::<GpuDeviceView>::empty());
                r
            } else {
                parse_lspci_output(result.stdout.as_str())
            }
        },
        Err(_) => {
            let r: Vec<GpuDevice> = Vec::new();
            assert(gpu_views(r@) =~= Seq::<GpuDeviceView>::empty());
            r
        },
    }
}

/// Two words as an argument vector.
fn argv2(a: &str, b: &str) -> (r: Vec<String>)
    ensures
        string_views(r@) == seq![a@, b@],
{
    let mut r: Vec<String> = Vec::new();
    r.push(String::from_str(a));
    r.push(String::from_str(b));
    assert(string_views(r@) =~= seq![a@, b@]);
    r
}

/// List the display controllers with `lspci -nnk`, within ten seconds.
pub fn lspci_devices<R: CommandRunner>(runner: &R) -> (r: Vec<GpuDevice>)
    requires
        runner.may_run(seq!["lspci"@, "-nnk"@]),
    ensures
        exists|o: Result<CommandResultView, CommandErrorView>|
            runner.answers(seq!["lspci"@, "-nnk"@], o) && gpu_views(r@) == #[trigger] lspci_report(o),
{
    let argv = argv2("lspci", "-nnk");
    let outcome = runner.run(argv.as_slice(), std::time::Duration::from_secs(10));
    let ghost o = outcome_view(outcome);
    let r = lspci_devices_from(outcome);
    assert(gpu_views(r@) == lspci_report(o));
    r
}

// ---------------------------------------------------------------------------
// nvidia-smi devices
// ---------------------------------------------------------------------------

/// The device record for an NVIDIA model name.
pub open spec fn nvidia_gpu(model: Seq<char>) -> GpuDeviceView {
    GpuDeviceView {
        vendor: "nvidia"@,
        model: model,
        pci_id: None,
        driver: None,
        source: "nvidia-smi"@,
    }
}

/// The GPUs found by a run of `nvidia-smi -L`: none unless it exited with 0.
pub open spec fn nvidia_report(out: Result<CommandResultView, CommandErrorView>) -> Seq<
    GpuDeviceView,
> {
    match out {
        Ok(r) => if r.return_code != 0 {
            seq![]
        } else {
            nvidia_smi_models(r.stdout).map_values(|m: Seq<char>| nvidia_gpu(m))
        },
        Err(_) => seq![],
    }
}

/// The GPUs that a run of `nvidia-smi -L` reported.
pub fn nvidia_devices_from(outcome: Result<CommandResult, CommandError>) -> (r: Vec<GpuDevice>)
    ensures
        gpu_views(r@) == nvidia_report(outcome_view(outcome)),
{
    let mut r: Vec<GpuDevice> = Vec::new();
    assert(gpu_views(r@) =~= Seq::<GpuDeviceView>::empty());
    match outcome {
        Ok(result) => {
            if result.return_code != 0 {
                return r;
            }
            let models = parse_nvidia_smi_list(result.stdout.as_str());
            let ghost ms = string_views(models@);
            let mut i: usize = 0;
            while i < models.len()
                invariant
                    i <= models@.len(),
                    ms == string_views(models@),
                    gpu_views(r@) == ms.take(i as int).map_values(|m: Seq<char>| nvidia_gpu(m)),
                decreases models@.len() - i,
            {
                let ghost before = gpu_views(r@);
                let d = GpuDevice {
                    vendor: String::from_str("nvidia"),
                    model: models[i].clone(),
                    pci_id: None,
                    driver: None,
                    source: String::from_str("nvidia-smi"),
                };
                r.push(d);
                assert(gpu_views(r@) =~= before.push(nvidia_gpu(ms[i as int])));
                assert(ms.take(i + 1).map_values(|m: Seq<char>| nvidia_gpu(m)) =~= ms.take(
                    i as int,
                ).map_values(|m: Seq<char>| nvidia_gpu(m)).push(nvidia_gpu(ms[i as int])));
                i += 1;
            }
            assert(ms.take(i as int) =~= ms);
            r
        },
        Err(_) => r,
    }
}

/// Ask `nvidia-smi -L` (at `executable`) for the GPUs, within ten seconds.
pub fn nvidia_devices<R: CommandRunner>(runner: &R, executable: Option<&str>) -> (r: Vec<
    GpuDevice,
>)
    requires
        executable matches Some(exe) ==> runner.may_run(seq![exe@, "-L"@]),
    ensures
        executable is None ==> r@.len() == 0,
        executable matches Some(exe) ==> exists|o: Result<CommandResultView, CommandErrorView>|
            runner.answers(seq![exe@, "-L"@], o) && gpu_views(r@) == #[trigger] nvidia_report(o),
{
    match executable {
        None => Vec::new(),
        Some(exe) => {
            let argv = argv2(exe, "-L");
            let outcome = runner.run(argv.as_slice(), std::time::Duration::from_secs(10));
            let ghost o = outcome_view(outcome);
            let r = nvidia_devices_from(outcome);
            assert(gpu_views(r@) == nvidia_report(o));
            r
        },
    }
}


// ---------------------------------------------------------------------------
// /etc/os-release
// ---------------------------------------------------------------------------

/// The value of an `ID=` line, without its quotes.
pub open spec fn id_value(line: Seq<char>) -> Option<Seq<char>> {
    match split_once(line, '=') {
        Some((key, value)) => if key == "ID"@ {
            Some(trim_by(value, Strip::Only('"')))
        } else {
            None
        },
        None => None,
    }
}

/// The value of the first `ID=` line.
pub open spec fn first_id(ls: Seq<Seq<char>>) -> Option<Seq<char>>
    decreases ls.len(),
{
    if ls.len() == 0 {
        None
    } else {
        match id_value(ls[0]) {
            Some(v) => Some(v),
            None => first_id(ls.drop_first()),
        }
    }
}

/// The distribution that the text of `/etc/os-release` names.
pub fn distribution(os_release: &str) -> (r: Option<String>)
    ensures
        opt_view(r) == first_id(lines(os_release@)),
{
    let cs = chars_of(os_release);
    let ls = split_lines(&cs);
    let ghost all = char_views(ls@);
    let mut i: usize = 0;
    assert(all.skip(0) =~= all);
    while i < ls.len()
        invariant
            i <= ls@.len(),
            all == char_views(ls@),
            all == lines(os_release@),
            first_id(all) == first_id(all.skip(i as int)),
        decreases ls@.len() - i,
    {
        assert(all.skip(i as int)[0] == ls@[i as int]@);
        assert(all.skip(i as int).drop_first() =~= all.skip(i + 1));
        match split_once_chars(&ls[i], '=') {
            Some((key, value)) => {
                if chars_eq_str(&key, "ID") {
                    let v = trim_chars(&value, Strip::Only('"'));
                    return Some(to_string(&v));
                }
            },
            None => {},
        }
        i += 1;
    }
    assert(all.skip(i as int).len() == 0);
    None
}

// ---------------------------------------------------------------------------
// Where nvidia-smi is
// ---------------------------------------------------------------------------

/// The `nvidia-smi` to run: the one in `/usr/bin`, else the one WSL
/// provides, else whichever the search path finds.
pub open spec fn nvidia_smi_location(at_usr_bin: bool, at_wsl_lib: bool, on_path: bool) -> Option<
    Seq<char>,
> {
    if at_usr_bin {
        Some("/usr/bin/nvidia-smi"@)
    } else if at_wsl_lib {
        Some("/usr/lib/wsl/lib/nvidia-smi"@)
    } else if on_path {
        Some("nvidia-smi"@)
    } else {
        None
    }
}

/// Choose the `nvidia-smi` to run from which of its places exist.
pub fn nvidia_smi_path(at_usr_bin: bool, at_wsl_lib: bool, on_path: bool) -> (r: Option<String>)
    ensures
        opt_view(r) == nvidia_smi_location(at_usr_bin, at_wsl_lib, on_path),
{
    if at_usr_bin {
        Some(String::from_str("/usr/bin/nvidia-smi"))
    } else if at_wsl_lib {
        Some(String::from_str("/usr/lib/wsl/lib/nvidia-smi"))
    } else if on_path {
        Some(String::from_str("nvidia-smi"))
    } else {
        None
    }
}

// ---------------------------------------------------------------------------
// /sys/class/drm
// ---------------------------------------------------------------------------

/// What was read for one entry of `/sys/class/drm`: its name, the contents
/// of `device/vendor` and `device/modalias` (empty where unreadable), and
/// the name of the driver that `device/driver` links to.
#[derive(Debug, Clone)]
pub struct DrmEntry {
    pub name: String,
    pub vendor_id: String,
    pub modalias: String,
    pub driver: Option<String>,
}

pub struct DrmEntryView {
    pub name: Seq<char>,
    pub vendor_id: Seq<char>,
    pub modalias: Seq<char>,
    pub driver: Option<Seq<char>>,
}

impl View for DrmEntry {
    type V = DrmEntryView;

    open spec fn view(&self) -> DrmEntryView {
        DrmEntryView {
            name: self.name@,
            vendor_id: self.vendor_id@,
            modalias: self.modalias@,
            driver: opt_view(self.driver),
        }
    }
}

/// A card itself (`card0`), not one of its connectors (`card0-HDMI-A-1`).
pub open spec fn is_card_name(name: Seq<char>) -> bool {
    starts_with(name, "card"@) && !contains(name.skip("card"@.len() as int), "-"@)
}

/// The vendor that a PCI vendor id names, else the one its modalias names.
pub open spec fn sysfs_vendor(vendor_id: Seq<char>, modalias: Seq<char>) -> Seq<char> {
    if vendor_id == "0x10de"@ {
        "nvidia"@
    } else if vendor_id == "0x1002"@ {
        "amd"@
    } else if vendor_id == "0x8086"@ {
        "intel"@
    } else {
        vendor_name(modalias)
    }
}

/// The GPU that a card entry of `/sys/class/drm` describes.
pub open spec fn sysfs_device(e: DrmEntryView) -> Option<GpuDeviceView> {
    if !is_card_name(e.name) {
        None
    } else {
        let id = trim(e.vendor_id);
        Some(
            GpuDeviceView {
                vendor: sysfs_vendor(id, e.modalias),
                model: e.name,
                pci_id: if id.len() > 0 {
                    Some(id)
                } else {
                    None
                },
                driver: e.driver,
                source: "sysfs"@,
            },
        )
    }
}

pub open spec fn sysfs_listing(es: Seq<DrmEntryView>) -> Seq<GpuDeviceView>
    decreases es.len(),
{
    if es.len() == 0 {
        seq![]
    } else {
        let r = sysfs_listing(es.drop_last());
        match sysfs_device(es.last()) {
            Some(d) => r.push(d),
            None => r,
        }
    }
}

pub open spec fn drm_views(es: Seq<DrmEntry>) -> Seq<DrmEntryView> {
    es.map_values(|e: DrmEntry| e@)
}

fn card_device(e: &DrmEntry) -> (r: Option<GpuDevice>)
    ensures
        match r {
            Some(d) => sysfs_device(e@) == Some(d@),
            None => sysfs_device(e@) is None,
        },
{
    let name = chars_of(e.name.as_str());
    let card = chars_of("card");
    if !matches_here(&name, &card, 0) {
        return None;
    }
    let rest = sub_chars(&name, card.len(), name.len());
    assert(rest@ =~= name@.skip("card"@.len() as int));
    if contains_str(&rest, "-") {
        return None;
    }
    let raw = chars_of(e.vendor_id.as_str());
    let id = trim_chars(&raw, Strip::Whitespace);
    let vendor = if chars_eq_str(&id, "0x10de") {
        String::from_str("nvidia")
    } else if chars_eq_str(&id, "0x1002") {
        String::from_str("amd")
    } else if chars_eq_str(&id, "0x8086") {
        String::from_str("intel")
    } else {
        detect_vendor(e.modalias.as_str())
    };
    let pci_id = if id.len() > 0 {
        Some(to_string(&id))
    } else {
        None
    };
    Some(
        GpuDevice {
            vendor,
            model: e.name.clone(),
            pci_id,
            driver: e.driver.clone(),
            source: String::from_str("sysfs"),
        },
    )
}

/// The GPUs among the entries of `/sys/class/drm`.
pub fn sysfs_devices(entries: &Vec<DrmEntry>) -> (r: Vec<GpuDevice>)
    ensures
        gpu_views(r@) == sysfs_listing(drm_views(entries@)),
{
    let ghost all = drm_views(entries@);
    let mut r: Vec<GpuDevice> = Vec::new();
    let mut i: usize = 0;
    assert(all.take(0) =~= Seq::<DrmEntryView>::empty());
    assert(gpu_views(r@) =~= Seq::<GpuDeviceView>::empty());
    while i < entries.len()
        invariant
            i <= entries@.len(),
            all == drm_views(entries@),
            gpu_views(r@) == sysfs_listing(all.take(i as int)),
        decreases entries@.len() - i,
    {
        assert(all.take(i + 1).drop_last() =~= all.take(i as int));
        assert(all.take(i + 1).last() == entries@[i as int]@);
        let ghost before = gpu_views(r@);
        match card_device(&entries[i]) {
            Some(d) => {
                r.push(d);
                assert(gpu_views(r@) =~= before.push(d@));
            },
            None => {},
        }
        i += 1;
    }
    assert(all.take(i as int) =~= all);
    r
}


// ---------------------------------------------------------------------------
// The whole diagnosis
// ---------------------------------------------------------------------------

/// The commands whose presence on the search path is reported.
pub open spec fn known_commands() -> Seq<Seq<char>> {
    seq![
        "lspci"@,
        "vulkaninfo"@,
        "nvidia-smi"@,
        "ubuntu-drivers"@,
        "apt-get"@,
        "dnf"@,
        "pacman"@,
        "zypper"@,
        "apk"@,
    ]
}

/// The package managers a repair can use, in order of preference.
pub open spec fn package_manager_commands() -> Seq<Seq<char>> {
    seq!["apt-get"@, "dnf"@, "pacman"@, "zypper"@, "apk"@]
}

/// The candidates that are among `found`, in the candidates' order.
pub open spec fn keep_found(cands: Seq<Seq<char>>, found: Seq<Seq<char>>) -> Seq<Seq<char>>
    decreases cands.len(),
{
    if cands.len() == 0 {
        seq![]
    } else {
        let r = keep_found(cands.drop_last(), found);
        if found.contains(cands.last()) {
            r.push(cands.last())
        } else {
            r
        }
    }
}

/// What was read from the machine itself: `/proc/version`, whether
/// `/dev/dxg` exists, the entries of `/sys/class/drm`, whether
/// `nvidia-smi` exists in `/usr/bin` and in WSL's library directory, which
/// of the known commands the search path holds, and `/etc/os-release`.
#[derive(Debug, Clone)]
pub struct HostProbe {
    pub proc_version: String,
    pub dxg_exists: bool,
    pub drm_entries: Vec<DrmEntry>,
    pub nvidia_smi_at_usr_bin: bool,
    pub nvidia_smi_at_wsl_lib: bool,
    pub commands_on_path: Vec<String>,
    pub os_release: String,
}

pub struct HostProbeView {
    pub proc_version: Seq<char>,
    pub dxg_exists: bool,
    pub drm_entries: Seq<DrmEntryView>,
    pub nvidia_smi_at_usr_bin: bool,
    pub nvidia_smi_at_wsl_lib: bool,
    pub commands_on_path: Seq<Seq<char>>,
    pub os_release: Seq<char>,
}

impl View for HostProbe {
    type V = HostProbeView;

    open spec fn view(&self) -> HostProbeView {
        HostProbeView {
            proc_version: self.proc_version@,
            dxg_exists: self.dxg_exists,
            drm_entries: drm_views(self.drm_entries@),
            nvidia_smi_at_usr_bin: self.nvidia_smi_at_usr_bin,
            nvidia_smi_at_wsl_lib: self.nvidia_smi_at_wsl_lib,
            commands_on_path: string_views(self.commands_on_path@),
            os_release: self.os_release@,
        }
    }
}

/// The GPUs Vulkan reports through a run of `vulkaninfo --summary`; its
/// exit status is not looked at.
pub open spec fn vulkan_report(out: Result<CommandResultView, CommandErrorView>) -> Seq<
    VulkanDeviceView,
> {
    match out {
        Ok(r) => vulkan_summary(r.stdout),
        Err(_) => seq![],
    }
}

/// The `nvidia-smi` a host offers.
pub open spec fn host_nvidia_smi(h: HostProbeView) -> Option<Seq<char>> {
    nvidia_smi_location(
        h.nvidia_smi_at_usr_bin,
        h.nvidia_smi_at_wsl_lib,
        h.commands_on_path.contains("nvidia-smi"@),
    )
}

/// The GPUs of a host: those sysfs lists; else those `lspci` finds; else
/// those `nvidia-smi` finds, when there is one to ask.
pub open spec fn host_devices(
    h: HostProbeView,
    lspci_out: Result<CommandResultView, CommandErrorView>,
    nvidia_out: Result<CommandResultView, CommandErrorView>,
) -> Seq<GpuDeviceView> {
    let sysfs = sysfs_listing(h.drm_entries);
    if sysfs.len() > 0 {
        sysfs
    } else if lspci_report(lspci_out).len() > 0 {
        lspci_report(lspci_out)
    } else if host_nvidia_smi(h) is Some {
        nvidia_report(nvidia_out)
    } else {
        seq![]
    }
}

/// The report on a host, given what the commands it runs answer.
pub open spec fn diagnosis(
    h: HostProbeView,
    lspci_out: Result<CommandResultView, CommandErrorView>,
    nvidia_out: Result<CommandResultView, CommandErrorView>,
    vulkan_out: Result<CommandResultView, CommandErrorView>,
) -> SystemReportView {
    SystemReportView {
        platform: platform_name(h.proc_version, h.dxg_exists),
        distribution: first_id(lines(h.os_release)),
        devices: host_devices(h, lspci_out, nvidia_out),
        vulkan_devices: if h.commands_on_path.contains("vulkaninfo"@) {
            vulkan_report(vulkan_out)
        } else {
            seq![]
        },
        nvidia_smi: host_nvidia_smi(h) is Some,
        package_managers: keep_found(package_manager_commands(), h.commands_on_path),
        available_commands: keep_found(known_commands(), h.commands_on_path),
    }
}

/// The commands to look for on the search path.
pub fn known_command_names() -> (r: Vec<String>)
    ensures
        string_views(r@) == known_commands(),
{
    let mut r: Vec<String> = Vec::new();
    r.push(String::from_str("lspci"));
    r.push(String::from_str("vulkaninfo"));
    r.push(String::from_str("nvidia-smi"));
    r.push(String::from_str("ubuntu-drivers"));
    r.push(String::from_str("apt-get"));
    r.push(String::from_str("dnf"));
    r.push(String::from_str("pacman"));
    r.push(String::from_str("zypper"));
    r.push(String::from_str("apk"));
    assert(string_views(r@) =~= known_commands());
    r
}

fn package_manager_names() -> (r: Vec<String>)
    ensures
        string_views(r@) == package_manager_commands(),
{
    let mut r: Vec<String> = Vec::new();
    r.push(String::from_str("apt-get"));
    r.push(String::from_str("dnf"));
    r.push(String::from_str("pacman"));
    r.push(String::from_str("zypper"));
    r.push(String::from_str("apk"));
    assert(string_views(r@) =~= package_manager_commands());
    r
}

/// Whether `name` is among `found`.
pub fn is_found(found: &Vec<String>, name: &str) -> (r: bool)
    ensures
        r == string_views(found@).contains(name@),
{
    let mut i: usize = 0;
    while i < found.len()
        invariant
            i <= found@.len(),
            forall|k: int| 0 <= k < i ==> #[trigger] found@[k]@ != name@,
        decreases found@.len() - i,
    {
        if str_eq(found[i].as_str(), name) {
            assert(string_views(found@)[i as int] == name@);
            return true;
        }
        i += 1;
    }
    assert(!string_views(found@).contains(name@)) by {
        if string_views(found@).contains(name@) {
            let k = choose|k: int|
                0 <= k < string_views(found@).len() && string_views(found@)[k] == name@;
            assert(found@[k]@ == name@);
        }
    }
    false
}

/// The candidates that are among `found`, in the candidates' order.
pub fn filter_found(cands: &Vec<String>, found: &Vec<String>) -> (r: Vec<String>)
    ensures
        string_views(r@) == keep_found(string_views(cands@), string_views(found@)),
{
    let ghost all = string_views(cands@);
    let mut r: Vec<String> = Vec::new();
    let mut i: usize = 0;
    assert(all.take(0) =~= Seq::<Seq<char>>::empty());
    assert(string_views(r@) =~= Seq::<Seq<char>>::empty());
    while i < cands.len()
        invariant
            i <= cands@.len(),
            all == string_views(cands@),
            string_views(r@) == keep_found(all.take(i as int), string_views(found@)),
        decreases cands@.len() - i,
    {
        assert(all.take(i + 1).drop_last() =~= all.take(i as int));
        assert(all.take(i + 1).last() == cands@[i as int]@);
        let ghost before = string_views(r@);
        if is_found(found, cands[i].as_str()) {
            r.push(cands[i].clone());
            assert(string_views(r@) =~= before.push(cands@[i as int]@));
        }
        i += 1;
    }
    assert(all.take(i as int) =~= all);
    r
}

/// Ask `vulkaninfo --summary` for the Vulkan devices, within twenty seconds.
fn vulkan_devices<R: CommandRunner>(runner: &R) -> (r: Vec<VulkanDevice>)
    requires
        runner.may_run(seq!["vulkaninfo"@, "--summary"@]),
    ensures
        exists|o: Result<CommandResultView, CommandErrorView>|
            runner.answers(seq!["vulkaninfo"@, "--summary"@], o) && vulkan_views(r@)
                == #[trigger] vulkan_report(o),
{
    let argv = argv2("vulkaninfo", "--summary");
    let outcome = runner.run(argv.as_slice(), std::time::Duration::from_secs(20));
    let ghost o = outcome_view(outcome);
    let r = vulkan_devices_from(outcome);
    assert(vulkan_views(r@) == vulkan_report(o));
    r
}

/// The Vulkan devices that a run of `vulkaninfo --summary` reported.
pub fn vulkan_devices_from(outcome: Result<CommandResult, CommandError>) -> (r: Vec<VulkanDevice>)
    ensures
        vulkan_views(r@) == vulkan_report(outcome_view(outcome)),
{
    match outcome {
        Ok(result) => parse_vulkan_summary(result.stdout.as_str()),
        Err(_) => {
            let r: Vec<VulkanDevice> = Vec::new();
            assert(vulkan_views(r@) =~= Seq::<VulkanDeviceView>::empty());
            r
        },
    }
}

/// The commands a diagnosis asks the runner for, and the answers they
/// got: `lspci -nnk` when sysfs lists no GPU; `nvidia-smi -L` at the chosen
/// path when `lspci` found none either; `vulkaninfo --summary` when it is on
/// the search path.
pub open spec fn probes_answered<R: CommandRunner>(
    runner: &R,
    h: HostProbeView,
    lspci_out: Result<CommandResultView, CommandErrorView>,
    nvidia_out: Result<CommandResultView, CommandErrorView>,
    vulkan_out: Result<CommandResultView, CommandErrorView>,
) -> bool {
    &&& sysfs_listing(h.drm_entries).len() == 0 ==> runner.answers(
        seq!["lspci"@, "-nnk"@],
        lspci_out,
    )
    &&& (sysfs_listing(h.drm_entries).len() == 0 && lspci_report(lspci_out).len() == 0
        && host_nvidia_smi(h) is Some) ==> runner.answers(
        seq![host_nvidia_smi(h)->0, "-L"@],
        nvidia_out,
    )
    &&& h.commands_on_path.contains("vulkaninfo"@) ==> runner.answers(
        seq!["vulkaninfo"@, "--summary"@],
        vulkan_out,
    )
}

/// The only commands a diagnosis may hand to the runner, each only when it
/// can be needed: `lspci -nnk` when sysfs lists no GPU, `nvidia-smi -L` at
/// the chosen path when sysfs lists none either, and `vulkaninfo --summary`
/// when it is on the search path.
pub open spec fn probe_permissions<R: CommandRunner>(runner: &R, h: HostProbeView) -> bool {
    &&& sysfs_listing(h.drm_entries).len() == 0 ==> runner.may_run(seq!["lspci"@, "-nnk"@])
    &&& (sysfs_listing(h.drm_entries).len() == 0 && host_nvidia_smi(h) is Some) ==> runner.may_run(
        seq![host_nvidia_smi(h)->0, "-L"@],
    )
    &&& h.commands_on_path.contains("vulkaninfo"@) ==> runner.may_run(
        seq!["vulkaninfo"@, "--summary"@],
    )
}

/// Collect the Linux/WSL report from what was read of the host and from
/// the probe commands run through `runner`, whose answers decide the rest.
pub fn diagnose<R: CommandRunner>(runner: &R, host: &HostProbe) -> (r: SystemReport)
    requires
        probe_permissions(runner, host@),
    ensures
        exists|
            lspci_out: Result<CommandResultView, CommandErrorView>,
            nvidia_out: Result<CommandResultView, CommandErrorView>,
            vulkan_out: Result<CommandResultView, CommandErrorView>,
        |
            {
                &&& probes_answered(runner, host@, lspci_out, nvidia_out, vulkan_out)
                &&& r@ == #[trigger] diagnosis(host@, lspci_out, nvidia_out, vulkan_out)
            },
{
    let h = host;
    let platform = detect_platform(h.proc_version.as_str(), h.dxg_exists);
    let ghost mut lspci_out = Err(CommandErrorView::Empty);
    let ghost mut nvidia_out = Err(CommandErrorView::Empty);
    let mut devices = sysfs_devices(&h.drm_entries);
    let ghost sysfs = gpu_views(devices@);
    if devices.len() == 0 {
        devices = lspci_devices(runner);
        proof {
            lspci_out = choose|o: Result<CommandResultView, CommandErrorView>|
                runner.answers(seq!["lspci"@, "-nnk"@], o) && gpu_views(devices@)
                    == #[trigger] lspci_report(o);
        }
    }
    let ghost after_lspci = gpu_views(devices@);
    let nvidia_smi = nvidia_smi_path(
        h.nvidia_smi_at_usr_bin,
        h.nvidia_smi_at_wsl_lib,
        is_found(&h.commands_on_path, "nvidia-smi"),
    );
    if devices.len() == 0 {
        let exe: Option<&str> = match &nvidia_smi {
            Some(p) => Some(p.as_str()),
            None => None,
        };
        devices = nvidia_devices(runner, exe);
        proof {
            if let Some(e) = exe {
                nvidia_out = choose|o: Result<CommandResultView, CommandErrorView>|
                    runner.answers(seq![e@, "-L"@], o) && gpu_views(devices@)
                        == #[trigger] nvidia_report(o);
            }
        }
    }
    let known = known_command_names();
    let available_commands = filter_found(&known, &h.commands_on_path);
    let ghost mut vulkan_out = Err(CommandErrorView::Empty);
    let vulkan = if is_found(&h.commands_on_path, "vulkaninfo") {
        let v = vulkan_devices(runner);
        proof {
            vulkan_out = choose|o: Result<CommandResultView, CommandErrorView>|
                runner.answers(seq!["vulkaninfo"@, "--summary"@], o) && vulkan_views(v@)
                    == #[trigger] vulkan_report(o);
        }
        v
    } else {
        let v: Vec<VulkanDevice> = Vec::new();
        assert(vulkan_views(v@) =~= Seq::<VulkanDeviceView>::empty());
        v
    };
    let managers = package_manager_names();
    let package_managers = filter_found(&managers, &h.commands_on_path);
    let has_nvidia_smi = nvidia_smi.is_some();
    let r = SystemReport {
        platform,
        distribution: distribution(h.os_release.as_str()),
        devices,
        vulkan_devices: vulkan,
        nvidia_smi: has_nvidia_smi,
        package_managers,
        available_commands,
    };
    let ghost d = diagnosis(host@, lspci_out, nvidia_out, vulkan_out);
    assert(sysfs == sysfs_listing(host@.drm_entries));
    assert(r@.platform == d.platform);
    assert(r@.distribution == d.distribution);
    assert(r@.devices == d.devices);
    assert(r@.vulkan_devices == d.vulkan_devices);
    assert(r@.nvidia_smi == d.nvidia_smi);
    assert(r@.package_managers == d.package_managers);
    assert(r@.available_commands == d.available_commands);
    assert(probes_answered(runner, host@, lspci_out, nvidia_out, vulkan_out));
    r
}

// ---------------------------------------------------------------------------
// The verification verdict
// ---------------------------------------------------------------------------

/// Whether the report shows a hardware Vulkan device.
pub open spec fn has_hardware_vulkan(r: SystemReportView) -> bool {
    exists|i: int| 0 <= i < r.vulkan_devices.len() && (#[trigger] r.vulkan_devices[i]).hardware
}

/// Whether Vulkan runs on hardware here: what `verify` reports.
pub fn hardware_vulkan_present(report: &SystemReport) -> (r: bool)
    ensures
        r == has_hardware_vulkan(report@),
{
    let mut i: usize = 0;
    while i < report.vulkan_devices.len()
        invariant
            i <= report.vulkan_devices@.len(),
            forall|k: int| 0 <= k < i ==> !(#[trigger] report.vulkan_devices@[k]).hardware,
        decreases report.vulkan_devices@.len() - i,
    {
        if report.vulkan_devices[i].hardware {
            assert(report@.vulkan_devices[i as int].hardware);
            return true;
        }
        i += 1;
    }
    assert(!has_hardware_vulkan(report@)) by {
        if has_hardware_vulkan(report@) {
            let k = choose|k: int|
                0 <= k < report@.vulkan_devices.len() && (#[trigger] report@.vulkan_devices[k]).hardware;
            assert(report.vulkan_devices@[k].hardware);
        }
    }
    false
}

// ---------------------------------------------------------------------------
// Laws
// ---------------------------------------------------------------------------

/// Every device is hardware exactly when it is neither a software
/// rasteriser nor typed as the CPU.
pub open spec fn classified(devices: Seq<VulkanDeviceView>) -> bool {
    forall|i: int|
        0 <= i < devices.len() ==> (#[trigger] devices[i]).hardware == (!is_software_name(
            devices[i].name,
        ) && !is_cpu_type(devices[i].device_type))
}

proof fn lemma_finish_classified(st: VulkanScan)
    requires
        classified(st.devices),
    ensures
        classified(finish_device(st).devices),
{
    if let Some(n) = st.name {
        let d = finish_device(st).devices;
        assert forall|i: int| 0 <= i < d.len() implies (#[trigger] d[i]).hardware == (
        !is_software_name(d[i].name) && !is_cpu_type(d[i].device_type)) by {
            if i < st.devices.len() {
                assert(d[i] == st.devices[i]);
            }
        }
    }
}

proof fn lemma_scan_classified(ls: Seq<Seq<char>>)
    ensures
        classified(scan_lines(ls).devices),
    decreases ls.len(),
{
    if ls.len() > 0 {
        lemma_scan_classified(ls.drop_last());
        lemma_finish_classified(scan_lines(ls.drop_last()));
    }
}

/// Software Vulkan is never taken for hardware: a device reported by
/// `vulkaninfo --summary` counts as hardware exactly when its name is not a
/// software rasteriser's and its type is not the CPU.
pub proof fn lemma_software_vulkan_is_not_hardware(output: Seq<char>)
    ensures
        classified(vulkan_summary(output)),
{
    lemma_scan_classified(lines(output));
    lemma_finish_classified(scan_lines(lines(output)));
}

/// Every GPU found through `lspci` has a known vendor and says so.
pub proof fn lemma_lspci_vendors_known(ls: Seq<Seq<char>>)
    ensures
        forall|i: int|
            0 <= i < lspci_listing(ls).len() ==> (#[trigger] lspci_listing(ls)[i]).vendor
                != "unknown"@ && lspci_listing(ls)[i].source == "lspci"@,
    decreases ls.len(),
{
    if ls.len() > 0 {
        lemma_lspci_vendors_known(ls.drop_last());
        let r = lspci_listing(ls.drop_last());
        assert forall|i: int| 0 <= i < lspci_listing(ls).len() implies (#[trigger] lspci_listing(
            ls,
        )[i]).vendor != "unknown"@ && lspci_listing(ls)[i].source == "lspci"@ by {
            if i < r.len() {
                assert(lspci_listing(ls)[i] == r[i]);
            }
        }
    }
}

/// Every model name read from `nvidia-smi -L` is non-empty.
pub proof fn lemma_nvidia_models_nonempty(ls: Seq<Seq<char>>)
    ensures
        forall|i: int| 0 <= i < nvidia_models(ls).len() ==> (#[trigger] nvidia_models(ls)[i]).len() > 0,
    decreases ls.len(),
{
    if ls.len() > 0 {
        lemma_nvidia_models_nonempty(ls.drop_last());
        let r = nvidia_models(ls.drop_last());
        assert forall|i: int| 0 <= i < nvidia_models(ls).len() implies (#[trigger] nvidia_models(
            ls,
        )[i]).len() > 0 by {
            if i < r.len() {
                assert(nvidia_models(ls)[i] == r[i]);
            }
        }
    }
}

/// A host with `/dev/dxg` is WSL, whatever its kernel string says.
pub proof fn lemma_dxg_means_wsl(proc_version: Seq<char>)
    ensures
        platform_name(proc_version, true) == "wsl"@,
{
}

/// The devices that sysfs lists win over whatever the commands answer.
pub proof fn lemma_sysfs_first(
    h: HostProbeView,
    lspci_out: Result<CommandResultView, CommandErrorView>,
    nvidia_out: Result<CommandResultView, CommandErrorView>,
)
    requires
        sysfs_listing(h.drm_entries).len() > 0,
    ensures
        host_devices(h, lspci_out, nvidia_out) == sysfs_listing(h.drm_entries),
{
}


/// The same host and a runner that answers each command one way always
/// give the same report.
pub proof fn lemma_same_answers_same_report<R: CommandRunner>(
    runner: &R,
    h: HostProbeView,
    lspci_a: Result<CommandResultView, CommandErrorView>,
    nvidia_a: Result<CommandResultView, CommandErrorView>,
    vulkan_a: Result<CommandResultView, CommandErrorView>,
    lspci_b: Result<CommandResultView, CommandErrorView>,
    nvidia_b: Result<CommandResultView, CommandErrorView>,
    vulkan_b: Result<CommandResultView, CommandErrorView>,
)
    requires
        answers_uniquely(runner),
        probes_answered(runner, h, lspci_a, nvidia_a, vulkan_a),
        probes_answered(runner, h, lspci_b, nvidia_b, vulkan_b),
    ensures
        diagnosis(h, lspci_a, nvidia_a, vulkan_a) == diagnosis(h, lspci_b, nvidia_b, vulkan_b),
{
    if sysfs_listing(h.drm_entries).len() == 0 {
        assert(runner.answers(seq!["lspci"@, "-nnk"@], lspci_a));
        assert(runner.answers(seq!["lspci"@, "-nnk"@], lspci_b));
        assert(lspci_a == lspci_b);
        if lspci_report(lspci_a).len() == 0 && host_nvidia_smi(h) is Some {
            let argv = seq![host_nvidia_smi(h)->0, "-L"@];
            assert(runner.answers(argv, nvidia_a));
            assert(runner.answers(argv, nvidia_b));
            assert(nvidia_a == nvidia_b);
        }
    }
    if h.commands_on_path.contains("vulkaninfo"@) {
        assert(runner.answers(seq!["vulkaninfo"@, "--summary"@], vulkan_a));
        assert(runner.answers(seq!["vulkaninfo"@, "--summary"@], vulkan_b));
        assert(vulkan_a == vulkan_b);
    }
}


/// The verdict of `verify` looks at every device: it holds exactly when
/// some device, wherever it stands in the list, runs on hardware.
pub proof fn lemma_hardware_verdict_any_device(r: SystemReportView, i: int)
    ensures
        0 <= i < r.vulkan_devices.len() && r.vulkan_devices[i].hardware ==> has_hardware_vulkan(r),
        has_hardware_vulkan(r) ==> exists|j: int|
            0 <= j < r.vulkan_devices.len() && (#[trigger] r.vulkan_devices[j]).hardware,
{
}

/// Listing more devices after a hardware one, or before it, never takes
/// the verdict back.
pub proof fn lemma_hardware_verdict_kept(
    r: SystemReportView,
    before: Seq<VulkanDeviceView>,
    after: Seq<VulkanDeviceView>,
)
    requires
        has_hardware_vulkan(r),
    ensures
        has_hardware_vulkan(
            SystemReportView { vulkan_devices: before + r.vulkan_devices + after, ..r },
        ),
{
    let j = choose|j: int| 0 <= j < r.vulkan_devices.len() && (#[trigger] r.vulkan_devices[j]).hardware;
    let r2 = SystemReportView { vulkan_devices: before + r.vulkan_devices + after, ..r };
    assert(r2.vulkan_devices[before.len() + j] == r.vulkan_devices[j]);
    lemma_hardware_verdict_any_device(r2, before.len() + j);
}

/// A card entry reports the vendor its PCI vendor id names: `0x10de` is
/// NVIDIA, `0x1002` is AMD and `0x8086` is Intel, whatever the modalias
/// says; the id, trimmed, is reported as the device's PCI id.
pub proof fn lemma_sysfs_vendor_ids(es: Seq<DrmEntryView>)
    ensures
        forall|i: int|
            0 <= i < sysfs_listing(es).len() ==> {
                let d = #[trigger] sysfs_listing(es)[i];
                &&& d.pci_id == Some("0x10de"@) ==> d.vendor == "nvidia"@
                &&& d.pci_id == Some("0x1002"@) ==> d.vendor == "amd"@
                &&& d.pci_id == Some("0x8086"@) ==> d.vendor == "intel"@
                &&& d.source == "sysfs"@
            },
    decreases es.len(),
{
    reveal_strlit("0x10de");
    reveal_strlit("0x1002");
    reveal_strlit("0x8086");
    assert("0x1002"@ != "0x10de"@) by {
        assert("0x1002"@[4] != "0x10de"@[4]);
    }
    assert("0x8086"@ != "0x10de"@) by {
        assert("0x8086"@[2] != "0x10de"@[2]);
    }
    assert("0x8086"@ != "0x1002"@) by {
        assert("0x8086"@[2] != "0x1002"@[2]);
    }
    if es.len() > 0 {
        lemma_sysfs_vendor_ids(es.drop_last());
        let r = sysfs_listing(es.drop_last());
        assert forall|i: int| 0 <= i < sysfs_listing(es).len() implies {
            let d = #[trigger] sysfs_listing(es)[i];
            &&& d.pci_id == Some("0x10de"@) ==> d.vendor == "nvidia"@
            &&& d.pci_id == Some("0x1002"@) ==> d.vendor == "amd"@
            &&& d.pci_id == Some("0x8086"@) ==> d.vendor == "intel"@
            &&& d.source == "sysfs"@
        } by {
            if i < r.len() {
                assert(sysfs_listing(es)[i] == r[i]);
            }
        }
    }
}

/// A line `key = value` whose trimmed key is none of `deviceName`,
/// `deviceType` and `driverName` (such as `driverID` or `driverInfo`)
/// changes nothing; a `driverName` line sets the driver of the device being
/// read to its trimmed value and changes nothing else.
pub proof fn lemma_vulkan_keys(st: VulkanScan, line: Seq<char>, key: Seq<char>, value: Seq<char>)
    requires
        !is_section_header(line),
        split_once(line, '=') == Some((key, value)),
    ensures
        trim(key) != "deviceName"@ && trim(key) != "deviceType"@ && trim(key) != "driverName"@
            ==> scan_line(st, line) == st,
        trim(key) == "driverName"@ ==> scan_line(st, line).driver == Some(trim(value))
            && scan_line(st, line).name == st.name && scan_line(st, line).device_type
            == st.device_type && scan_line(st, line).devices == st.devices,
{
    reveal_strlit("deviceName");
    reveal_strlit("deviceType");
    reveal_strlit("driverName");
    assert("driverName"@ != "deviceName"@) by {
        assert("driverName"@[1] != "deviceName"@[1]);
    }
    assert("driverName"@ != "deviceType"@) by {
        assert("driverName"@[1] != "deviceType"@[1]);
    }
}

/// A line that is not `key = value` and opens no section changes nothing.
pub proof fn lemma_vulkan_plain_lines(st: VulkanScan, line: Seq<char>)
    requires
        !is_section_header(line),
        split_once(line, '=') is None,
    ensures
        scan_line(st, line) == st,
{
}

/// Reading `nvidia-smi -L` line by line: the models of two pieces of output
/// are the models of the first followed by those of the second, so every
/// line with a model contributes it, repeated models included.
pub proof fn lemma_nvidia_models_concat(a: Seq<Seq<char>>, b: Seq<Seq<char>>)
    ensures
        nvidia_models(a + b) == nvidia_models(a) + nvidia_models(b),
    decreases b.len(),
{
    if b.len() == 0 {
        assert(a + b =~= a);
        assert(nvidia_models(a) + nvidia_models(b) =~= nvidia_models(a));
    } else {
        lemma_nvidia_models_concat(a, b.drop_last());
        assert((a + b).drop_last() =~= a + b.drop_last());
        assert((a + b).last() == b.last());
        match nvidia_model(b.last()) {
            Some(m) => {
                assert(nvidia_models(a) + nvidia_models(b) =~= (nvidia_models(a) + nvidia_models(
                    b.drop_last(),
                )).push(m));
            },
            None => {},
        }
    }
}

/// One line of `nvidia-smi -L` gives at most one model: the one it names.
pub proof fn lemma_nvidia_one_line(line: Seq<char>)
    ensures
        nvidia_models(seq![line]) == match nvidia_model(line) {
            Some(m) => seq![m],
            None => Seq::<Seq<char>>::empty(),
        },
{
    assert(seq![line].drop_last() =~= Seq::<Seq<char>>::empty());
    assert(seq![line].last() == line);
    assert(nvidia_models(Seq::<Seq<char>>::empty()) == Seq::<Seq<char>>::empty());
    assert(Seq::<Seq<char>>::empty().push(line) =~= seq![line]);
}


/// `/dev/dxg` or the word `microsoft` in the kernel string means WSL;
/// otherwise an empty kernel string is `unknown` and any other `linux`.
pub proof fn lemma_platform_rules(lowered: Seq<char>, empty: bool, dxg: bool)
    ensures
        dxg ==> platform_of(lowered, empty, dxg) == "wsl"@,
        contains(lowered, "microsoft"@) ==> platform_of(lowered, empty, dxg) == "wsl"@,
        !dxg && !contains(lowered, "microsoft"@) && empty ==> platform_of(lowered, empty, dxg)
            == "unknown"@,
        !dxg && !contains(lowered, "microsoft"@) && !empty ==> platform_of(lowered, empty, dxg)
            == "linux"@,
{
}

/// The vendor of a lowercase description: `nvidia` wherever it appears
/// wins; then the AMD markers; then `intel`; `unknown` exactly when none
/// of them appears.
pub proof fn lemma_vendor_rules(v: Seq<char>)
    ensures
        contains(v, "nvidia"@) ==> vendor_in_lowercase(v) == "nvidia"@,
        !contains(v, "nvidia"@) && (contains(v, "advanced micro"@) || contains(v, "amd/ati"@)
            || contains(v, " amd "@)) ==> vendor_in_lowercase(v) == "amd"@,
        !contains(v, "nvidia"@) && !contains(v, "advanced micro"@) && !contains(v, "amd/ati"@)
            && !contains(v, " amd "@) && contains(v, "intel"@) ==> vendor_in_lowercase(v)
            == "intel"@,
        !contains(v, "nvidia"@) && !contains(v, "advanced micro"@) && !contains(v, "amd/ati"@)
            && !contains(v, " amd "@) && !contains(v, "intel"@) ==> vendor_in_lowercase(v)
            == "unknown"@,
{
}

/// A lowercase name is a software rasteriser's exactly when it mentions
/// llvmpipe, lavapipe, softpipe or swiftshader.
pub proof fn lemma_software_rules(l: Seq<char>)
    ensures
        is_software_lowercase(l) <==> (contains(l, "llvmpipe"@) || contains(l, "lavapipe"@)
            || contains(l, "softpipe"@) || contains(l, "swiftshader"@)),
{
}

/// `deviceName` and `deviceType` lines set the name and the type of the
/// device being read to their trimmed values and change nothing else.
pub proof fn lemma_vulkan_name_and_type(
    st: VulkanScan,
    line: Seq<char>,
    key: Seq<char>,
    value: Seq<char>,
)
    requires
        !is_section_header(line),
        split_once(line, '=') == Some((key, value)),
    ensures
        trim(key) == "deviceName"@ ==> scan_line(st, line).name == Some(trim(value))
            && scan_line(st, line).device_type == st.device_type && scan_line(st, line).driver
            == st.driver && scan_line(st, line).devices == st.devices,
        trim(key) == "deviceType"@ ==> scan_line(st, line).device_type == Some(trim(value))
            && scan_line(st, line).name == st.name && scan_line(st, line).driver == st.driver
            && scan_line(st, line).devices == st.devices,
{
    reveal_strlit("deviceName");
    reveal_strlit("deviceType");
    assert("deviceType"@ != "deviceName"@) by {
        assert("deviceType"@[6] != "deviceName"@[6]);
    }
}

/// A section header closes the device being read: a named device is added
/// at the end with the name, type and driver read for it, and the next
/// device starts with nothing read; without a name nothing is added.
pub proof fn lemma_vulkan_section_header(st: VulkanScan, line: Seq<char>)
    requires
        is_section_header(line),
    ensures
        st.name is None ==> scan_line(st, line).devices == st.devices,
        st.name matches Some(n) ==> {
            let after = scan_line(st, line);
            &&& after.devices.len() == st.devices.len() + 1
            &&& after.devices.take(st.devices.len() as int) == st.devices
            &&& after.devices.last().name == n
            &&& after.devices.last().device_type == st.device_type
            &&& after.devices.last().driver == st.driver
            &&& after.name is None && after.device_type is None && after.driver is None
        },
{
    if let Some(n) = st.name {
        let after = scan_line(st, line);
        assert(after.devices.take(st.devices.len() as int) =~= st.devices);
    }
}

/// Reading `lspci` output line by line: the GPUs of two pieces of output
/// are those of the first followed by those of the second.
pub proof fn lemma_lspci_concat(a: Seq<Seq<char>>, b: Seq<Seq<char>>)
    ensures
        lspci_listing(a + b) == lspci_listing(a) + lspci_listing(b),
    decreases b.len(),
{
    if b.len() == 0 {
        assert(a + b =~= a);
        assert(lspci_listing(a) + lspci_listing(b) =~= lspci_listing(a));
    } else {
        lemma_lspci_concat(a, b.drop_last());
        assert((a + b).drop_last() =~= a + b.drop_last());
        assert((a + b).last() == b.last());
        match lspci_device(b.last()) {
            Some(d) => {
                assert(lspci_listing(a) + lspci_listing(b) =~= (lspci_listing(a) + lspci_listing(
                    b.drop_last(),
                )).push(d));
            },
            None => {},
        }
    }
}

/// Indented `lspci` lines and lines that name no display controller give
/// no GPU; a display controller line of a known vendor gives one, whose
/// model is the trimmed line.
pub proof fn lemma_lspci_lines(line: Seq<char>)
    ensures
        line.len() > 0 && is_white(line[0]) ==> lspci_device(line) is None,
        !is_display_class(line) ==> lspci_device(line) is None,
        !(line.len() > 0 && is_white(line[0])) && is_display_class(line) && vendor_name(line)
            != "unknown"@ ==> lspci_device(line) == Some(
            GpuDeviceView {
                vendor: vendor_name(line),
                model: trim(line),
                pci_id: None,
                driver: None,
                source: "lspci"@,
            },
        ),
{
}

/// Reading `/sys/class/drm` entry by entry: the GPUs of two lists of
/// entries are those of the first followed by those of the second.
pub proof fn lemma_sysfs_concat(a: Seq<DrmEntryView>, b: Seq<DrmEntryView>)
    ensures
        sysfs_listing(a + b) == sysfs_listing(a) + sysfs_listing(b),
    decreases b.len(),
{
    if b.len() == 0 {
        assert(a + b =~= a);
        assert(sysfs_listing(a) + sysfs_listing(b) =~= sysfs_listing(a));
    } else {
        lemma_sysfs_concat(a, b.drop_last());
        assert((a + b).drop_last() =~= a + b.drop_last());
        assert((a + b).last() == b.last());
        match sysfs_device(b.last()) {
            Some(d) => {
                assert(sysfs_listing(a) + sysfs_listing(b) =~= (sysfs_listing(a) + sysfs_listing(
                    b.drop_last(),
                )).push(d));
            },
            None => {},
        }
    }
}

/// Only card entries give GPUs: an entry whose name does not start with
/// `card`, or has a `-` after it (a connector), gives none. A card gives
/// one named after the entry, with its driver, and with a PCI id exactly
/// when the trimmed vendor id is not empty.
pub proof fn lemma_sysfs_cards(e: DrmEntryView)
    ensures
        !starts_with(e.name, "card"@) ==> sysfs_device(e) is None,
        contains(e.name.skip("card"@.len() as int), "-"@) ==> sysfs_device(e) is None,
        is_card_name(e.name) ==> sysfs_device(e) is Some && sysfs_device(e)->0.model == e.name
            && sysfs_device(e)->0.driver == e.driver && sysfs_device(e)->0.source == "sysfs"@
            && (sysfs_device(e)->0.pci_id is Some <==> trim(e.vendor_id).len() > 0),
{
}

/// The distribution is named by the first `ID=` line: a later one never
/// overrides it.
pub proof fn lemma_first_id_wins(a: Seq<Seq<char>>, b: Seq<Seq<char>>)
    ensures
        first_id(a + b) == (match first_id(a) {
            Some(v) => Some(v),
            None => first_id(b),
        }),
    decreases a.len(),
{
    if a.len() == 0 {
        assert(a + b =~= b);
    } else {
        assert((a + b)[0] == a[0]);
        assert((a + b).drop_first() =~= a.drop_first() + b);
        lemma_first_id_wins(a.drop_first(), b);
    }
}

/// An `ID=` line names the distribution with its surrounding quotes
/// removed; other lines name none.
pub proof fn lemma_id_line(line: Seq<char>, key: Seq<char>, value: Seq<char>)
    requires
        split_once(line, '=') == Some((key, value)),
    ensures
        key == "ID"@ ==> id_value(line) == Some(trim_by(value, Strip::Only('"'))),
        key != "ID"@ ==> id_value(line) is None,
{
}

/// Filtering candidates by what was found keeps exactly the found ones, in
/// the candidates' order: filtering two lists is filtering each.
pub proof fn lemma_keep_found_concat(a: Seq<Seq<char>>, b: Seq<Seq<char>>, found: Seq<Seq<char>>)
    ensures
        keep_found(a + b, found) == keep_found(a, found) + keep_found(b, found),
    decreases b.len(),
{
    if b.len() == 0 {
        assert(a + b =~= a);
        assert(keep_found(a, found) + keep_found(b, found) =~= keep_found(a, found));
    } else {
        lemma_keep_found_concat(a, b.drop_last(), found);
        assert((a + b).drop_last() =~= a + b.drop_last());
        assert((a + b).last() == b.last());
        if found.contains(b.last()) {
            assert(keep_found(a, found) + keep_found(b, found) =~= (keep_found(a, found)
                + keep_found(b.drop_last(), found)).push(b.last()));
        }
    }
}

/// Everything kept was found and was a candidate.
pub proof fn lemma_keep_found_members(cands: Seq<Seq<char>>, found: Seq<Seq<char>>)
    ensures
        forall|i: int|
            0 <= i < keep_found(cands, found).len() ==> found.contains(
                #[trigger] keep_found(cands, found)[i],
            ) && cands.contains(keep_found(cands, found)[i]),
    decreases cands.len(),
{
    if cands.len() > 0 {
        lemma_keep_found_members(cands.drop_last(), found);
        let r = keep_found(cands.drop_last(), found);
        assert forall|i: int| 0 <= i < keep_found(cands, found).len() implies found.contains(
            #[trigger] keep_found(cands, found)[i],
        ) && cands.contains(keep_found(cands, found)[i]) by {
            if i < r.len() {
                assert(keep_found(cands, found)[i] == r[i]);
                let k = choose|k: int|
                    0 <= k < cands.drop_last().len() && cands.drop_last()[k] == r[i];
                assert(cands[k] == r[i]);
            } else {
                assert(cands[cands.len() - 1] == cands.last());
            }
        }
    }
}


/// No device typed as the CPU (`PHYSICAL_DEVICE_TYPE_CPU` or `CPU`) and no
/// device whose lowercase name mentions llvmpipe, lavapipe, softpipe or
/// swiftshader is reported as hardware; every other device is.
pub proof fn lemma_vulkan_hardware_rules(output: Seq<char>)
    ensures
        forall|i: int|
            0 <= i < vulkan_summary(output).len() ==> {
                let d = #[trigger] vulkan_summary(output)[i];
                let l = lowercase(d.name);
                d.hardware <==> !(d.device_type == Some("PHYSICAL_DEVICE_TYPE_CPU"@) || d.device_type
                    == Some("CPU"@) || contains(l, "llvmpipe"@) || contains(l, "lavapipe"@)
                    || contains(l, "softpipe"@) || contains(l, "swiftshader"@))
            },
{
    lemma_software_vulkan_is_not_hardware(output);
}

/// The device still being read when the output ends is reported too, last;
/// without a name it is not.
pub proof fn lemma_last_device_reported(output: Seq<char>)
    ensures
        scan_lines(lines(output)).name matches Some(n) ==> vulkan_summary(output).len()
            == scan_lines(lines(output)).devices.len() + 1 && vulkan_summary(output).last().name
            == n,
        scan_lines(lines(output)).name is None ==> vulkan_summary(output) == scan_lines(
            lines(output),
        ).devices,
{
}

/// Model names read from `nvidia-smi -L` are not empty and neither start
/// nor end with white space.
pub proof fn lemma_nvidia_models_trimmed(ls: Seq<Seq<char>>)
    ensures
        forall|i: int|
            0 <= i < nvidia_models(ls).len() ==> {
                let m = #[trigger] nvidia_models(ls)[i];
                m.len() > 0 && !is_white(m[0]) && !is_white(m.last())
            },
    decreases ls.len(),
{
    if ls.len() > 0 {
        lemma_nvidia_models_trimmed(ls.drop_last());
        let r = nvidia_models(ls.drop_last());
        if let Some((_k, v)) = split_once(ls.last(), ':') {
            let x = before_first(v, " (UUID"@);
            lemma_trim_shape(x, Strip::Whitespace);
            let (lo, hi) = choose|lo: int, hi: int|
                0 <= lo <= hi <= x.len() && #[trigger] trim_by(x, Strip::Whitespace) == x.subrange(
                    lo,
                    hi,
                ) && (forall|i: int| 0 <= i < lo ==> strips(Strip::Whitespace, #[trigger] x[i]))
                    && (forall|i: int| hi <= i < x.len() ==> strips(Strip::Whitespace, #[trigger] x[i]))
                    && (lo < hi ==> !strips(Strip::Whitespace, x[lo]) && !strips(
                    Strip::Whitespace,
                    x[hi - 1],
                ));
            let m = trim(x);
            if m.len() > 0 {
                assert(m[0] == x[lo]);
                assert(m.last() == x[hi - 1]);
            }
        }
        assert forall|i: int| 0 <= i < nvidia_models(ls).len() implies {
            let m = #[trigger] nvidia_models(ls)[i];
            m.len() > 0 && !is_white(m[0]) && !is_white(m.last())
        } by {
            if i < r.len() {
                assert(nvidia_models(ls)[i] == r[i]);
            }
        }
    }
}

} // verus!
