//! Allowlisted Linux repair plans.
use vstd::prelude::*;

use crate::models::{CommandPlan, CommandPlanView, RepairPlan, RepairPlanView, SystemReport, SystemReportView};
use crate::probe::{is_found, package_manager_commands};
use crate::text::{str_eq, string_views};

verus! {

/// A plan that runs nothing.
pub open spec fn no_plan_view(status: Seq<char>, message: Seq<char>) -> RepairPlanView {
    RepairPlanView { status, message, commands: seq![] }
}

/// A plan that runs one privileged command, for the reason it states.
pub open spec fn ready_view(message: Seq<char>, argv: Seq<Seq<char>>) -> RepairPlanView {
    RepairPlanView {
        status: "READY"@,
        message,
        commands: seq![CommandPlanView { argv, reason: message, privileged: true }],
    }
}

pub open spec fn amd_or_intel(vendor: Seq<char>) -> bool {
    vendor == "amd"@ || vendor == "intel"@
}

/// The Vulkan packages that repair a GPU of `vendor` with `manager`; none
/// where no recipe is known.
pub open spec fn recipe_packages(manager: Seq<char>, vendor: Seq<char>) -> Seq<Seq<char>> {
    if manager == "apt-get"@ && amd_or_intel(vendor) {
        seq!["mesa-vulkan-drivers"@, "vulkan-tools"@]
    } else if manager == "dnf"@ && amd_or_intel(vendor) {
        seq!["mesa-vulkan-drivers"@, "vulkan-tools"@]
    } else if manager == "pacman"@ && vendor == "amd"@ {
        seq!["vulkan-tools"@, "vulkan-radeon"@]
    } else if manager == "pacman"@ && vendor == "intel"@ {
        seq!["vulkan-tools"@, "vulkan-intel"@]
    } else if manager == "zypper"@ && amd_or_intel(vendor) {
        seq!["Mesa-vulkan-drivers"@, "vulkan-tools"@]
    } else if manager == "apk"@ && amd_or_intel(vendor) {
        seq!["mesa-vulkan-lavapipe"@, "vulkan-tools"@]
    } else {
        seq![]
    }
}

/// The command that installs the distribution's signed NVIDIA driver.
pub open spec fn ubuntu_drivers_argv() -> Seq<Seq<char>> {
    seq!["sudo"@, "ubuntu-drivers"@, "install"@]
}

/// The command that installs `packages` with `manager`.
pub open spec fn install_argv(manager: Seq<char>, packages: Seq<Seq<char>>) -> Seq<Seq<char>> {
    seq!["sudo"@, manager, "install"@, "-y"@] + packages
}

pub open spec fn wsl_message() -> Seq<char> {
    "WSL GPU driver state is controlled by the Windows side; no Linux NVIDIA kernel driver will be installed."@
}

/// The repair that a report calls for.
pub open spec fn repair_plan(r: SystemReportView) -> RepairPlanView {
    if r.devices.len() == 0 {
        no_plan_view("NO_DEVICE"@, "No supported GPU was detected."@)
    } else if r.platform == "wsl"@ {
        no_plan_view(
            if r.nvidia_smi {
                "WSL_WINDOWS_DRIVER_PRESENT_VULKAN_MISSING"@
            } else {
                "WSL_WINDOWS_DRIVER_REQUIRED"@
            },
            wsl_message(),
        )
    } else if r.package_managers.len() == 0 {
        no_plan_view(
            "PACKAGE_PROVIDER_UNAVAILABLE"@,
            "No supported package manager was detected."@,
        )
    } else {
        let manager = r.package_managers[0];
        let vendor = r.devices[0].vendor;
        if vendor == "nvidia"@ && r.distribution == Some("ubuntu"@)
            && r.available_commands.contains("ubuntu-drivers"@) {
            ready_view("Use the distribution's signed NVIDIA driver selector."@, ubuntu_drivers_argv())
        } else {
            let packages = recipe_packages(manager, vendor);
            if packages.len() == 0 {
                no_plan_view(
                    "DRIVER_PACKAGE_UNAVAILABLE"@,
                    "No verified repair recipe is available for this GPU and package manager."@,
                )
            } else {
                RepairPlanView {
                    status: "READY"@,
                    message: "Install Vulkan user-space packages for "@ + vendor + "."@,
                    commands: seq![
                        CommandPlanView {
                            argv: install_argv(manager, packages),
                            reason: "Use packages from the detected distribution."@,
                            privileged: true,
                        },
                    ],
                }
            }
        }
    }
}

/// A plan that runs nothing.
fn no_plan(status: &str, message: &str) -> (r: RepairPlan)
    ensures
        r@ == no_plan_view(status@, message@),
{
    let r = RepairPlan {
        status: String::from_str(status),
        message: String::from_str(message),
        commands: Vec::new(),
    };
    assert(r@.commands =~= Seq::<CommandPlanView>::empty());
    r
}

/// Strings for the given words.
fn owned_words(words: Vec<&str>) -> (r: Vec<String>)
    ensures
        string_views(r@) == words@.map_values(|w: &str| w@),
{
    let mut r: Vec<String> = Vec::new();
    let mut i: usize = 0;
    while i < words.len()
        invariant
            i <= words@.len(),
            string_views(r@) == words@.take(i as int).map_values(|w: &str| w@),
        decreases words@.len() - i,
    {
        let ghost before = string_views(r@);
        r.push(String::from_str(words[i]));
        assert(string_views(r@) =~= before.push(words@[i as int]@));
        assert(words@.take(i + 1).map_values(|w: &str| w@) =~= words@.take(i as int).map_values(
            |w: &str| w@,
        ).push(words@[i as int]@));
        i += 1;
    }
    assert(words@.take(i as int) =~= words@);
    r
}

/// A plan that runs one privileged command, for the reason it states.
fn ready(message: &str, argv: Vec<&str>) -> (r: RepairPlan)
    ensures
        r@ == ready_view(message@, argv@.map_values(|w: &str| w@)),
{
    let words = owned_words(argv);
    let c = CommandPlan {
        argv: words,
        reason: String::from_str(message),
        privileged: true,
    };
    let mut commands: Vec<CommandPlan> = Vec::new();
    commands.push(c);
    let r = RepairPlan { status: String::from_str("READY"), message: String::from_str(message), commands };
    assert(r@.commands =~= seq![c@]);
    r
}

/// The packages of the recipe for `manager` and `vendor`.
fn recipe(manager: &str, vendor: &str) -> (r: Vec<String>)
    ensures
        string_views(r@) == recipe_packages(manager@, vendor@),
{
    let amd = str_eq(vendor, "amd");
    let intel = str_eq(vendor, "intel");
    let words: Vec<&str> = if str_eq(manager, "apt-get") && (amd || intel) {
        vec!["mesa-vulkan-drivers", "vulkan-tools"]
    } else if str_eq(manager, "dnf") && (amd || intel) {
        vec!["mesa-vulkan-drivers", "vulkan-tools"]
    } else if str_eq(manager, "pacman") && amd {
        vec!["vulkan-tools", "vulkan-radeon"]
    } else if str_eq(manager, "pacman") && intel {
        vec!["vulkan-tools", "vulkan-intel"]
    } else if str_eq(manager, "zypper") && (amd || intel) {
        vec!["Mesa-vulkan-drivers", "vulkan-tools"]
    } else if str_eq(manager, "apk") && (amd || intel) {
        vec!["mesa-vulkan-lavapipe", "vulkan-tools"]
    } else {
        Vec::new()
    };
    let r = owned_words(words);
    assert(string_views(r@) =~= recipe_packages(manager@, vendor@));
    r
}

/// Select a safe package action from a detected system report.
pub fn plan_repair(report: &SystemReport) -> (r: RepairPlan)
    ensures
        r@ == repair_plan(report@),
{
    if report.devices.len() == 0 {
        return no_plan("NO_DEVICE", "No supported GPU was detected.");
    }
    if str_eq(report.platform.as_str(), "wsl") {
        let status = if report.nvidia_smi {
            "WSL_WINDOWS_DRIVER_PRESENT_VULKAN_MISSING"
        } else {
            "WSL_WINDOWS_DRIVER_REQUIRED"
        };
        return no_plan(
            status,
            "WSL GPU driver state is controlled by the Windows side; no Linux NVIDIA kernel driver will be installed.",
        );
    }
    if report.package_managers.len() == 0 {
        return no_plan(
            "PACKAGE_PROVIDER_UNAVAILABLE",
            "No supported package manager was detected.",
        );
    }
    let manager = &report.package_managers[0];
    let vendor = &report.devices[0].vendor;
    assert(report@.package_managers[0] == manager@);
    assert(report@.devices[0].vendor == vendor@);
    let on_ubuntu = match &report.distribution {
        Some(d) => str_eq(d.as_str(), "ubuntu"),
        None => false,
    };
    if str_eq(vendor.as_str(), "nvidia") && on_ubuntu && is_found(
        &report.available_commands,
        "ubuntu-drivers",
    ) {
        let words = vec!["sudo", "ubuntu-drivers", "install"];
        assert(words@.map_values(|w: &str| w@) =~= ubuntu_drivers_argv());
        return ready("Use the distribution's signed NVIDIA driver selector.", words);
    }
    let packages = recipe(manager.as_str(), vendor.as_str());
    if packages.len() == 0 {
        return no_plan(
            "DRIVER_PACKAGE_UNAVAILABLE",
            "No verified repair recipe is available for this GPU and package manager.",
        );
    }
    let mut argv: Vec<String> = Vec::new();
    argv.push(String::from_str("sudo"));
    argv.push(manager.clone());
    argv.push(String::from_str("install"));
    argv.push(String::from_str("-y"));
    let mut i: usize = 0;
    let ghost pk = string_views(packages@);
    let ghost head = seq!["sudo"@, manager@, "install"@, "-y"@];
    assert(string_views(argv@) =~= head + pk.take(0));
    while i < packages.len()
        invariant
            i <= packages@.len(),
            pk == string_views(packages@),
            string_views(argv@) == head + pk.take(i as int),
        decreases packages@.len() - i,
    {
        let ghost before = string_views(argv@);
        argv.push(packages[i].clone());
        assert(string_views(argv@) =~= before.push(pk[i as int]));
        assert(head + pk.take(i + 1) =~= (head + pk.take(i as int)).push(pk[i as int]));
        i += 1;
    }
    assert(pk.take(i as int) =~= pk);
    let mut message = String::from_str("Install Vulkan user-space packages for ");
    message.append(vendor.as_str());
    message.append(".");
    let c = CommandPlan {
        argv,
        reason: String::from_str("Use packages from the detected distribution."),
        privileged: true,
    };
    let mut commands: Vec<CommandPlan> = Vec::new();
    commands.push(c);
    let r = RepairPlan { status: String::from_str("READY"), message, commands };
    assert(r@.commands =~= seq![c@]);
    r
}


/// An argument vector that the planner may propose: the distribution's
/// NVIDIA driver selector, or the install command of a known package
/// manager for a known recipe.
pub open spec fn allowlisted(argv: Seq<Seq<char>>) -> bool {
    ||| argv == ubuntu_drivers_argv()
    ||| exists|manager: Seq<char>, vendor: Seq<char>|
        package_manager_commands().contains(manager) && #[trigger] recipe_packages(
            manager,
            vendor,
        ).len() > 0 && argv == install_argv(manager, recipe_packages(manager, vendor))
}

/// A recipe exists only for the known package managers.
pub proof fn lemma_recipes_use_known_managers(manager: Seq<char>, vendor: Seq<char>)
    requires
        recipe_packages(manager, vendor).len() > 0,
    ensures
        package_manager_commands().contains(manager),
{
    let pm = package_manager_commands();
    if manager == "apt-get"@ {
        assert(pm[0] == manager);
    } else if manager == "dnf"@ {
        assert(pm[1] == manager);
    } else if manager == "pacman"@ {
        assert(pm[2] == manager);
    } else if manager == "zypper"@ {
        assert(pm[3] == manager);
    } else {
        assert(pm[4] == manager);
    }
}

/// No arbitrary command is ever proposed: every command of a plan is
/// allowlisted and runs with privileges, and a plan holds at most one.
pub proof fn lemma_plans_are_allowlisted(report: SystemReportView)
    ensures
        repair_plan(report).commands.len() <= 1,
        forall|i: int|
            0 <= i < repair_plan(report).commands.len() ==> allowlisted(
                #[trigger] repair_plan(report).commands[i].argv,
            ) && repair_plan(report).commands[i].privileged,
{
    let plan = repair_plan(report);
    if plan.commands.len() > 0 && plan.commands[0].argv != ubuntu_drivers_argv() {
        let manager = report.package_managers[0];
        let vendor = report.devices[0].vendor;
        lemma_recipes_use_known_managers(manager, vendor);
        assert(recipe_packages(manager, vendor).len() > 0);
    }
}

/// A plan is `READY` exactly when it proposes a command.
pub proof fn lemma_ready_iff_command(report: SystemReportView)
    ensures
        (repair_plan(report).status == "READY"@) <==> repair_plan(report).commands.len() > 0,
{
    reveal_strlit("READY");
    reveal_strlit("NO_DEVICE");
    reveal_strlit("WSL_WINDOWS_DRIVER_PRESENT_VULKAN_MISSING");
    reveal_strlit("WSL_WINDOWS_DRIVER_REQUIRED");
    reveal_strlit("PACKAGE_PROVIDER_UNAVAILABLE");
    reveal_strlit("DRIVER_PACKAGE_UNAVAILABLE");
    assert("NO_DEVICE"@ != "READY"@) by {
        assert("NO_DEVICE"@.len() != "READY"@.len());
    }
    assert("WSL_WINDOWS_DRIVER_PRESENT_VULKAN_MISSING"@ != "READY"@) by {
        assert("WSL_WINDOWS_DRIVER_PRESENT_VULKAN_MISSING"@.len() != "READY"@.len());
    }
    assert("WSL_WINDOWS_DRIVER_REQUIRED"@ != "READY"@) by {
        assert("WSL_WINDOWS_DRIVER_REQUIRED"@.len() != "READY"@.len());
    }
    assert("PACKAGE_PROVIDER_UNAVAILABLE"@ != "READY"@) by {
        assert("PACKAGE_PROVIDER_UNAVAILABLE"@.len() != "READY"@.len());
    }
    assert("DRIVER_PACKAGE_UNAVAILABLE"@ != "READY"@) by {
        assert("DRIVER_PACKAGE_UNAVAILABLE"@.len() != "READY"@.len());
    }
}

/// On WSL the GPU driver belongs to the Windows side: no plan for a WSL
/// report installs anything.
pub proof fn lemma_wsl_never_installs(report: SystemReportView)
    requires
        report.platform == "wsl"@,
    ensures
        repair_plan(report).commands.len() == 0,
        repair_plan(report).status != "READY"@,
{
    lemma_ready_iff_command(report);
}


/// The preconditions of a Vulkan package install: a GPU, not WSL, a
/// package manager, and a GPU made by AMD or Intel.
pub open spec fn install_case(report: SystemReportView, manager: Seq<char>, vendor: Seq<char>) -> bool {
    &&& report.devices.len() > 0
    &&& report.platform != "wsl"@
    &&& report.package_managers.len() > 0
    &&& report.package_managers[0] == manager
    &&& report.devices[0].vendor == vendor
}

/// The concrete recipe table: for each known package manager and each GPU
/// vendor it serves, the plan is `READY` and installs exactly these
/// packages with one privileged command.
pub proof fn lemma_vulkan_recipe_table(report: SystemReportView)
    ensures
        (install_case(report, "apt-get"@, "amd"@) || install_case(report, "apt-get"@, "intel"@))
            ==> repair_plan(report).status == "READY"@ && repair_plan(report).commands.len() == 1
            && repair_plan(report).commands[0].privileged && repair_plan(report).commands[0].argv
            == seq!["sudo"@, "apt-get"@, "install"@, "-y"@, "mesa-vulkan-drivers"@, "vulkan-tools"@],
        (install_case(report, "dnf"@, "amd"@) || install_case(report, "dnf"@, "intel"@))
            ==> repair_plan(report).status == "READY"@ && repair_plan(report).commands.len() == 1
            && repair_plan(report).commands[0].privileged && repair_plan(report).commands[0].argv
            == seq!["sudo"@, "dnf"@, "install"@, "-y"@, "mesa-vulkan-drivers"@, "vulkan-tools"@],
        install_case(report, "pacman"@, "amd"@) ==> repair_plan(report).status == "READY"@
            && repair_plan(report).commands.len() == 1 && repair_plan(report).commands[0].privileged
            && repair_plan(report).commands[0].argv
            == seq!["sudo"@, "pacman"@, "install"@, "-y"@, "vulkan-tools"@, "vulkan-radeon"@],
        install_case(report, "pacman"@, "intel"@) ==> repair_plan(report).status == "READY"@
            && repair_plan(report).commands.len() == 1 && repair_plan(report).commands[0].privileged
            && repair_plan(report).commands[0].argv
            == seq!["sudo"@, "pacman"@, "install"@, "-y"@, "vulkan-tools"@, "vulkan-intel"@],
        (install_case(report, "zypper"@, "amd"@) || install_case(report, "zypper"@, "intel"@))
            ==> repair_plan(report).status == "READY"@ && repair_plan(report).commands.len() == 1
            && repair_plan(report).commands[0].privileged && repair_plan(report).commands[0].argv
            == seq!["sudo"@, "zypper"@, "install"@, "-y"@, "Mesa-vulkan-drivers"@, "vulkan-tools"@],
        (install_case(report, "apk"@, "amd"@) || install_case(report, "apk"@, "intel"@))
            ==> repair_plan(report).status == "READY"@ && repair_plan(report).commands.len() == 1
            && repair_plan(report).commands[0].privileged && repair_plan(report).commands[0].argv
            == seq!["sudo"@, "apk"@, "install"@, "-y"@, "mesa-vulkan-lavapipe"@, "vulkan-tools"@],
{
    reveal_strlit("apt-get");
    reveal_strlit("dnf");
    reveal_strlit("pacman");
    reveal_strlit("zypper");
    reveal_strlit("apk");
    reveal_strlit("amd");
    reveal_strlit("intel");
    reveal_strlit("nvidia");
    assert("pacman"@ != "apt-get"@) by {
        assert("pacman"@.len() != "apt-get"@.len());
    }
    assert("pacman"@ != "dnf"@) by {
        assert("pacman"@.len() != "dnf"@.len());
    }
    assert("amd"@ != "nvidia"@) by {
        assert("amd"@.len() != "nvidia"@.len());
    }
    assert("intel"@ != "nvidia"@) by {
        assert("intel"@.len() != "nvidia"@.len());
    }
    assert("intel"@ != "amd"@) by {
        assert("intel"@.len() != "amd"@.len());
    }
    assert("zypper"@ != "apt-get"@) by {
        assert("zypper"@.len() != "apt-get"@.len());
    }
    assert("zypper"@ != "dnf"@) by {
        assert("zypper"@.len() != "dnf"@.len());
    }
    assert("zypper"@ != "pacman"@) by {
        assert("zypper"@[0] != "pacman"@[0]);
    }
    assert("apk"@ != "apt-get"@) by {
        assert("apk"@.len() != "apt-get"@.len());
    }
    assert("apk"@ != "dnf"@) by {
        assert("apk"@[0] != "dnf"@[0]);
    }
    assert("apk"@ != "pacman"@) by {
        assert("apk"@.len() != "pacman"@.len());
    }
    assert("apk"@ != "zypper"@) by {
        assert("apk"@.len() != "zypper"@.len());
    }
    let pk1 = seq!["mesa-vulkan-drivers"@, "vulkan-tools"@];
    assert(seq!["sudo"@, "apt-get"@, "install"@, "-y"@] + pk1 =~= seq![
        "sudo"@,
        "apt-get"@,
        "install"@,
        "-y"@,
        "mesa-vulkan-drivers"@,
        "vulkan-tools"@,
    ]);
    assert(seq!["sudo"@, "dnf"@, "install"@, "-y"@] + pk1 =~= seq![
        "sudo"@,
        "dnf"@,
        "install"@,
        "-y"@,
        "mesa-vulkan-drivers"@,
        "vulkan-tools"@,
    ]);
    assert(seq!["sudo"@, "pacman"@, "install"@, "-y"@] + seq!["vulkan-tools"@, "vulkan-radeon"@]
        =~= seq!["sudo"@, "pacman"@, "install"@, "-y"@, "vulkan-tools"@, "vulkan-radeon"@]);
    assert(seq!["sudo"@, "pacman"@, "install"@, "-y"@] + seq!["vulkan-tools"@, "vulkan-intel"@]
        =~= seq!["sudo"@, "pacman"@, "install"@, "-y"@, "vulkan-tools"@, "vulkan-intel"@]);
    assert(seq!["sudo"@, "zypper"@, "install"@, "-y"@] + seq![
        "Mesa-vulkan-drivers"@,
        "vulkan-tools"@,
    ] =~= seq!["sudo"@, "zypper"@, "install"@, "-y"@, "Mesa-vulkan-drivers"@, "vulkan-tools"@]);
    assert(seq!["sudo"@, "apk"@, "install"@, "-y"@] + seq![
        "mesa-vulkan-lavapipe"@,
        "vulkan-tools"@,
    ] =~= seq!["sudo"@, "apk"@, "install"@, "-y"@, "mesa-vulkan-lavapipe"@, "vulkan-tools"@]);
}


/// Why a report gets no install command: no GPU, WSL (whose driver belongs
/// to Windows), or no package manager; each refusal runs nothing.
pub proof fn lemma_plan_refusals(report: SystemReportView)
    ensures
        report.devices.len() == 0 ==> repair_plan(report).status == "NO_DEVICE"@
            && repair_plan(report).commands.len() == 0,
        report.devices.len() > 0 && report.platform == "wsl"@ ==> repair_plan(report).status == (
        if report.nvidia_smi {
            "WSL_WINDOWS_DRIVER_PRESENT_VULKAN_MISSING"@
        } else {
            "WSL_WINDOWS_DRIVER_REQUIRED"@
        }) && repair_plan(report).commands.len() == 0,
        report.devices.len() > 0 && report.platform != "wsl"@ && report.package_managers.len() == 0
            ==> repair_plan(report).status == "PACKAGE_PROVIDER_UNAVAILABLE"@
            && repair_plan(report).commands.len() == 0,
{
}

/// On Ubuntu with `ubuntu-drivers` available, an NVIDIA GPU gets the
/// distribution's signed driver selector, whatever the package manager.
pub proof fn lemma_ubuntu_nvidia(report: SystemReportView)
    requires
        report.devices.len() > 0,
        report.platform != "wsl"@,
        report.package_managers.len() > 0,
        report.devices[0].vendor == "nvidia"@,
        report.distribution == Some("ubuntu"@),
        report.available_commands.contains("ubuntu-drivers"@),
    ensures
        repair_plan(report).status == "READY"@,
        repair_plan(report).commands.len() == 1,
        repair_plan(report).commands[0].argv == seq!["sudo"@, "ubuntu-drivers"@, "install"@],
        repair_plan(report).commands[0].privileged,
{
}

/// Without a recipe there is no install: a GPU that is neither AMD nor
/// Intel (outside the Ubuntu NVIDIA case), or a package manager other than
/// apt-get, dnf, pacman, zypper and apk, gets `DRIVER_PACKAGE_UNAVAILABLE`
/// and no command.
pub proof fn lemma_no_recipe(report: SystemReportView)
    requires
        report.devices.len() > 0,
        report.platform != "wsl"@,
        report.package_managers.len() > 0,
        !(report.devices[0].vendor == "nvidia"@ && report.distribution == Some("ubuntu"@)
            && report.available_commands.contains("ubuntu-drivers"@)),
        (report.devices[0].vendor != "amd"@ && report.devices[0].vendor != "intel"@)
            || !package_manager_commands().contains(report.package_managers[0]),
    ensures
        repair_plan(report).status == "DRIVER_PACKAGE_UNAVAILABLE"@,
        repair_plan(report).commands.len() == 0,
{
    let m = report.package_managers[0];
    let v = report.devices[0].vendor;
    if recipe_packages(m, v).len() > 0 {
        lemma_recipes_use_known_managers(m, v);
    }
}

/// An install plan names the GPU's vendor in its message.
pub proof fn lemma_install_message(report: SystemReportView)
    requires
        report.devices.len() > 0,
        report.platform != "wsl"@,
        report.package_managers.len() > 0,
        report.devices[0].vendor == "amd"@ || report.devices[0].vendor == "intel"@,
        package_manager_commands().contains(report.package_managers[0]),
    ensures
        repair_plan(report).status == "READY"@,
        repair_plan(report).message == "Install Vulkan user-space packages for "@
            + report.devices[0].vendor + "."@,
        repair_plan(report).commands[0].reason == "Use packages from the detected distribution."@,
{
    reveal_strlit("amd");
    reveal_strlit("intel");
    reveal_strlit("nvidia");
    assert("amd"@ != "nvidia"@) by {
        assert("amd"@.len() != "nvidia"@.len());
    }
    assert("intel"@ != "nvidia"@) by {
        assert("intel"@.len() != "nvidia"@.len());
    }
    let m = report.package_managers[0];
    let pm = package_manager_commands();
    let k = choose|k: int| 0 <= k < pm.len() && pm[k] == m;
    assert(k == 0 || k == 1 || k == 2 || k == 3 || k == 4);
}

} // verus!
