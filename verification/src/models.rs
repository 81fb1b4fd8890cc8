//! Data exchanged by the Linux and WSL probes and the repair planner, with
//! their mathematical views.
use vstd::prelude::*;

use crate::text::{opt_view, string_views};

verus! {

/// A GPU found on the PCI bus or through a vendor tool.
#[derive(Debug, Clone)]
pub struct GpuDevice {
    pub vendor: String,
    pub model: String,
    pub pci_id: Option<String>,
    pub driver: Option<String>,
    pub source: String,
}

pub struct GpuDeviceView {
    pub vendor: Seq<char>,
    pub model: Seq<char>,
    pub pci_id: Option<Seq<char>>,
    pub driver: Option<Seq<char>>,
    pub source: Seq<char>,
}

impl View for GpuDevice {
    type V = GpuDeviceView;

    open spec fn view(&self) -> GpuDeviceView {
        GpuDeviceView {
            vendor: self.vendor@,
            model: self.model@,
            pci_id: opt_view(self.pci_id),
            driver: opt_view(self.driver),
            source: self.source@,
        }
    }
}

pub open spec fn gpu_views(v: Seq<GpuDevice>) -> Seq<GpuDeviceView> {
    v.map_values(|d: GpuDevice| d@)
}

/// A Vulkan physical device as `vulkaninfo --summary` lists it.
#[derive(Debug, Clone)]
pub struct VulkanDevice {
    pub name: String,
    pub device_type: Option<String>,
    pub driver: Option<String>,
    pub hardware: bool,
}

pub struct VulkanDeviceView {
    pub name: Seq<char>,
    pub device_type: Option<Seq<char>>,
    pub driver: Option<Seq<char>>,
    pub hardware: bool,
}

impl View for VulkanDevice {
    type V = VulkanDeviceView;

    open spec fn view(&self) -> VulkanDeviceView {
        VulkanDeviceView {
            name: self.name@,
            device_type: opt_view(self.device_type),
            driver: opt_view(self.driver),
            hardware: self.hardware,
        }
    }
}

pub open spec fn vulkan_views(v: Seq<VulkanDevice>) -> Seq<VulkanDeviceView> {
    v.map_values(|d: VulkanDevice| d@)
}

/// Everything the probes learned about the machine.
#[derive(Debug, Clone)]
pub struct SystemReport {
    pub platform: String,
    pub distribution: Option<String>,
    pub devices: Vec<GpuDevice>,
    pub vulkan_devices: Vec<VulkanDevice>,
    pub nvidia_smi: bool,
    pub package_managers: Vec<String>,
    pub available_commands: Vec<String>,
}

pub struct SystemReportView {
    pub platform: Seq<char>,
    pub distribution: Option<Seq<char>>,
    pub devices: Seq<GpuDeviceView>,
    pub vulkan_devices: Seq<VulkanDeviceView>,
    pub nvidia_smi: bool,
    pub package_managers: Seq<Seq<char>>,
    pub available_commands: Seq<Seq<char>>,
}

impl View for SystemReport {
    type V = SystemReportView;

    open spec fn view(&self) -> SystemReportView {
        SystemReportView {
            platform: self.platform@,
            distribution: opt_view(self.distribution),
            devices: gpu_views(self.devices@),
            vulkan_devices: vulkan_views(self.vulkan_devices@),
            nvidia_smi: self.nvidia_smi,
            package_managers: string_views(self.package_managers@),
            available_commands: string_views(self.available_commands@),
        }
    }
}

/// One proposed command, as an argument vector.
#[derive(Debug, Clone)]
pub struct CommandPlan {
    pub argv: Vec<String>,
    pub reason: String,
    pub privileged: bool,
}

pub struct CommandPlanView {
    pub argv: Seq<Seq<char>>,
    pub reason: Seq<char>,
    pub privileged: bool,
}

impl View for CommandPlan {
    type V = CommandPlanView;

    open spec fn view(&self) -> CommandPlanView {
        CommandPlanView {
            argv: string_views(self.argv@),
            reason: self.reason@,
            privileged: self.privileged,
        }
    }
}

pub open spec fn plan_views(v: Seq<CommandPlan>) -> Seq<CommandPlanView> {
    v.map_values(|c: CommandPlan| c@)
}

/// A repair decision: a status word, a message, and the commands to run.
#[derive(Debug, Clone)]
pub struct RepairPlan {
    pub status: String,
    pub message: String,
    pub commands: Vec<CommandPlan>,
}

pub struct RepairPlanView {
    pub status: Seq<char>,
    pub message: Seq<char>,
    pub commands: Seq<CommandPlanView>,
}

impl View for RepairPlan {
    type V = RepairPlanView;

    open spec fn view(&self) -> RepairPlanView {
        RepairPlanView {
            status: self.status@,
            message: self.message@,
            commands: plan_views(self.commands@),
        }
    }
}

} // verus!
