use vstd::prelude::*;
use vstd::string::*;

use crate::text::{
    decimal_string, decimal_text, join_strings, join_with, space_prefix_strings, space_prefixed,
    split_on, split_string, strings_view,
};

verus! {

/// The accelerator the emulator runs with.
#[allow(non_camel_case_types)]
#[derive(Debug, Clone, Copy, PartialEq, Eq, Structural)]
pub enum Accelerator {
    kvm,
    tcg,
}

impl Accelerator {
    pub open spec fn text(&self) -> Seq<char> {
        match self {
            Accelerator::kvm => "-accel kvm"@,
            Accelerator::tcg => "-accel tcg"@,
        }
    }

    /// The command-line option that selects this accelerator.
    pub fn to_string(&self) -> (r: String)
        ensures
            r@ == self.text(),
    {
        match self {
            Accelerator::kvm => String::from_str("-accel kvm"),
            Accelerator::tcg => String::from_str("-accel tcg"),
        }
    }
}

/// The interface a drive is attached through.
#[allow(non_camel_case_types)]
#[derive(Debug, Clone, Copy, PartialEq, Eq, Structural)]
pub enum DriveInterface {
    floppy,
    ide,
    mtd,
    none,
    pflash,
    scsi,
    sd,
    virtio,
}

impl DriveInterface {
    pub open spec fn text(&self) -> Seq<char> {
        match self {
            DriveInterface::floppy => "if=floppy"@,
            DriveInterface::ide => "if=ide"@,
            DriveInterface::mtd => "if=mtd"@,
            DriveInterface::none => "if=none"@,
            DriveInterface::pflash => "if=pflash"@,
            DriveInterface::scsi => "if=scsi"@,
            DriveInterface::sd => "if=sd"@,
            DriveInterface::virtio => "if=virtio"@,
        }
    }

    /// The drive sub-option that selects this interface.
    pub fn to_string(&self) -> (r: String)
        ensures
            r@ == self.text(),
    {
        match self {
            DriveInterface::floppy => String::from_str("if=floppy"),
            DriveInterface::ide => String::from_str("if=ide"),
            DriveInterface::mtd => String::from_str("if=mtd"),
            DriveInterface::none => String::from_str("if=none"),
            DriveInterface::pflash => String::from_str("if=pflash"),
            DriveInterface::scsi => String::from_str("if=scsi"),
            DriveInterface::sd => String::from_str("if=sd"),
            DriveInterface::virtio => String::from_str("if=virtio"),
        }
    }
}

/// The format of a disk image.
#[allow(non_camel_case_types)]
#[derive(Debug, Clone, Copy, PartialEq, Eq, Structural)]
pub enum DiskImageFileFormat {
    qcow2,
    raw,
}

impl DiskImageFileFormat {
    pub open spec fn text(&self) -> Seq<char> {
        match self {
            DiskImageFileFormat::qcow2 => "format=qcow2"@,
            DiskImageFileFormat::raw => "format=raw"@,
        }
    }

    /// The drive sub-option that selects this format.
    pub fn to_string(&self) -> (r: String)
        ensures
            r@ == self.text(),
    {
        match self {
            DiskImageFileFormat::qcow2 => String::from_str("format=qcow2"),
            DiskImageFileFormat::raw => String::from_str("format=raw"),
        }
    }
}

/// A drive: an image file, its format and its interface, each optional.
#[derive(Debug, Clone)]
pub struct Drive {
    pub file: Option<String>,
    pub format: Option<DiskImageFileFormat>,
    pub interface: Option<DriveInterface>,
}

/// Builds a [`Drive`]; a sub-option that is never set stays out.
#[derive(Debug, Clone)]
pub struct DriveBuilder {
    drive: Drive,
}

impl Drive {
    /// The sub-options that are set, in the order file, format, interface.
    pub open spec fn parts(&self) -> Seq<Seq<char>> {
        let a: Seq<Seq<char>> = match self.file {
            Some(f) => seq!["file="@ + f@],
            None => Seq::empty(),
        };
        let b: Seq<Seq<char>> = match self.format {
            Some(f) => seq![f.text()],
            None => Seq::empty(),
        };
        let c: Seq<Seq<char>> = match self.interface {
            Some(i) => seq![i.text()],
            None => Seq::empty(),
        };
        a + b + c
    }

    /// `-drive`, then the sub-options joined by commas after one space.
    pub open spec fn text(&self) -> Seq<char> {
        if self.parts().len() == 0 {
            "-drive"@
        } else {
            "-drive "@ + join_with(self.parts(), ","@)
        }
    }

    pub fn builder() -> (r: DriveBuilder)
        ensures
            r.drive_spec().file is None,
            r.drive_spec().format is None,
            r.drive_spec().interface is None,
    {
        DriveBuilder { drive: Drive { file: None, format: None, interface: None } }
    }

    /// The command-line option that describes this drive.
    pub fn to_string(&self) -> (r: String)
        ensures
            r@ == self.text(),
    {
        let mut parts: Vec<String> = Vec::new();
        match &self.file {
            Some(f) => {
                let s = String::from_str("file=").concat(f.as_str());
                parts.push(s);
            },
            None => {},
        }
        match &self.format {
            Some(f) => {
                parts.push(f.to_string());
            },
            None => {},
        }
        match &self.interface {
            Some(i) => {
                parts.push(i.to_string());
            },
            None => {},
        }
        proof {
            assert(strings_view(parts@) =~= self.parts());
        }
        if parts.len() == 0 {
            String::from_str("-drive")
        } else {
            let joined = join_strings(&parts, ",");
            String::from_str("-drive ").concat(joined.as_str())
        }
    }
}

impl DriveBuilder {
    pub closed spec fn drive_spec(&self) -> Drive {
        self.drive
    }

    pub fn file(self, file: String) -> (r: DriveBuilder)
        ensures
            r.drive_spec() == (Drive { file: Some(file), ..self.drive_spec() }),
    {
        DriveBuilder { drive: Drive { file: Some(file), ..self.drive } }
    }

    pub fn format(self, format: DiskImageFileFormat) -> (r: DriveBuilder)
        ensures
            r.drive_spec() == (Drive { format: Some(format), ..self.drive_spec() }),
    {
        DriveBuilder { drive: Drive { format: Some(format), ..self.drive } }
    }

    pub fn interface(self, interface: DriveInterface) -> (r: DriveBuilder)
        ensures
            r.drive_spec() == (Drive { interface: Some(interface), ..self.drive_spec() }),
    {
        DriveBuilder { drive: Drive { interface: Some(interface), ..self.drive } }
    }

    pub fn build(self) -> (r: Drive)
        ensures
            r == self.drive_spec(),
    {
        self.drive
    }
}

/// Where the emulated serial port goes.
#[allow(non_camel_case_types)]
#[derive(Debug, Clone, Copy, PartialEq, Eq, Structural)]
pub enum Serial {
    none,
    null,
    stdio,
}

impl Serial {
    pub open spec fn text(&self) -> Seq<char> {
        match self {
            Serial::none => "-serial none"@,
            Serial::null => "-serial null"@,
            Serial::stdio => "-serial stdio"@,
        }
    }

    pub fn to_string(&self) -> (r: String)
        ensures
            r@ == self.text(),
    {
        match self {
            Serial::none => String::from_str("-serial none"),
            Serial::null => String::from_str("-serial null"),
            Serial::stdio => String::from_str("-serial stdio"),
        }
    }
}

/// Where the emulator's monitor goes.
#[allow(non_camel_case_types)]
#[derive(Debug, Clone, Copy, PartialEq, Eq, Structural)]
pub enum Monitor {
    none,
    null,
    stdio,
}

impl Monitor {
    pub open spec fn text(&self) -> Seq<char> {
        match self {
            Monitor::none => "-monitor none"@,
            Monitor::null => "-monitor null"@,
            Monitor::stdio => "-monitor stdio"@,
        }
    }

    pub fn to_string(&self) -> (r: String)
        ensures
            r@ == self.text(),
    {
        match self {
            Monitor::none => String::from_str("-monitor none"),
            Monitor::null => String::from_str("-monitor null"),
            Monitor::stdio => String::from_str("-monitor stdio"),
        }
    }
}

/// The directory for the BIOS, VGA BIOS and keymaps.
#[derive(Debug, Clone)]
pub struct Bios {
    pub path: Option<String>,
}

impl Bios {
    pub open spec fn text(&self) -> Seq<char> {
        match self.path {
            Some(p) => "-L "@ + p@,
            None => Seq::empty(),
        }
    }

    pub fn to_string(&self) -> (r: String)
        ensures
            r@ == self.text(),
    {
        match &self.path {
            Some(p) => String::from_str("-L ").concat(p.as_str()),
            None => String::new(),
        }
    }
}

/// The kernel image to boot.
#[derive(Debug, Clone)]
pub struct Kernel {
    pub path: String,
}

impl Kernel {
    pub open spec fn text(&self) -> Seq<char> {
        "-kernel "@ + self.path@
    }

    pub fn to_string(&self) -> (r: String)
        ensures
            r@ == self.text(),
    {
        String::from_str("-kernel ").concat(self.path.as_str())
    }
}

/// A snapshot to start from.
#[derive(Debug, Clone)]
pub struct LoadVM {
    pub path: String,
}

impl LoadVM {
    pub open spec fn text(&self) -> Seq<char> {
        "-loadvm "@ + self.path@
    }

    pub fn to_string(&self) -> (r: String)
        ensures
            r@ == self.text(),
    {
        String::from_str("-loadvm ").concat(self.path.as_str())
    }
}

/// The emulated machine.
#[derive(Debug, Clone)]
pub struct Machine {
    pub machine: String,
}

impl Machine {
    pub open spec fn text(&self) -> Seq<char> {
        "-machine "@ + self.machine@
    }

    pub fn to_string(&self) -> (r: String)
        ensures
            r@ == self.text(),
    {
        String::from_str("-machine ").concat(self.machine.as_str())
    }
}

/// Whether writes go to temporary files instead of the disk images.
#[derive(Debug, Clone, Copy, PartialEq, Eq, Structural)]
pub enum Snapshot {
    ENABLE,
    DISABLE,
}

impl Snapshot {
    pub open spec fn text(&self) -> Seq<char> {
        match self {
            Snapshot::ENABLE => "-snapshot"@,
            Snapshot::DISABLE => Seq::empty(),
        }
    }

    pub fn to_string(&self) -> (r: String)
        ensures
            r@ == self.text(),
    {
        match self {
            Snapshot::ENABLE => String::from_str("-snapshot"),
            Snapshot::DISABLE => String::new(),
        }
    }
}

/// Whether the CPU starts running at once.
#[derive(Debug, Clone, Copy, PartialEq, Eq, Structural)]
pub enum StartCPU {
    ENABLE,
    DISABLE,
}

impl StartCPU {
    pub open spec fn text(&self) -> Seq<char> {
        match self {
            StartCPU::ENABLE => Seq::empty(),
            StartCPU::DISABLE => "-S"@,
        }
    }

    pub fn to_string(&self) -> (r: String)
        ensures
            r@ == self.text(),
    {
        match self {
            StartCPU::ENABLE => String::new(),
            StartCPU::DISABLE => String::from_str("-S"),
        }
    }
}

/// Whether graphical output is turned off.
#[derive(Debug, Clone, Copy, PartialEq, Eq, Structural)]
pub enum NoGraphic {
    ENABLE,
    DISABLE,
}

impl NoGraphic {
    pub open spec fn text(&self) -> Seq<char> {
        match self {
            NoGraphic::ENABLE => "-nographic"@,
            NoGraphic::DISABLE => Seq::empty(),
        }
    }

    pub fn to_string(&self) -> (r: String)
        ensures
            r@ == self.text(),
    {
        match self {
            NoGraphic::ENABLE => String::from_str("-nographic"),
            NoGraphic::DISABLE => String::new(),
        }
    }
}

/// The guest's memory size.
#[derive(Debug, Clone, Copy, PartialEq, Eq, Structural)]
pub enum RamSize {
    MB(u32),
    GB(u32),
}

impl RamSize {
    pub open spec fn text(&self) -> Seq<char> {
        match self {
            RamSize::MB(mb) => " -m "@ + decimal_text(*mb as nat) + "M"@,
            RamSize::GB(gb) => " -m "@ + decimal_text(*gb as nat) + "G"@,
        }
    }

    pub fn to_string(&self) -> (r: String)
        ensures
            r@ == self.text(),
    {
        match self {
            RamSize::MB(mb) => {
                let n = decimal_string(*mb as u64);
                String::from_str(" -m ").concat(n.as_str()).concat("M")
            },
            RamSize::GB(gb) => {
                let n = decimal_string(*gb as u64);
                String::from_str(" -m ").concat(n.as_str()).concat("G")
            },
        }
    }
}

/// The number of emulated CPUs.
#[derive(Debug, Clone, Copy, PartialEq, Eq, Structural)]
pub struct SmpCpus {
    pub cpus: u32,
}

impl SmpCpus {
    pub open spec fn text(&self) -> Seq<char> {
        "-smp "@ + decimal_text(self.cpus as nat)
    }

    pub fn to_string(&self) -> (r: String)
        ensures
            r@ == self.text(),
    {
        let n = decimal_string(self.cpus as u64);
        String::from_str("-smp ").concat(n.as_str())
    }
}

/// Whether a VGA device is attached.
#[derive(Debug, Clone, Copy, PartialEq, Eq, Structural)]
pub enum VgaPci {
    ENABLE,
    DISABLE,
}

impl VgaPci {
    pub open spec fn text(&self) -> Seq<char> {
        match self {
            VgaPci::ENABLE => "-device VGA"@,
            VgaPci::DISABLE => Seq::empty(),
        }
    }

    pub fn to_string(&self) -> (r: String)
        ensures
            r@ == self.text(),
    {
        match self {
            VgaPci::ENABLE => String::from_str("-device VGA"),
            VgaPci::DISABLE => String::new(),
        }
    }
}

/// One option of the emulator's command line.
pub trait CommandLineOption {
    spec fn option_text(&self) -> Seq<char>;

    fn option_string(&self) -> (r: String)
        ensures
            r@ == self.option_text(),
    ;
}

/// The text of `o`'s content as a one-element sequence, or nothing.
pub open spec fn opt_text<T: CommandLineOption>(o: Option<T>) -> Seq<Seq<char>> {
    match o {
        Some(v) => seq![v.option_text()],
        None => Seq::empty(),
    }
}

fn push_option<T: CommandLineOption>(parts: &mut Vec<String>, o: &Option<T>)
    ensures
        strings_view(final(parts)@) == strings_view(old(parts)@) + opt_text(*o),
{
    let ghost before = parts@;
    if let Some(v) = o {
        parts.push(v.option_string());
    }
    assert(strings_view(parts@) =~= strings_view(before) + opt_text(*o));
}


/// The emulator's configuration; each option is left out while unset.
#[derive(Debug, Clone)]
pub struct QemuConfig {
    pub accelerator: Option<Accelerator>,
    pub bios: Option<Bios>,
    pub drives: Vec<Drive>,
    pub kernel: Option<Kernel>,
    pub load_vm: Option<LoadVM>,
    pub machine: Option<Machine>,
    pub monitor: Option<Monitor>,
    pub no_graphic: Option<NoGraphic>,
    pub ram_size: Option<RamSize>,
    pub serial: Option<Serial>,
    pub smp_cpus: Option<SmpCpus>,
    pub snapshot: Option<Snapshot>,
    pub vga_pci: Option<VgaPci>,
    pub start_cpu: Option<StartCPU>,
}

/// Builds a [`QemuConfig`]; an option that is never set stays out.
#[derive(Debug, Clone)]
pub struct QemuConfigBuilder {
    config: QemuConfig,
}

impl QemuConfig {
    pub open spec fn first_option_parts(&self) -> Seq<Seq<char>> {
        opt_text(self.accelerator)
            + opt_text(self.bios)
            + opt_text(self.kernel)
            + opt_text(self.load_vm)
            + opt_text(self.machine)
            + opt_text(self.monitor)
            + opt_text(self.no_graphic)
    }

    pub open spec fn last_option_parts(&self) -> Seq<Seq<char>> {
        opt_text(self.ram_size)
            + opt_text(self.serial)
            + opt_text(self.smp_cpus)
            + opt_text(self.snapshot)
            + opt_text(self.vga_pci)
            + opt_text(self.start_cpu)
    }

    /// The options other than the drives that are set, in a fixed order.
    pub open spec fn option_parts(&self) -> Seq<Seq<char>> {
        self.first_option_parts() + self.last_option_parts()
    }

    /// The options that are set: the drives first, then the others.
    pub open spec fn parts(&self) -> Seq<Seq<char>> {
        self.drives@.map_values(|d: Drive| d.text()) + self.option_parts()
    }

    /// The command line: each option that is set, preceded by a space.
    pub open spec fn text(&self) -> Seq<char> {
        space_prefixed(self.parts())
    }

    pub open spec fn is_default(&self) -> bool {
        &&& self.accelerator is None
        &&& self.bios is None
        &&& self.drives@.len() == 0
        &&& self.kernel is None
        &&& self.load_vm is None
        &&& self.machine is None
        &&& self.monitor is None
        &&& self.no_graphic is None
        &&& self.ram_size is None
        &&& self.serial is None
        &&& self.smp_cpus is None
        &&& self.snapshot is None
        &&& self.vga_pci is None
        &&& self.start_cpu is None
    }

    pub fn builder() -> (r: QemuConfigBuilder)
        ensures
            r.config_spec().is_default(),
    {
        QemuConfigBuilder {
            config: QemuConfig {
                accelerator: None,
                bios: None,
                drives: Vec::new(),
                kernel: None,
                load_vm: None,
                machine: None,
                monitor: None,
                no_graphic: None,
                ram_size: None,
                serial: None,
                smp_cpus: None,
                snapshot: None,
                vga_pci: None,
                start_cpu: None,
            },
        }
    }

    fn first_option_strings(&self) -> (r: Vec<String>)
        ensures
            strings_view(r@) == self.first_option_parts(),
    {
        let mut parts: Vec<String> = Vec::new();
        push_option(&mut parts, &self.accelerator);
        push_option(&mut parts, &self.bios);
        push_option(&mut parts, &self.kernel);
        push_option(&mut parts, &self.load_vm);
        push_option(&mut parts, &self.machine);
        push_option(&mut parts, &self.monitor);
        push_option(&mut parts, &self.no_graphic);
        assert(strings_view(parts@) =~= self.first_option_parts());
        parts
    }

    fn last_option_strings(&self) -> (r: Vec<String>)
        ensures
            strings_view(r@) == self.last_option_parts(),
    {
        let mut parts: Vec<String> = Vec::new();
        push_option(&mut parts, &self.ram_size);
        push_option(&mut parts, &self.serial);
        push_option(&mut parts, &self.smp_cpus);
        push_option(&mut parts, &self.snapshot);
        push_option(&mut parts, &self.vga_pci);
        push_option(&mut parts, &self.start_cpu);
        assert(strings_view(parts@) =~= self.last_option_parts());
        parts
    }

    fn drive_strings(&self) -> (r: Vec<String>)
        ensures
            strings_view(r@) == self.drives@.map_values(|d: Drive| d.text()),
    {
        let mut parts: Vec<String> = Vec::new();
        let mut i: usize = 0;
        while i < self.drives.len()
            invariant
                i <= self.drives@.len(),
                parts@.len() == i,
                forall|j: int| 0 <= j < i ==> #[trigger] parts@[j]@ == self.drives@[j].text(),
            decreases self.drives@.len() - i,
        {
            let s = self.drives[i].to_string();
            parts.push(s);
            i += 1;
        }
        assert(strings_view(parts@) =~= self.drives@.map_values(|d: Drive| d.text()));
        parts
    }

    /// The command line that this configuration stands for.
    pub fn to_string(&self) -> (r: String)
        ensures
            r@ == self.text(),
    {
        let mut parts = self.drive_strings();
        let ghost d = parts@;
        let mut first = self.first_option_strings();
        let ghost o1 = first@;
        parts.append(&mut first);
        let mut last = self.last_option_strings();
        let ghost o2 = last@;
        parts.append(&mut last);
        assert(strings_view(parts@) =~= strings_view(d) + (strings_view(o1) + strings_view(o2)));
        space_prefix_strings(&parts)
    }

    /// The arguments handed to the emulator: the command line cut at each space.
    pub fn build(self) -> (r: Vec<String>)
        ensures
            strings_view(r@) == split_on(self.text(), ' '),
    {
        let line = self.to_string();
        split_string(line.as_str(), ' ')
    }
}

impl QemuConfigBuilder {
    pub closed spec fn config_spec(&self) -> QemuConfig {
        self.config
    }

    pub fn accelerator(self, v: Accelerator) -> (r: QemuConfigBuilder)
        ensures
            r.config_spec() == (QemuConfig { accelerator: Some(v), ..self.config_spec() }),
    {
        QemuConfigBuilder { config: QemuConfig { accelerator: Some(v), ..self.config } }
    }

    pub fn bios(self, v: Bios) -> (r: QemuConfigBuilder)
        ensures
            r.config_spec() == (QemuConfig { bios: Some(v), ..self.config_spec() }),
    {
        QemuConfigBuilder { config: QemuConfig { bios: Some(v), ..self.config } }
    }

    pub fn drives(self, v: Vec<Drive>) -> (r: QemuConfigBuilder)
        ensures
            r.config_spec() == (QemuConfig { drives: v, ..self.config_spec() }),
    {
        QemuConfigBuilder { config: QemuConfig { drives: v, ..self.config } }
    }

    pub fn kernel(self, v: Kernel) -> (r: QemuConfigBuilder)
        ensures
            r.config_spec() == (QemuConfig { kernel: Some(v), ..self.config_spec() }),
    {
        QemuConfigBuilder { config: QemuConfig { kernel: Some(v), ..self.config } }
    }

    pub fn load_vm(self, v: LoadVM) -> (r: QemuConfigBuilder)
        ensures
            r.config_spec() == (QemuConfig { load_vm: Some(v), ..self.config_spec() }),
    {
        QemuConfigBuilder { config: QemuConfig { load_vm: Some(v), ..self.config } }
    }

    pub fn machine(self, v: Machine) -> (r: QemuConfigBuilder)
        ensures
            r.config_spec() == (QemuConfig { machine: Some(v), ..self.config_spec() }),
    {
        QemuConfigBuilder { config: QemuConfig { machine: Some(v), ..self.config } }
    }

    pub fn monitor(self, v: Monitor) -> (r: QemuConfigBuilder)
        ensures
            r.config_spec() == (QemuConfig { monitor: Some(v), ..self.config_spec() }),
    {
        QemuConfigBuilder { config: QemuConfig { monitor: Some(v), ..self.config } }
    }

    pub fn no_graphic(self, v: NoGraphic) -> (r: QemuConfigBuilder)
        ensures
            r.config_spec() == (QemuConfig { no_graphic: Some(v), ..self.config_spec() }),
    {
        QemuConfigBuilder { config: QemuConfig { no_graphic: Some(v), ..self.config } }
    }

    pub fn ram_size(self, v: RamSize) -> (r: QemuConfigBuilder)
        ensures
            r.config_spec() == (QemuConfig { ram_size: Some(v), ..self.config_spec() }),
    {
        QemuConfigBuilder { config: QemuConfig { ram_size: Some(v), ..self.config } }
    }

    pub fn serial(self, v: Serial) -> (r: QemuConfigBuilder)
        ensures
            r.config_spec() == (QemuConfig { serial: Some(v), ..self.config_spec() }),
    {
        QemuConfigBuilder { config: QemuConfig { serial: Some(v), ..self.config } }
    }

    pub fn smp_cpus(self, v: SmpCpus) -> (r: QemuConfigBuilder)
        ensures
            r.config_spec() == (QemuConfig { smp_cpus: Some(v), ..self.config_spec() }),
    {
        QemuConfigBuilder { config: QemuConfig { smp_cpus: Some(v), ..self.config } }
    }

    pub fn snapshot(self, v: Snapshot) -> (r: QemuConfigBuilder)
        ensures
            r.config_spec() == (QemuConfig { snapshot: Some(v), ..self.config_spec() }),
    {
        QemuConfigBuilder { config: QemuConfig { snapshot: Some(v), ..self.config } }
    }

    pub fn vga_pci(self, v: VgaPci) -> (r: QemuConfigBuilder)
        ensures
            r.config_spec() == (QemuConfig { vga_pci: Some(v), ..self.config_spec() }),
    {
        QemuConfigBuilder { config: QemuConfig { vga_pci: Some(v), ..self.config } }
    }

    pub fn start_cpu(self, v: StartCPU) -> (r: QemuConfigBuilder)
        ensures
            r.config_spec() == (QemuConfig { start_cpu: Some(v), ..self.config_spec() }),
    {
        QemuConfigBuilder { config: QemuConfig { start_cpu: Some(v), ..self.config } }
    }

    /// The configuration set so far.
    pub fn build_config(self) -> (r: QemuConfig)
        ensures
            r == self.config_spec(),
    {
        self.config
    }

    /// The arguments handed to the emulator for the configuration set so far.
    pub fn build(self) -> (r: Vec<String>)
        ensures
            strings_view(r@) == split_on(self.config_spec().text(), ' '),
    {
        self.build_config().build()
    }
}


impl CommandLineOption for Accelerator {
    open spec fn option_text(&self) -> Seq<char> {
        self.text()
    }

    fn option_string(&self) -> (r: String) {
        self.to_string()
    }
}


impl CommandLineOption for Bios {
    open spec fn option_text(&self) -> Seq<char> {
        self.text()
    }

    fn option_string(&self) -> (r: String) {
        self.to_string()
    }
}


impl CommandLineOption for Kernel {
    open spec fn option_text(&self) -> Seq<char> {
        self.text()
    }

    fn option_string(&self) -> (r: String) {
        self.to_string()
    }
}


impl CommandLineOption for LoadVM {
    open spec fn option_text(&self) -> Seq<char> {
        self.text()
    }

    fn option_string(&self) -> (r: String) {
        self.to_string()
    }
}


impl CommandLineOption for Machine {
    open spec fn option_text(&self) -> Seq<char> {
        self.text()
    }

    fn option_string(&self) -> (r: String) {
        self.to_string()
    }
}


impl CommandLineOption for Monitor {
    open spec fn option_text(&self) -> Seq<char> {
        self.text()
    }

    fn option_string(&self) -> (r: String) {
        self.to_string()
    }
}


impl CommandLineOption for NoGraphic {
    open spec fn option_text(&self) -> Seq<char> {
        self.text()
    }

    fn option_string(&self) -> (r: String) {
        self.to_string()
    }
}


impl CommandLineOption for RamSize {
    open spec fn option_text(&self) -> Seq<char> {
        self.text()
    }

    fn option_string(&self) -> (r: String) {
        self.to_string()
    }
}


impl CommandLineOption for Serial {
    open spec fn option_text(&self) -> Seq<char> {
        self.text()
    }

    fn option_string(&self) -> (r: String) {
        self.to_string()
    }
}


impl CommandLineOption for SmpCpus {
    open spec fn option_text(&self) -> Seq<char> {
        self.text()
    }

    fn option_string(&self) -> (r: String) {
        self.to_string()
    }
}


impl CommandLineOption for Snapshot {
    open spec fn option_text(&self) -> Seq<char> {
        self.text()
    }

    fn option_string(&self) -> (r: String) {
        self.to_string()
    }
}


impl CommandLineOption for VgaPci {
    open spec fn option_text(&self) -> Seq<char> {
        self.text()
    }

    fn option_string(&self) -> (r: String) {
        self.to_string()
    }
}


impl CommandLineOption for StartCPU {
    open spec fn option_text(&self) -> Seq<char> {
        self.text()
    }

    fn option_string(&self) -> (r: String) {
        self.to_string()
    }
}

} // verus!
