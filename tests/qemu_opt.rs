use libafl_core::qemu_opt::{
    Accelerator, DiskImageFileFormat, Drive, DriveInterface, Kernel, Machine, Monitor, NoGraphic,
    QemuConfig, RamSize, Serial, SmpCpus, Snapshot, StartCPU,
};

fn str_split_sort<'a>(s: &'a str, separator: &str) -> Vec<&'a str> {
    let mut v = s.split(separator).collect::<Vec<&str>>();
    v.sort_unstable();
    v
}

#[test]
fn default_fmt_is_empty() {
    let opt = QemuConfig::builder().build_config();
    assert_eq!(opt.to_string(), "");
}

#[test]
fn drive_no_file_fmt() {
    let drive = Drive::builder()
        .format(DiskImageFileFormat::raw)
        .interface(DriveInterface::ide)
        .build();
    assert_eq!(drive.to_string(), "-drive format=raw,if=ide");
}

#[test]
fn fuzzer_qemu_systemmode_config() {
    let shell_config = " \
        -machine mps2-an385 \
        -monitor null \
        -kernel ${TARGET_DIR}/example.elf \
        -serial null \
        -nographic \
        -snapshot \
        -drive file=${TARGET_DIR}/dummy.qcow2,format=qcow2,if=none \
        -S";
    let shell_config_args = str_split_sort(shell_config, " -");

    let qemu_opt = QemuConfig::builder()
        .machine(Machine {
            machine: "mps2-an385".to_string(),
        })
        .monitor(Monitor::null)
        .kernel(Kernel {
            path: "${TARGET_DIR}/example.elf".to_string(),
        })
        .serial(Serial::null)
        .no_graphic(NoGraphic::ENABLE)
        .snapshot(Snapshot::ENABLE)
        .drives(vec![Drive::builder()
            .interface(DriveInterface::none)
            .format(DiskImageFileFormat::qcow2)
            .file("${TARGET_DIR}/dummy.qcow2".to_string())
            .build()])
        .start_cpu(StartCPU::DISABLE)
        .build_config();
    let qemu_opt_str = qemu_opt.to_string();
    let qemu_opt_str_args = str_split_sort(&qemu_opt_str, " -");

    assert_eq!(qemu_opt_str_args, shell_config_args);
}

#[test]
fn accelerator_fmt() {
    let opt = QemuConfig::builder().accelerator(Accelerator::kvm).build_config();
    assert_eq!(opt.to_string(), " -accel kvm");
}

#[test]
fn ram_and_cpus_fmt() {
    assert_eq!(RamSize::MB(512).to_string(), " -m 512M");
    assert_eq!(RamSize::GB(0).to_string(), " -m 0G");
    assert_eq!(SmpCpus { cpus: 4096 }.to_string(), "-smp 4096");
}

#[test]
fn drive_with_file_only_fmt() {
    let drive = Drive::builder().file("disk.img".to_string()).build();
    assert_eq!(drive.to_string(), "-drive file=disk.img");
    assert_eq!(Drive::builder().build().to_string(), "-drive");
}

#[test]
fn build_splits_arguments_at_spaces() {
    let args = QemuConfig::builder()
        .machine(Machine {
            machine: "virt".to_string(),
        })
        .smp_cpus(SmpCpus { cpus: 2 })
        .build();
    assert_eq!(args, vec!["", "-machine", "virt", "-smp", "2"]);
    let empty = QemuConfig::builder().build();
    assert_eq!(empty, vec![""]);
}
