use pls::cgroup::{
    enable_subtree, enable_subtree_unchecked, is_enabled, is_subset, prepend_with,
    set_cpu_control, set_io_control, set_mem_control, Controller, Error, FileWrite,
};
use pls::runner::job_request::{CpuControl, IoControl, MemControl};
use pls::runner::JobRequest;

fn request() -> JobRequest {
    JobRequest {
        executable: "/bin/true".to_string(),
        args: vec![],
        cpu_control: None,
        mem_control: None,
        io_control: None,
    }
}

fn write(path: &str, contents: &str) -> FileWrite {
    FileWrite { path: path.to_string(), contents: contents.to_string() }
}

#[test]
fn given_some_controllers_are_disabled_then_cant_enable() {
    let enabled = "memory cpu";
    let ctr = Controller::all();
    assert!(!is_subset(enabled, ctr));
}

#[test]
fn given_required_controllers_are_present_then_can_enable() {
    let enabled = "memory cpu io";
    let ctr = Controller::all();
    assert!(is_subset(enabled, ctr));
}

#[test]
fn given_unknown_controllers_when_known_are_present_then_can_enable() {
    let enabled = "memory cpu cpuset pids";
    let ctr = &[Controller::Memory, Controller::Cpu];
    assert!(is_subset(enabled, ctr));
}

#[test]
fn given_list_of_controllers_generates_valid_output() {
    let ctr = Controller::all();
    let as_str = prepend_with(ctr, '+');
    assert_eq!(as_str, "+cpu +memory +io");
}

#[test]
fn given_list_of_controllers_generates_valid_output_2() {
    let ctr = Controller::all();
    let as_str = prepend_with(ctr, '-');
    assert_eq!(as_str, "-cpu -memory -io");
}

#[test]
fn given_empty_list_output_is_empty() {
    let ctr: &[Controller] = &[];
    let as_str = prepend_with(ctr, 'x');
    assert!(as_str.is_empty());
}

#[test]
fn all_lists_cpu_memory_io_in_that_order() {
    assert_eq!(Controller::all(), &[Controller::Cpu, Controller::Memory, Controller::Io]);
}

#[test]
fn single_controller_has_no_space() {
    assert_eq!(prepend_with(&[Controller::Memory], '+'), "+memory");
    assert_eq!(prepend_with(&[Controller::Io, Controller::Io], '-'), "-io -io");
}

#[test]
fn names_and_controllers_go_both_ways() {
    for controller in Controller::all() {
        let name: &str = controller.into();
        assert_eq!(name, controller.as_str());
        assert_eq!(controller.to_string(), name);
        assert_eq!(Controller::try_from(name), Ok(*controller));
    }
    assert_eq!(Controller::Cpu.as_str(), "cpu");
    assert_eq!(Controller::Memory.as_str(), "memory");
    assert_eq!(Controller::Io.as_str(), "io");
}

#[test]
fn unknown_name_is_handed_back() {
    assert_eq!(
        Controller::try_from("cpuset"),
        Err(Error::UnknownController("cpuset".to_string()))
    );
    assert_eq!(Controller::try_from(""), Err(Error::UnknownController("".to_string())));
    assert_eq!(Controller::try_from("CPU"), Err(Error::UnknownController("CPU".to_string())));
    assert_eq!(Controller::try_from("io "), Err(Error::UnknownController("io ".to_string())));
}

#[test]
fn subset_of_nothing_required_always_holds() {
    assert!(is_subset("", &[]));
    assert!(is_subset("pids", &[]));
    assert!(!is_subset("", &[Controller::Cpu]));
}

#[test]
fn subset_takes_words_apart_at_single_spaces_only() {
    assert!(is_subset("cpu  io", &[Controller::Cpu, Controller::Io]));
    assert!(is_subset(" cpu ", &[Controller::Cpu]));
    assert!(!is_subset("cpu\tio", &[Controller::Cpu]));
    assert!(!is_subset("cpu io\n", &[Controller::Io]));
    assert!(is_subset("cpu io\n", &[Controller::Cpu]));
    assert!(!is_subset("cpuset", &[Controller::Cpu]));
    assert!(!is_subset("xcpu", &[Controller::Cpu]));
    assert!(!is_subset("memory", &[Controller::Memory, Controller::Cpu]));
    assert!(is_subset("io io io", &[Controller::Io, Controller::Io]));
    assert!(is_subset("héllo io wörld", &[Controller::Io]));
}

#[test]
fn is_enabled_reports_the_directory() {
    assert_eq!(is_enabled("/sys/fs/cgroup/t1", "cpu memory io", Controller::all()), Ok(()));
    assert_eq!(
        is_enabled("/sys/fs/cgroup/t1", "cpu memory", Controller::all()),
        Err(Error::NotEnabled("/sys/fs/cgroup/t1".to_string()))
    );
}

#[test]
fn enable_subtree_writes_plus_names_to_subtree_control() {
    assert_eq!(
        enable_subtree("/sys/fs/cgroup/t1", "io pids memory cpu", Controller::all()),
        Ok(write("/sys/fs/cgroup/t1/cgroup.subtree_control", "+cpu +memory +io"))
    );
    assert_eq!(
        enable_subtree("/sys/fs/cgroup/t1", "io pids memory", Controller::all()),
        Err(Error::NotEnabled("/sys/fs/cgroup/t1".to_string()))
    );
    assert_eq!(
        enable_subtree_unchecked("/cg", &[Controller::Io]),
        write("/cg/cgroup.subtree_control", "+io")
    );
}

#[test]
fn cpu_weight_gate() {
    let mut req = request();
    assert_eq!(set_cpu_control("/cg/j", &req), Ok(vec![]));
    for weight in [0u32, 10001, 65536, u32::MAX] {
        req.cpu_control = Some(CpuControl { cpu_weight: weight });
        assert_eq!(set_cpu_control("/cg/j", &req), Err(Error::InvalidCpuWeight(weight)));
    }
    req.cpu_control = Some(CpuControl { cpu_weight: 1 });
    assert_eq!(set_cpu_control("/cg/j", &req), Ok(vec![write("/cg/j/cpu.weight", "1")]));
    req.cpu_control = Some(CpuControl { cpu_weight: 10000 });
    assert_eq!(set_cpu_control("/cg/j", &req), Ok(vec![write("/cg/j/cpu.weight", "10000")]));
    req.cpu_control = Some(CpuControl { cpu_weight: 500 });
    assert_eq!(set_cpu_control("/cg/j", &req), Ok(vec![write("/cg/j/cpu.weight", "500")]));
}

#[test]
fn memory_limits_are_written_high_then_max() {
    let mut req = request();
    assert_eq!(set_mem_control("/cg/j", &req), vec![]);
    req.mem_control = Some(MemControl { mem_max: 1024 * 1024 * 1024, mem_high: 1024 * 1024 * 512 });
    assert_eq!(
        set_mem_control("/cg/j", &req),
        vec![write("/cg/j/memory.high", "536870912"), write("/cg/j/memory.max", "1073741824")]
    );
    req.mem_control = Some(MemControl { mem_max: u64::MAX, mem_high: 0 });
    assert_eq!(
        set_mem_control("/cg/j", &req),
        vec![write("/cg/j/memory.high", "0"), write("/cg/j/memory.max", "18446744073709551615")]
    );
}

#[test]
fn io_line_puts_minor_before_major() {
    let mut req = request();
    assert_eq!(set_io_control("/cg/j", &req), vec![]);
    req.io_control = Some(IoControl { major: 8, minor: 1, rbps_max: 1024, wbps_max: 1024 });
    assert_eq!(
        set_io_control("/cg/j", &req),
        vec![write("/cg/j/io.max", "1:8 rbps=1024 wbps=1024")]
    );
    req.io_control = Some(IoControl { major: 259, minor: 0, rbps_max: 0, wbps_max: 987654321 });
    assert_eq!(
        set_io_control("/cg/j", &req),
        vec![write("/cg/j/io.max", "0:259 rbps=0 wbps=987654321")]
    );
}

#[test]
fn controller_equals_its_name_and_no_other() {
    assert!(Controller::Cpu == *"cpu");
    assert!(Controller::Memory == *"memory");
    assert!(Controller::Io == *"io");
    assert!(Controller::Io != *"cpu");
    assert!(Controller::Cpu != *"cpuset");
    assert!(Controller::Cpu != *"");
}
