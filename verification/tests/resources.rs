use nettool::error::{ErrorCode, NetToolError};
use nettool::helper::resources::{
    check_binding, driver_from_link, parse_count, path_of_hugepages, plan_binding,
    validate_hugepages, validate_pci_address, HugepageSnapshot, KernelAccess, KernelFault,
    LinuxResourceExecutor, NicSnapshot, ResourceStore,
};
use std::cell::Cell;
use std::collections::BTreeMap;
use std::rc::Rc;

#[derive(Default)]
struct FakeKernel {
    files: BTreeMap<String, Vec<u8>>,
    driver: Option<String>,
    writes: Rc<Cell<usize>>,
}

fn not_found() -> KernelFault {
    KernelFault {
        not_found: true,
        interrupted: false,
        message: "entity not found".to_owned(),
    }
}

impl KernelAccess for FakeKernel {
    fn read_link(&mut self, path: &str) -> Result<String, KernelFault> {
        if path.ends_with("/driver") {
            self.driver
                .as_ref()
                .map(|driver| format!("/sys/bus/pci/drivers/{driver}"))
                .ok_or_else(not_found)
        } else {
            Err(not_found())
        }
    }

    fn read_to_string(&mut self, path: &str) -> Result<String, KernelFault> {
        self.files
            .get(path)
            .map(|value| String::from_utf8_lossy(value).into_owned())
            .ok_or_else(not_found)
    }

    fn write(&mut self, path: &str, value: &[u8]) -> Result<(), KernelFault> {
        self.writes.set(self.writes.get() + 1);
        if path.ends_with("/driver_override") {
            let driver = String::from_utf8_lossy(value).into_owned();
            self.files.insert(path.to_owned(), value.to_vec());
            if driver.is_empty() {
                self.driver = None;
            }
        } else if path.ends_with("/drivers_probe") {
            let parent = path.trim_end_matches("/drivers_probe");
            let device = format!(
                "{parent}/devices/{}/driver_override",
                String::from_utf8_lossy(value)
            );
            self.driver = self
                .files
                .get(&device)
                .map(|driver| String::from_utf8_lossy(driver).into_owned());
        } else if path.ends_with("/unbind") {
            self.driver = None;
        } else {
            self.files.insert(path.to_owned(), value.to_vec());
        }
        Ok(())
    }
}

fn missing() -> NetToolError {
    NetToolError::new(ErrorCode::PersistenceFailed, "no such record", true)
}

#[derive(Default)]
struct MemoryStore {
    nics: BTreeMap<String, NicSnapshot>,
    hugepages: BTreeMap<String, HugepageSnapshot>,
}

impl ResourceStore for MemoryStore {
    fn find_nic(&mut self, file_name: &str) -> Result<Option<NicSnapshot>, NetToolError> {
        Ok(self.nics.get(file_name).cloned())
    }

    fn load_nic(&mut self, file_name: &str) -> Result<NicSnapshot, NetToolError> {
        self.nics.get(file_name).cloned().ok_or_else(missing)
    }

    fn save_nic(&mut self, file_name: &str, snapshot: &NicSnapshot) -> Result<(), NetToolError> {
        self.nics.insert(file_name.to_owned(), snapshot.clone());
        Ok(())
    }

    fn find_hugepages(
        &mut self,
        file_name: &str,
    ) -> Result<Option<HugepageSnapshot>, NetToolError> {
        Ok(self.hugepages.get(file_name).cloned())
    }

    fn load_hugepages(&mut self, file_name: &str) -> Result<HugepageSnapshot, NetToolError> {
        self.hugepages.get(file_name).cloned().ok_or_else(missing)
    }

    fn save_hugepages(
        &mut self,
        file_name: &str,
        snapshot: &HugepageSnapshot,
    ) -> Result<(), NetToolError> {
        self.hugepages.insert(file_name.to_owned(), snapshot.clone());
        Ok(())
    }
}

fn executor(kernel: FakeKernel) -> LinuxResourceExecutor<FakeKernel, MemoryStore> {
    LinuxResourceExecutor::new(kernel, MemoryStore::default(), "/sysfs", "/state").expect("executor")
}

#[test]
fn hugepage_prepare_and_release_restore_original_count() {
    let path = "/sysfs/kernel/mm/hugepages/hugepages-2048kB/nr_hugepages";
    let mut kernel = FakeKernel::default();
    kernel.files.insert(path.to_owned(), b"8".to_vec());
    let mut executor = executor(kernel);
    let prepared = executor
        .prepare_hugepages("op-1", None, 16, 2048)
        .expect("prepare");
    assert_eq!(prepared.previous_pages, Some(8));
    assert_eq!(prepared.active_pages, Some(16));
    let released = executor.release_hugepages("op-1").expect("release");
    assert_eq!(released.active_pages, Some(8));
}

#[test]
fn nic_restore_uses_helper_snapshot_not_caller_driver() {
    let kernel = FakeKernel {
        driver: Some("ixgbe".into()),
        ..FakeKernel::default()
    };
    let mut executor = executor(kernel);
    let prepared = executor
        .prepare_dpdk("op-nic", "0000:01:00.0")
        .expect("prepare");
    assert_eq!(prepared.active_driver.as_deref(), Some("vfio-pci"));
    let restored = executor
        .restore_driver("op-nic", "0000:01:00.0")
        .expect("restore");
    assert_eq!(restored.active_driver.as_deref(), Some("ixgbe"));
}

#[test]
fn a_repeated_prepare_keeps_what_was_there_first() {
    let kernel = FakeKernel {
        driver: Some("ixgbe".into()),
        ..FakeKernel::default()
    };
    let mut executor = executor(kernel);
    executor
        .prepare_dpdk("op-nic", "0000:01:00.0")
        .expect("prepare");
    let again = executor
        .prepare_dpdk("op-nic", "0000:01:00.0")
        .expect("again");
    assert_eq!(again.original_driver.as_deref(), Some("ixgbe"));
    assert!(executor.prepare_dpdk("op-nic", "0000:02:00.0").is_err());
    assert!(executor.restore_driver("op-nic", "0000:02:00.0").is_err());
}

#[test]
fn inputs_are_validated_before_the_kernel_is_touched() {
    let mut executor = executor(FakeKernel::default());
    assert!(executor.prepare_dpdk("op", "../../x").is_err());
    assert!(executor.prepare_hugepages("op", None, 1, 3).is_err());
    assert!(validate_pci_address("0000:01:00.0").is_ok());
    assert!(validate_pci_address("0000:01:00.8").is_err() || validate_pci_address("x").is_err());
    assert!(validate_hugepages(16, 2048).is_ok());
    assert!(validate_hugepages(0, 0).is_err());
    assert_eq!(parse_count(" 12\n").expect("count"), 12);
    assert!(parse_count("many").is_err());
    assert!(LinuxResourceExecutor::new(
        FakeKernel::default(),
        MemoryStore::default(),
        "relative",
        "/state"
    )
    .is_err());
}

#[test]
fn paths_and_plans_name_the_kernel_files() {
    assert_eq!(
        path_of_hugepages("/sys", Some(1), 2048),
        "/sys/devices/system/node/node1/hugepages/hugepages-2048kB/nr_hugepages"
    );
    let plan = plan_binding(
        "/sys",
        "0000:01:00.0",
        &Some("ixgbe".to_owned()),
        &Some("vfio-pci".to_owned()),
    );
    assert!(plan.iter().any(|write| write.path.ends_with("/unbind")));
    assert!(plan.iter().any(|write| write.value == "vfio-pci"));
    assert!(check_binding(&Some("a".to_owned()), &Some("a".to_owned())).is_ok());
    assert!(check_binding(&None, &Some("a".to_owned())).is_err());
    assert_eq!(
        driver_from_link(Ok("../../bus/pci/drivers/ixgbe".to_owned()))
            .expect("driver")
            .as_deref(),
        Some("ixgbe")
    );
    assert_eq!(driver_from_link(Err(not_found())).expect("none"), None);
}

#[test]
fn a_written_count_reads_back() {
    for pages in [0, 7, 512, u64::MAX] {
        assert_eq!(parse_count(&format!("{pages}\n")).expect("count"), pages);
    }
}

#[test]
fn giving_back_again_writes_nothing() {
    let writes = Rc::new(Cell::new(0));
    let path = "/sysfs/kernel/mm/hugepages/hugepages-2048kB/nr_hugepages";
    let mut kernel = FakeKernel {
        driver: Some("ixgbe".into()),
        writes: writes.clone(),
        ..FakeKernel::default()
    };
    kernel.files.insert(path.to_owned(), b"8".to_vec());
    let mut executor = executor(kernel);
    executor
        .prepare_dpdk("op-nic", "0000:01:00.0")
        .expect("prepare");
    executor
        .prepare_hugepages("op-1", None, 16, 2048)
        .expect("prepare");
    executor
        .restore_driver("op-nic", "0000:01:00.0")
        .expect("restore");
    executor.release_hugepages("op-1").expect("release");
    let before = writes.get();
    assert!(before > 0);
    let again = executor
        .restore_driver("op-nic", "0000:01:00.0")
        .expect("again");
    assert_eq!(again.active_driver.as_deref(), Some("ixgbe"));
    assert!(executor.restore_driver("op-nic", "0000:02:00.0").is_err());
    assert_eq!(
        executor.release_hugepages("op-1").expect("again").active_pages,
        Some(8)
    );
    assert!(executor.prepare_dpdk("op-nic", "0000:01:00.0").is_err());
    assert!(executor
        .prepare_hugepages("op-1", None, 16, 2048)
        .is_err());
    assert_eq!(writes.get(), before);
}

#[test]
fn a_round_trip_leaves_the_machine_as_it_was_found() {
    let path = "/sysfs/devices/system/node/node1/hugepages/hugepages-2048kB/nr_hugepages";
    for driver in [Some("ixgbe".to_owned()), None] {
        let writes = Rc::new(Cell::new(0));
        let mut kernel = FakeKernel {
            driver: driver.clone(),
            writes: writes.clone(),
            ..FakeKernel::default()
        };
        kernel.files.insert(path.to_owned(), b"8\n".to_vec());
        let mut executor = executor(kernel);
        // Nothing was handed over or set up yet.
        assert!(executor.restore_driver("op", "0000:01:00.0").is_err());
        assert!(executor.release_hugepages("op").is_err());
        assert_eq!(writes.get(), 0);
        for _ in 0..2 {
            let found = executor.prepare_dpdk("op", "0000:01:00.0").expect("prepare");
            assert_eq!(found.original_driver, driver);
            let found = executor
                .prepare_hugepages("op", Some(1), 16, 2048)
                .expect("prepare");
            assert_eq!(found.previous_pages, Some(8));
        }
        let before = writes.get();
        let conflict = executor
            .restore_driver("op", "0000:02:00.0")
            .expect_err("another interface");
        assert_eq!(conflict.code, ErrorCode::OperationConflict);
        assert_eq!(writes.get(), before);
        let back = executor.restore_driver("op", "0000:01:00.0").expect("restore");
        assert_eq!(back.original_driver, driver);
        assert_eq!(back.active_driver, driver);
        let released = executor.release_hugepages("op").expect("release");
        assert_eq!(released.previous_pages, Some(8));
        assert_eq!(released.active_pages, Some(8));
        // Handing over anew finds the driver and the pages that there were at first.
        let found = executor.prepare_dpdk("next", "0000:01:00.0").expect("prepare");
        assert_eq!(found.original_driver, driver);
        let found = executor
            .prepare_hugepages("next", Some(1), 4, 2048)
            .expect("prepare");
        assert_eq!(found.previous_pages, Some(8));
    }
}
