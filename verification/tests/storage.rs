use proxmox_znc::process::CommandRunner;
use proxmox_znc::storage::{
    detect_storage_entries, detect_storages, detect_template_storages, storage_entries_from,
    supports_templates,
};

struct MockRunner {
    output: String,
}

impl CommandRunner for MockRunner {
    fn run(&self, program: &str, args: &[&str]) -> Result<String, String> {
        if program == "pvesm" && args == ["status"] {
            Ok(self.output.clone())
        } else {
            Err("unexpected command".into())
        }
    }

    fn run_status(&self, _: &str, _: &[&str]) -> Result<(), String> {
        Err("unexpected command".into())
    }

    fn run_owned(&self, _: &str, _: &[String]) -> Result<String, String> {
        Err("unexpected command".into())
    }

    fn run_status_owned(&self, _: &str, _: &[String]) -> Result<(), String> {
        Err("unexpected command".into())
    }

    fn run_status_owned_with_input(&self, _: &str, _: &[String], _: &str) -> Result<(), String> {
        Err("unexpected command".into())
    }
}

struct FailingRunner;

impl CommandRunner for FailingRunner {
    fn run(&self, _: &str, _: &[&str]) -> Result<String, String> {
        Err("pvesm: not found".into())
    }

    fn run_status(&self, _: &str, _: &[&str]) -> Result<(), String> {
        Err("unexpected command".into())
    }

    fn run_owned(&self, _: &str, _: &[String]) -> Result<String, String> {
        Err("unexpected command".into())
    }

    fn run_status_owned(&self, _: &str, _: &[String]) -> Result<(), String> {
        Err("unexpected command".into())
    }

    fn run_status_owned_with_input(&self, _: &str, _: &[String], _: &str) -> Result<(), String> {
        Err("unexpected command".into())
    }
}

#[test]
fn detects_template_capable_storages() {
    let runner = MockRunner {
        output: "Name Type Status Total Used Available\nlocal dir active 100 1 99\nlocal-lvm lvmthin active 200 2 198\nwd nfs active 300 3 297\n".into(),
    };

    let storages = detect_template_storages(&runner).unwrap();
    assert_eq!(storages, vec!["local".to_string(), "wd".to_string()]);
}

#[test]
fn template_support_list_includes_expected_types() {
    for kind in ["dir", "nfs", "cifs", "cephfs", "glusterfs", "zfs"] {
        assert!(supports_templates(kind), "{kind} should support templates");
    }
    assert!(!supports_templates("lvmthin"));
}

#[test]
fn inactive_blank_and_repeated_rows_are_skipped() {
    let runner = MockRunner {
        output: "Name Type Status\nlocal dir active\nold nfs disabled\n\n   \nlocal zfs active\r\ncephpool rbd active 1 2 3\nshort dir\n".into(),
    };
    let storages = detect_storages(&runner).unwrap();
    assert_eq!(storages, vec!["local".to_string(), "cephpool".to_string()]);
    let entries = detect_storage_entries(&runner).unwrap();
    assert_eq!(entries.len(), 2);
    assert_eq!(entries[0].kind, "dir");
    assert_eq!(entries[1].kind, "rbd");
    let templates = detect_template_storages(&runner).unwrap();
    assert_eq!(templates, vec!["local".to_string()]);
}

#[test]
fn header_only_and_empty_outputs_list_nothing() {
    assert!(storage_entries_from("").is_empty());
    assert!(storage_entries_from("Name Type Status\n").is_empty());
    assert!(storage_entries_from("local dir active\n").is_empty());
}

#[test]
fn runner_errors_pass_through() {
    assert_eq!(detect_storages(&FailingRunner), Err("pvesm: not found".to_string()));
    assert_eq!(detect_template_storages(&FailingRunner), Err("pvesm: not found".to_string()));
}

#[test]
fn template_storages_keep_the_listed_order() {
    let runner = MockRunner {
        output: "Name Type Status Total Used Available %\n\
                 zeta dir active 1 1 1 1%\n\
                 lvm lvmthin active 1 1 1 1%\n\
                 alpha nfs active 1 1 1 1%\n\
                 mid cifs active 1 1 1 1%\n"
            .to_string(),
    };
    let all = detect_storages(&runner).unwrap();
    assert_eq!(all, vec!["zeta", "lvm", "alpha", "mid"]);
    let templates = detect_template_storages(&runner).unwrap();
    assert_eq!(templates, vec!["zeta", "alpha", "mid"]);
}
