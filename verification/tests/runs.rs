use std::cell::RefCell;

use proxmox_znc::cli::Config;
use proxmox_znc::commands::{
    container_address, enable_service, ensure_znc_dirs, ensure_znc_user, network_reachable,
};
use proxmox_znc::install::{InstallAction, InstallStage};
use proxmox_znc::process::CommandRunner;
use proxmox_znc::spec::Spec;

/// Fails every run whose arguments hold `fail_on`, with the message
/// `"<word> failed"`, and answers `hostname -I` with `address`.
struct FailingOn {
    fail_on: Vec<String>,
    address: Result<String, String>,
    log: RefCell<Vec<String>>,
}

impl FailingOn {
    fn new(fail_on: &[&str]) -> Self {
        FailingOn {
            fail_on: fail_on.iter().map(|s| s.to_string()).collect(),
            address: Ok("10.0.0.5 fe80::1".to_string()),
            log: RefCell::new(Vec::new()),
        }
    }

    fn outcome(&self, program: &str, args: &[String]) -> Result<(), String> {
        self.log.borrow_mut().push(format!("{program} {}", args.join(" ")));
        for word in &self.fail_on {
            if program == word || args.iter().any(|a| a == word) {
                return Err(format!("{word} failed"));
            }
        }
        Ok(())
    }

    fn ran(&self, prefix: &str) -> bool {
        self.log.borrow().iter().any(|l| l.starts_with(prefix))
    }
}

fn owned(args: &[&str]) -> Vec<String> {
    args.iter().map(|s| s.to_string()).collect()
}

impl CommandRunner for FailingOn {
    fn run(&self, program: &str, args: &[&str]) -> Result<String, String> {
        self.outcome(program, &owned(args))?;
        self.address.clone()
    }

    fn run_status(&self, program: &str, args: &[&str]) -> Result<(), String> {
        self.outcome(program, &owned(args))
    }

    fn run_owned(&self, program: &str, args: &[String]) -> Result<String, String> {
        self.outcome(program, args)?;
        Ok(String::new())
    }

    fn run_status_owned(&self, program: &str, args: &[String]) -> Result<(), String> {
        self.outcome(program, args)
    }

    fn run_status_owned_with_input(&self, program: &str, args: &[String], _input: &str) -> Result<(), String> {
        self.outcome(program, args)
    }
}

fn spec_with_ctid() -> Spec {
    let mut spec = Spec::from(&Config {
        dry_run: false,
        hostname: None,
        storage: None,
        template_storage: None,
        bridge: None,
        memory: None,
        swap: None,
        disk: None,
        cores: None,
        znc_user: None,
        nick: Some("ricky".into()),
        alt_nick: None,
        realname: None,
        password: Some("pw".into()),
        irc_server: None,
        irc_port: None,
        irc_network: None,
    });
    spec.ctid = Some("105".into());
    spec
}

#[test]
fn missing_znc_user_is_added() {
    let runner = FailingOn::new(&["id"]);
    assert_eq!(ensure_znc_user(&runner, "105"), Ok(()));
    assert!(runner.ran("pct exec 105 -- adduser -D -h /var/lib/znc -s /sbin/nologin znc"));
}

#[test]
fn existing_znc_user_is_kept() {
    let runner = FailingOn::new(&[]);
    assert_eq!(ensure_znc_user(&runner, "105"), Ok(()));
    assert!(!runner.ran("pct exec 105 -- adduser"));
}

#[test]
fn failed_adduser_is_reported() {
    let runner = FailingOn::new(&["id", "adduser"]);
    assert_eq!(ensure_znc_user(&runner, "105"), Err("adduser failed".to_string()));
}

#[test]
fn directories_stop_at_first_failure() {
    let runner = FailingOn::new(&["/var/lib/znc"]);
    assert_eq!(ensure_znc_dirs(&runner, "105"), Err("/var/lib/znc failed".to_string()));
    assert!(!runner.ran("pct exec 105 -- install -d -o znc -g znc /var/lib/znc/configs"));
    let runner = FailingOn::new(&["/var/lib/znc/configs"]);
    assert_eq!(ensure_znc_dirs(&runner, "105"), Err("/var/lib/znc/configs failed".to_string()));
}

#[test]
fn service_is_not_started_when_enabling_fails() {
    let runner = FailingOn::new(&["rc-update"]);
    assert_eq!(enable_service(&runner, "105"), Err("rc-update failed".to_string()));
    assert!(!runner.ran("pct exec 105 -- rc-service"));
    let runner = FailingOn::new(&[]);
    assert_eq!(enable_service(&runner, "105"), Ok(()));
    assert!(runner.ran("pct exec 105 -- rc-service znc start"));
}

#[test]
fn reachability_follows_ping() {
    assert!(network_reachable(&FailingOn::new(&[]), "105"));
    assert!(!network_reachable(&FailingOn::new(&["ping"]), "105"));
}

#[test]
fn address_is_first_word_of_hostname_output() {
    assert_eq!(container_address(&FailingOn::new(&[]), "105"), Some("10.0.0.5".to_string()));
    assert_eq!(container_address(&FailingOn::new(&["hostname"]), "105"), None);
    let mut blank = FailingOn::new(&[]);
    blank.address = Ok("  \n".to_string());
    assert_eq!(container_address(&blank, "105"), None);
}

#[test]
fn host_validation_stops_at_first_missing_command() {
    let spec = spec_with_ctid();
    let runner = FailingOn::new(&["command -v pct >/dev/null"]);
    assert_eq!(spec.validate_host(&runner), Err("command -v pct >/dev/null failed".to_string()));
    assert!(!runner.ran("sh -lc command -v pveam"));
    let runner = FailingOn::new(&[]);
    assert_eq!(spec.validate_host(&runner), Ok(()));
    assert!(runner.ran("sh -lc command -v pveam >/dev/null"));
}

#[test]
fn configure_ends_at_failed_chown() {
    let mut spec = spec_with_ctid();
    let runner = FailingOn::new(&["chown"]);
    let step = spec.install(&runner, "1.1.1.1", InstallStage::Configure, Ok(()));
    assert!(matches!(step, Err(ref e) if e == "chown failed"));
    assert!(!runner.ran("pct exec 105 -- rc-update"));
    let runner = FailingOn::new(&[]);
    let step = spec.install(&runner, "1.1.1.1", InstallStage::Configure, Ok(()));
    assert!(matches!(step, Ok((InstallStage::Address(0), InstallAction::Proceed))));
}

#[test]
fn prepare_stops_at_failed_uname() {
    let mut spec = spec_with_ctid();
    spec.ctid = None;
    let runner = FailingOn::new(&["uname"]);
    let step = spec.install(&runner, "1.1.1.1", InstallStage::Prepare, Ok(()));
    assert!(matches!(step, Err(ref e) if e == "uname failed"));
    assert_eq!(spec.ctid, None);
    assert!(!runner.ran("pvesh"));
}

#[test]
fn unknown_architecture_stops_before_pvesh() {
    let mut spec = spec_with_ctid();
    spec.ctid = None;
    let runner = FailingOn::new(&[]);
    let step = spec.install(&runner, "1.1.1.1", InstallStage::Prepare, Ok(()));
    assert!(matches!(step, Err(ref e) if e == "unsupported host architecture for Alpine template lookup: "));
    assert_eq!(spec.ctid, None);
    assert!(runner.ran("uname -m"));
    assert!(!runner.ran("pvesh"));
}

#[test]
fn address_step_keeps_first_word_or_asks_again() {
    let mut spec = spec_with_ctid();
    let step = spec.install(&FailingOn::new(&[]), "1.1.1.1", InstallStage::Address(0), Ok(()));
    assert!(matches!(step, Ok((InstallStage::Finished, InstallAction::Done))));
    assert_eq!(spec.container_ip, Some("10.0.0.5".to_string()));
    let mut spec = spec_with_ctid();
    let step = spec.install(&FailingOn::new(&["hostname"]), "1.1.1.1", InstallStage::Address(3), Ok(()));
    assert!(matches!(step, Ok((InstallStage::Address(4), InstallAction::Pause { seconds: 2 }))));
    assert_eq!(spec.container_ip, None);
}
