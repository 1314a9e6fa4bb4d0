use std::cell::RefCell;

use proxmox_znc::cli::Config;
use proxmox_znc::commands::push_resolv_file;
use proxmox_znc::install::{InstallAction, InstallStage};
use proxmox_znc::process::CommandRunner;
use proxmox_znc::spec::Spec;

struct ScriptedRunner {
    log: RefCell<Vec<String>>,
    ping_failures: RefCell<u32>,
    apk_failures: RefCell<u32>,
    address: String,
    listed: String,
}

impl ScriptedRunner {
    fn new(ping_failures: u32, apk_failures: u32, address: &str) -> Self {
        ScriptedRunner {
            log: RefCell::new(Vec::new()),
            ping_failures: RefCell::new(ping_failures),
            apk_failures: RefCell::new(apk_failures),
            address: address.to_string(),
            listed: String::new(),
        }
    }

    fn record(&self, program: &str, args: &[String], input: Option<&str>) {
        let mut line = format!("{program} {}", args.join(" "));
        if let Some(i) = input {
            line.push_str(&format!(" <<{}", i.lines().count()));
        }
        self.log.borrow_mut().push(line);
    }

    fn outcome(&self, args: &[String]) -> Result<(), String> {
        if args.iter().any(|a| a == "ping") {
            let mut left = self.ping_failures.borrow_mut();
            if *left > 0 {
                *left -= 1;
                return Err("no network".into());
            }
        }
        if args.iter().any(|a| a == "apk") {
            let mut left = self.apk_failures.borrow_mut();
            if *left > 0 {
                *left -= 1;
                return Err("apk failed".into());
            }
        }
        Ok(())
    }
}

fn owned(args: &[&str]) -> Vec<String> {
    args.iter().map(|s| s.to_string()).collect()
}

impl CommandRunner for ScriptedRunner {
    fn run(&self, program: &str, args: &[&str]) -> Result<String, String> {
        let args = owned(args);
        self.record(program, &args, None);
        if args.iter().any(|a| a == "hostname") {
            return Ok(self.address.clone());
        }
        Err("unexpected".into())
    }

    fn run_status(&self, program: &str, args: &[&str]) -> Result<(), String> {
        let args = owned(args);
        self.record(program, &args, None);
        Ok(())
    }

    fn run_owned(&self, program: &str, args: &[String]) -> Result<String, String> {
        self.record(program, args, None);
        match (program, args.first().map(|s| s.as_str())) {
            ("uname", _) => Ok("x86_64".into()),
            ("pvesh", _) => Ok("105".into()),
            ("pveam", Some("available")) => Ok(
                "system alpine-3.19-default_20240207_amd64.tar.xz\nsystem alpine-3.20-default_20240908_amd64.tar.xz\n".into(),
            ),
            ("pveam", Some("list")) => Ok(self.listed.clone()),
            _ => Err("unexpected".into()),
        }
    }

    fn run_status_owned(&self, program: &str, args: &[String]) -> Result<(), String> {
        self.record(program, args, None);
        self.outcome(args)
    }

    fn run_status_owned_with_input(&self, program: &str, args: &[String], input: &str) -> Result<(), String> {
        self.record(program, args, Some(input));
        Ok(())
    }
}

fn spec() -> Spec {
    Spec::from(&Config {
        dry_run: false,
        hostname: Some("znc".into()),
        storage: None,
        template_storage: None,
        bridge: None,
        memory: None,
        swap: None,
        disk: None,
        cores: None,
        znc_user: None,
        nick: Some("ricky".into()),
        alt_nick: None,
        realname: None,
        password: Some("pw".into()),
        irc_server: None,
        irc_port: None,
        irc_network: None,
    })
}

fn drive(spec: &mut Spec, runner: &ScriptedRunner) -> (Result<(), String>, Vec<u64>) {
    let mut stage = InstallStage::Prepare;
    let mut outcome = Ok(());
    let mut pauses = Vec::new();
    loop {
        let (next, action) = match spec.install(runner, "1.1.1.1 8.8.8.8", stage, outcome.clone()) {
            Ok(step) => step,
            Err(e) => return (Err(e), pauses),
        };
        outcome = Ok(());
        match action {
            InstallAction::PushResolv { ctid, content } => {
                assert_eq!(content, "nameserver 1.1.1.1\nnameserver 8.8.8.8\n");
                outcome = push_resolv_file(runner, &ctid, "/tmp/resolv-test.conf");
            }
            InstallAction::Pause { seconds } => pauses.push(seconds),
            InstallAction::Proceed => {}
            InstallAction::Done => return (Ok(()), pauses),
        }
        stage = next;
    }
}

#[test]
fn install_runs_every_step_in_order() {
    let runner = ScriptedRunner::new(2, 1, "10.0.0.5 fd00::5");
    let mut spec = spec();
    let (result, pauses) = drive(&mut spec, &runner);
    assert_eq!(result, Ok(()));
    assert_eq!(pauses, vec![2, 2, 4]);
    assert_eq!(spec.ctid.as_deref(), Some("105"));
    assert_eq!(spec.container_ip.as_deref(), Some("10.0.0.5"));
    let log = runner.log.borrow();
    let expected = vec![
        "uname -m",
        "pvesh get /cluster/nextid",
        "pveam update",
        "pveam available",
        "pveam list local",
        "pveam download local alpine-3.20-default_20240908_amd64.tar.xz",
        "pct create 105 local:vztmpl/alpine-3.20-default_20240908_amd64.tar.xz --hostname znc --ostype alpine --unprivileged 1 --cores 1 --memory 256 --swap 256 --rootfs local-lvm:2 --net0 name=eth0,bridge=vmbr0,ip=dhcp --nameserver 1.1.1.1 8.8.8.8 --onboot 1",
        "pct start 105",
        "pct push 105 /tmp/resolv-test.conf /etc/resolv.conf",
        "pct exec 105 -- ping -c 1 -W 1 1.1.1.1",
        "pct exec 105 -- ping -c 1 -W 1 1.1.1.1",
        "pct exec 105 -- ping -c 1 -W 1 1.1.1.1",
        "pct exec 105 -- apk add --no-cache ca-certificates znc znc-openrc",
        "pct exec 105 -- apk add --no-cache ca-certificates znc znc-openrc",
        "pct exec 105 -- id znc",
        "pct exec 105 -- install -d -o znc -g znc /var/lib/znc",
        "pct exec 105 -- install -d -o znc -g znc /var/lib/znc/configs",
        "pct exec 105 -- su -s /bin/sh znc -c HOME=/var/lib/znc znc --datadir=/var/lib/znc --makeconf <<20",
        "pct exec 105 -- chown -R znc /var/lib/znc",
        "pct exec 105 -- rc-update add znc default",
        "pct exec 105 -- rc-service znc start",
        "pct exec 105 -- hostname -I",
    ];
    assert_eq!(*log, expected);
}

#[test]
fn network_probes_give_up_and_go_on() {
    let runner = ScriptedRunner::new(100, 0, "10.0.0.9");
    let mut spec = spec();
    let (result, pauses) = drive(&mut spec, &runner);
    assert_eq!(result, Ok(()));
    assert_eq!(pauses, vec![2; 12]);
    let pings = runner.log.borrow().iter().filter(|l| l.contains("ping")).count();
    assert_eq!(pings, 12);
}

#[test]
fn package_install_fails_after_last_try() {
    let runner = ScriptedRunner::new(0, 100, "10.0.0.9");
    let mut spec = spec();
    let (result, pauses) = drive(&mut spec, &runner);
    assert_eq!(result, Err("apk failed".to_string()));
    assert_eq!(pauses, vec![4; 5]);
    let tries = runner.log.borrow().iter().filter(|l| l.contains("apk")).count();
    assert_eq!(tries, 6);
}

#[test]
fn missing_address_is_left_unset() {
    let runner = ScriptedRunner::new(0, 0, "   ");
    let mut spec = spec();
    let (result, pauses) = drive(&mut spec, &runner);
    assert_eq!(result, Ok(()));
    assert_eq!(pauses, vec![2; 15]);
    assert!(spec.container_ip.is_none());
}

#[test]
fn push_failure_stops_the_install() {
    let runner = ScriptedRunner::new(0, 0, "10.0.0.5");
    let mut spec = spec();
    spec.ctid = Some("105".into());
    let step = spec.install(&runner, "1.1.1.1", InstallStage::Pushed, Err("push failed".into()));
    assert!(matches!(step, Err(ref e) if e == "push failed"));
    let step = spec.install(&runner, "1.1.1.1", InstallStage::Finished, Ok(()));
    assert!(matches!(step, Ok((InstallStage::Finished, InstallAction::Done))));
}

#[test]
fn listed_template_is_not_downloaded_again() {
    let mut runner = ScriptedRunner::new(0, 0, "10.0.0.5");
    runner.listed = "alpine-3.20-default_20240908_amd64.tar.xz 3MB\n".into();
    let mut spec = spec();
    let (result, _) = drive(&mut spec, &runner);
    assert_eq!(result, Ok(()));
    assert!(!runner.log.borrow().iter().any(|l| l.starts_with("pveam download")));
}
