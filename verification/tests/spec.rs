use proxmox_znc::cli::Config;
use proxmox_znc::commands::{
    container_command, container_create_args, first_address_of, makeconf_answers,
};
use proxmox_znc::constants;
use proxmox_znc::spec::{map_arch, newest_template, pick_template, template_listed, text_less, Spec};

fn config() -> Config {
    Config {
        dry_run: true,
        hostname: None,
        storage: None,
        template_storage: None,
        bridge: None,
        memory: None,
        swap: None,
        disk: None,
        cores: None,
        znc_user: Some("admin".to_string()),
        nick: None,
        alt_nick: None,
        realname: None,
        password: None,
        irc_server: None,
        irc_port: Some(7000),
        irc_network: None,
    }
}

#[test]
fn makeconf_answers_includes_password_twice() {
    let answers = makeconf_answers(
        "znc",
        "secret",
        "nick",
        "nick_",
        "real",
        "libera",
        "irc.libera.chat",
        6697,
    );

    let lines: Vec<&str> = answers.lines().collect();
    assert_eq!(lines[0], constants::DEFAULT_ZNC_LISTENER_PORT.to_string());
    assert_eq!(lines[4], "znc");
    assert_eq!(lines[5], "secret");
    assert_eq!(lines[6], "secret");
    assert_eq!(lines[7], "nick");
    assert_eq!(lines[8], "nick_");
}

#[test]
fn makeconf_answers_read_back_in_order() {
    let answers = makeconf_answers("u", "p", "n", "a", "r", "net", "srv", 6697);
    let lines: Vec<&str> = answers.lines().collect();
    assert_eq!(
        lines,
        vec![
            "6501", "yes", "yes", "", "u", "p", "p", "n", "a", "u", "r", "", "yes", "net", "srv",
            "yes", "6697", "", "", "no"
        ]
    );
    assert!(answers.ends_with("no\n"));
}

#[test]
fn spec_takes_defaults_for_missing_settings() {
    let spec = Spec::from(&config());
    assert_eq!(spec.hostname, constants::DEFAULT_ZNC_NAME);
    assert_eq!(spec.storage, constants::DEFAULT_STORAGE);
    assert_eq!(spec.template_storage, constants::DEFAULT_TEMPLATE_STORAGE);
    assert_eq!(spec.bridge, constants::DEFAULT_BRIDGE);
    assert_eq!(spec.memory, constants::DEFAULT_MEMORY_MB);
    assert_eq!(spec.swap, constants::DEFAULT_SWAP_MB);
    assert_eq!(spec.disk, constants::DEFAULT_DISK_GB);
    assert_eq!(spec.cores, constants::DEFAULT_CORES);
    assert_eq!(spec.znc_user, "admin");
    assert_eq!(spec.nick, constants::DEFAULT_NICK);
    assert_eq!(spec.alt_nick, "admin_");
    assert_eq!(spec.realname, constants::DEFAULT_NICK);
    assert_eq!(spec.password, "");
    assert_eq!(spec.irc_server, constants::DEFAULT_IRC_SERVER);
    assert_eq!(spec.irc_port, 7000);
    assert_eq!(spec.irc_network, constants::DEFAULT_IRC_NETWORK);
    assert!(spec.ctid.is_none());
    assert!(spec.container_ip.is_none());
}

#[test]
fn alt_nick_default_uses_default_user() {
    let mut cfg = config();
    cfg.znc_user = None;
    let spec = Spec::from(&cfg);
    assert_eq!(spec.alt_nick, "znc_");
}

#[test]
fn map_arch_known_and_unknown() {
    assert_eq!(map_arch("x86_64\n"), Ok("amd64".to_string()));
    assert_eq!(map_arch(" aarch64 "), Ok("arm64".to_string()));
    assert_eq!(map_arch("armv7l"), Ok("armv7".to_string()));
    assert_eq!(map_arch("armv7"), Ok("armv7".to_string()));
    assert_eq!(map_arch("riscv64"), Ok("riscv64".to_string()));
    assert_eq!(
        map_arch(" mips \n"),
        Err("unsupported host architecture for Alpine template lookup: mips".to_string())
    );
}

const AVAILABLE: &str = "system          alpine-3.18-default_20230607_amd64.tar.xz\nsystem          alpine-3.20-default_20240908_amd64.tar.xz\nsystem          alpine-3.19-default_20240207_amd64.tar.xz\nsystem          alpine-3.20-default_20240908_arm64.tar.xz\nsystem          debian-12-standard_12.7-1_amd64.tar.zst\nturnkeylinux    alpine-3.21-default_20250101_amd64.tar.gz\n";

#[test]
fn newest_alpine_template_is_picked() {
    assert_eq!(
        newest_template(AVAILABLE, "amd64"),
        Some("alpine-3.20-default_20240908_amd64.tar.xz".to_string())
    );
    assert_eq!(
        pick_template(AVAILABLE, "arm64"),
        Ok("alpine-3.20-default_20240908_arm64.tar.xz".to_string())
    );
    assert_eq!(
        pick_template(AVAILABLE, "riscv64"),
        Err("could not find an Alpine template for architecture riscv64".to_string())
    );
}

#[test]
fn text_order_is_byte_order() {
    assert!(text_less("alpine-3.19", "alpine-3.20"));
    assert!(!text_less("alpine-3.20", "alpine-3.19"));
    assert!(text_less("alpine", "alpine-3"));
    assert!(!text_less("same", "same"));
}

#[test]
fn listed_template_is_found_by_first_column() {
    let list = "local:vztmpl/x.tar.xz 1MB\nalpine-3.20-default_20240908_amd64.tar.xz 3MB\n";
    assert!(template_listed(list, "alpine-3.20-default_20240908_amd64.tar.xz"));
    assert!(!template_listed(list, "3MB"));
    assert!(!template_listed("", "anything"));
}

#[test]
fn create_args_match_pct_create() {
    let args = container_create_args(
        "105", "znc", "local-lvm", "local:vztmpl/a.tar.xz", "vmbr0", 256, 128, 2, 1, "1.1.1.1 8.8.8.8",
    );
    assert_eq!(
        args,
        vec![
            "create", "105", "local:vztmpl/a.tar.xz", "--hostname", "znc", "--ostype", "alpine",
            "--unprivileged", "1", "--cores", "1", "--memory", "256", "--swap", "128", "--rootfs",
            "local-lvm:2", "--net0", "name=eth0,bridge=vmbr0,ip=dhcp", "--nameserver",
            "1.1.1.1 8.8.8.8", "--onboot", "1"
        ]
    );
}

#[test]
fn container_commands_run_through_pct_exec() {
    assert_eq!(container_command("7", &["id", "znc"]), vec!["exec", "7", "--", "id", "znc"]);
}

#[test]
fn first_address_is_the_first_word() {
    assert_eq!(first_address_of("10.0.0.5 fd00::5\n"), Some("10.0.0.5".to_string()));
    assert_eq!(first_address_of("  \n"), None);
}

#[test]
fn print_shows_plan_in_a_box() {
    let spec = Spec::from(&config());
    let out = spec.print();
    assert_eq!(out[0], "");
    let width = "  IRC server: irc.libera.chat:7000".len();
    assert_eq!(out.len(), 21 + 3);
    assert!(out[1].starts_with("\x1b[38;5;205m╔"));
    assert_eq!(out[1].matches('═').count(), width + 2);
    assert_eq!(
        out[2],
        format!(
            "\x1b[38;5;205m║\x1b[0m\x1b[38;5;51m {:<w$} \x1b[38;5;205m║\x1b[0m",
            "Would create Alpine LXC with:",
            w = width
        )
    );
    assert!(out.iter().any(|l| l.contains("  Memory: 256 MB ")));
    assert!(out.iter().any(|l| l.contains("  IRC server: irc.libera.chat:7000")));
    assert!(out[out.len() - 1].starts_with("\x1b[38;5;205m╚"));
}

#[test]
fn print_done_reports_ctid_or_unavailable() {
    let mut spec = Spec::from(&config());
    let out = spec.print_done();
    assert!(out.iter().any(|l| l.contains("Container ID: unavailable")));
    assert!(out.iter().any(|l| l.contains("IRC client login format: admin/libera:<password>")));
    spec.ctid = Some("123".to_string());
    let out = spec.print_done();
    assert!(out.iter().any(|l| l.contains("Container ID: 123")));
}

#[test]
fn box_rows_line_up() {
    let spec = Spec::from(&config());
    let out = spec.print();
    let rows = &out[2..out.len() - 1];
    let widths: Vec<usize> = rows.iter().map(|r| r.chars().count()).collect();
    assert!(widths.iter().all(|w| *w == widths[0]));
    assert_eq!(out[1].chars().count(), out[out.len() - 1].chars().count());
}
