use proxmox_znc::cli::{default_nick_from_hostname, Ask, Config, NumberField, TextField};
use proxmox_znc::constants;

fn empty_config() -> Config {
    Config {
        dry_run: false,
        hostname: None,
        storage: None,
        template_storage: None,
        bridge: None,
        memory: None,
        swap: None,
        disk: None,
        cores: None,
        znc_user: None,
        nick: None,
        alt_nick: None,
        realname: None,
        password: None,
        irc_server: None,
        irc_port: None,
        irc_network: None,
    }
}

fn full_config() -> Config {
    Config {
        dry_run: true,
        hostname: Some("bouncer".to_string()),
        storage: Some("tank".to_string()),
        template_storage: Some("nas".to_string()),
        bridge: Some("vmbr1".to_string()),
        memory: Some(512),
        swap: Some(128),
        disk: Some(4),
        cores: Some(2),
        znc_user: Some("admin".to_string()),
        nick: Some("ricky".to_string()),
        alt_nick: Some("ricky__".to_string()),
        realname: Some("Ricky".to_string()),
        password: Some("hunter2".to_string()),
        irc_server: Some("irc.example.org".to_string()),
        irc_port: Some(7000),
        irc_network: Some("example".to_string()),
    }
}

fn strings(items: &[&str]) -> Vec<String> {
    items.iter().map(|s| s.to_string()).collect()
}

#[test]
fn default_nick_prefers_hostname() {
    assert_eq!(default_nick_from_hostname(Some("alpha")), "alpha");
    assert_eq!(default_nick_from_hostname(None), constants::DEFAULT_NICK);
}

#[test]
fn first_question_is_the_hostname() {
    let mut cfg = empty_config();
    let (stage, q) = cfg.prompt_missing(0, &Vec::new(), &Vec::new());
    let q = q.expect("a question");
    assert_eq!(stage, 0);
    assert_eq!(q.prompt, "Container hostname");
    match q.ask {
        Ask::Text { field: TextField::Hostname, default_text } => {
            assert_eq!(default_text, constants::DEFAULT_ZNC_NAME)
        }
        _ => panic!("expected a text question for the hostname"),
    }
}

#[test]
fn given_settings_are_never_asked() {
    let mut cfg = full_config();
    let (stage, q) = cfg.prompt_missing(0, &strings(&["local", "tank"]), &strings(&["local", "nas"]));
    assert!(q.is_none());
    assert_eq!(stage, 17);
    assert_eq!(cfg.hostname.as_deref(), Some("bouncer"));
    assert_eq!(cfg.template_storage.as_deref(), Some("nas"));
}

#[test]
fn single_template_storage_is_taken_without_asking() {
    let mut cfg = full_config();
    let (_, q) = cfg.prompt_missing(0, &strings(&["local"]), &strings(&["local"]));
    assert!(q.is_none());
    assert_eq!(cfg.template_storage.as_deref(), Some("local"));
}

#[test]
fn storage_choice_defaults_to_local_lvm() {
    let mut cfg = empty_config();
    cfg.hostname = Some("znc".to_string());
    let storages = strings(&["local", "local-lvm", "wd"]);
    let (stage, q) = cfg.prompt_missing(0, &storages, &Vec::new());
    let q = q.expect("a question");
    assert_eq!(stage, 1);
    assert!(q.is_answerable());
    match &q.ask {
        Ask::Choice { field: TextField::Storage, options, default_index } => {
            assert_eq!(options, &storages);
            assert_eq!(*default_index, 1);
        }
        _ => panic!("expected a choice of storage"),
    }
    cfg.answer(&q, "\n").unwrap();
    assert_eq!(cfg.storage.as_deref(), Some("local-lvm"));
}

#[test]
fn choice_by_number_and_by_name() {
    let storages = strings(&["local", "local-lvm", "wd"]);
    let mut cfg = empty_config();
    let (_, q) = cfg.prompt_missing(1, &storages, &Vec::new());
    let q = q.unwrap();
    cfg.answer(&q, "3\n").unwrap();
    assert_eq!(cfg.storage.as_deref(), Some("wd"));

    let mut cfg = empty_config();
    cfg.answer(&q, "local\r\n").unwrap();
    assert_eq!(cfg.storage.as_deref(), Some("local"));

    let mut cfg = empty_config();
    assert_eq!(cfg.answer(&q, "9\n"), Err("invalid choice: 9".to_string()));
    assert!(cfg.storage.is_none());
}

#[test]
fn nick_defaults_follow_earlier_answers() {
    let mut cfg = full_config();
    cfg.nick = None;
    cfg.znc_user = None;
    cfg.alt_nick = None;
    cfg.realname = None;
    let (stage, q) = cfg.prompt_missing(0, &Vec::new(), &Vec::new());
    assert_eq!(stage, 9);
    let q = q.unwrap();
    match &q.ask {
        Ask::Text { field: TextField::Nick, default_text } => assert_eq!(default_text, "bouncer"),
        _ => panic!("expected the nick"),
    }
    cfg.answer(&q, "\n").unwrap();
    let (stage, q) = cfg.prompt_missing(stage + 1, &Vec::new(), &Vec::new());
    assert_eq!(stage, 10);
    let q = q.unwrap();
    match &q.ask {
        Ask::Text { field: TextField::ZncUser, default_text } => assert_eq!(default_text, "bouncer"),
        _ => panic!("expected the ZNC user"),
    }
    cfg.answer(&q, "boss\n").unwrap();
    let (stage, q) = cfg.prompt_missing(stage + 1, &Vec::new(), &Vec::new());
    assert_eq!(stage, 11);
    match &q.unwrap().ask {
        Ask::Text { field: TextField::AltNick, default_text } => assert_eq!(default_text, "boss_"),
        _ => panic!("expected the alternate nick"),
    }
}

#[test]
fn number_answers() {
    let mut cfg = full_config();
    cfg.memory = None;
    let (stage, q) = cfg.prompt_missing(0, &Vec::new(), &Vec::new());
    assert_eq!(stage, 5);
    let q = q.unwrap();
    match &q.ask {
        Ask::Number { setting: NumberField::Memory, default_number } => {
            assert_eq!(*default_number, constants::DEFAULT_MEMORY_MB)
        }
        _ => panic!("expected memory"),
    }
    assert_eq!(cfg.answer(&q, "lots\n"), Err("invalid number: lots".to_string()));
    assert!(cfg.memory.is_none());
    assert_eq!(cfg.answer(&q, "4294967296\n"), Err("invalid number: 4294967296".to_string()));
    cfg.answer(&q, "+1024\n").unwrap();
    assert_eq!(cfg.memory, Some(1024));
    cfg.answer(&q, "2048\n").unwrap();
    assert_eq!(cfg.memory, Some(1024));
}

#[test]
fn port_answers() {
    let mut cfg = full_config();
    cfg.irc_port = None;
    let (stage, q) = cfg.prompt_missing(0, &Vec::new(), &Vec::new());
    assert_eq!(stage, 14);
    let q = q.unwrap();
    assert_eq!(cfg.answer(&q, "70000\n"), Err("invalid number: 70000".to_string()));
    cfg.answer(&q, "\n").unwrap();
    assert_eq!(cfg.irc_port, Some(constants::DEFAULT_IRC_PORT));
}

#[test]
fn password_is_required() {
    let mut cfg = full_config();
    cfg.password = None;
    let (stage, q) = cfg.prompt_missing(0, &Vec::new(), &Vec::new());
    assert_eq!(stage, 16);
    let q = q.unwrap();
    assert_eq!(cfg.answer(&q, "\n"), Err("ZNC password is required".to_string()));
    cfg.answer(&q, "s3cret\n").unwrap();
    assert_eq!(cfg.password.as_deref(), Some("s3cret"));
    let (stage, q) = cfg.prompt_missing(stage + 1, &Vec::new(), &Vec::new());
    assert_eq!(stage, 17);
    assert!(q.is_none());
}

#[test]
fn whole_flow_fills_every_setting() {
    let mut cfg = empty_config();
    let mut stage = 0;
    let mut asked = Vec::new();
    loop {
        let (k, q) = cfg.prompt_missing(stage, &Vec::new(), &Vec::new());
        match q {
            None => break,
            Some(q) => {
                asked.push(q.prompt.clone());
                let line = if q.prompt == "ZNC password" { "pw\n" } else { "\n" };
                cfg.answer(&q, line).unwrap();
                stage = k + 1;
            }
        }
    }
    assert_eq!(asked.len(), 16);
    assert_eq!(asked[2], "Template storage");
    assert_eq!(cfg.storage.as_deref(), Some(constants::DEFAULT_STORAGE));
    assert_eq!(cfg.template_storage.as_deref(), Some(constants::DEFAULT_TEMPLATE_STORAGE));
    assert_eq!(cfg.nick.as_deref(), Some(constants::DEFAULT_ZNC_NAME));
    assert_eq!(cfg.alt_nick.as_deref(), Some("znc_"));
    assert_eq!(cfg.irc_port, Some(constants::DEFAULT_IRC_PORT));
    assert_eq!(cfg.password.as_deref(), Some("pw"));
}

fn settings_text(c: &Config) -> String {
    format!(
        "{:?} {:?} {:?} {:?} {:?} {:?} {:?} {:?} {:?} {:?} {:?} {:?} {:?} {:?} {:?} {:?} {:?}",
        c.dry_run,
        c.hostname,
        c.storage,
        c.template_storage,
        c.bridge,
        c.memory,
        c.swap,
        c.disk,
        c.cores,
        c.znc_user,
        c.nick,
        c.alt_nick,
        c.realname,
        c.password,
        c.irc_server,
        c.irc_port,
        c.irc_network
    )
}

#[test]
fn second_run_of_questions_asks_nothing() {
    let storages = strings(&["local", "local-lvm", "nas"]);
    let templates = strings(&["local", "nas"]);
    let mut cfg = empty_config();
    let mut stage = 0;
    let mut asked = 0;
    loop {
        let (at, q) = cfg.prompt_missing(stage, &storages, &templates);
        let Some(q) = q else { break };
        let line = match q.ask {
            Ask::Secret { .. } => "hunter2\n",
            _ => "\n",
        };
        cfg.answer(&q, line).unwrap();
        asked += 1;
        stage = at + 1;
    }
    assert_eq!(asked, 16);
    let before = settings_text(&cfg);
    let (at, q) = cfg.prompt_missing(0, &storages, &templates);
    assert!(q.is_none());
    assert_eq!(at, 17);
    assert_eq!(settings_text(&cfg), before);
}
