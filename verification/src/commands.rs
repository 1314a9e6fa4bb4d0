//! The commands that set up the container, and the runs of them.
use vstd::prelude::*;
use crate::constants::{
    DEFAULT_PING_TARGET, DEFAULT_ZNC_LISTENER_PORT, DEFAULT_ZNC_NAME, DEFAULT_ZNC_USER,
    ZNC_OPENRC_PACKAGE,
};
use crate::lexical::{
    decimal, decimal_text, fits_one_line, is_word, join, join_text, lemma_decimal_one_line,
    lemma_lines_of_newline_ended, lemma_words_are_words, lines, words, words_of,
};
use crate::process::{
    after_step, arg_views, input_status_gives, owned_status_gives, run_gives, run_status_owned_through,
    run_status_through, run_through, run_with_input_through, status_gives, CommandRunner,
};

verus! {

/// Appends the text `s` to `v`.
pub fn push_text(v: &mut Vec<String>, s: &str)
    ensures
        final(v).deep_view() == old(v).deep_view().push(s@),
{
    let ghost before = v.deep_view();
    v.push(s.to_string());
    assert(v.deep_view() =~= before.push(s@));
}

/// Appends an empty text to `v`.
pub fn push_blank(v: &mut Vec<String>)
    ensures
        final(v).deep_view() == old(v).deep_view().push(Seq::<char>::empty()),
{
    let ghost before = v.deep_view();
    v.push(String::new());
    assert(v.deep_view() =~= before.push(Seq::<char>::empty()));
}

/// The arguments of `pct` that run `cmd` inside container `ctid`.
pub open spec fn in_container(ctid: Seq<char>, cmd: Seq<Seq<char>>) -> Seq<Seq<char>> {
    seq!["exec"@, ctid, "--"@] + cmd
}

/// The arguments of `pct` that run `cmd` inside container `ctid`.
pub fn container_command(ctid: &str, cmd: &[&str]) -> (r: Vec<String>)
    ensures
        r.deep_view() == in_container(ctid@, arg_views(cmd@)),
{
    let mut r: Vec<String> = Vec::new();
    push_text(&mut r, "exec");
    push_text(&mut r, ctid);
    push_text(&mut r, "--");
    for i in 0..cmd.len()
        invariant
            r.deep_view() == in_container(ctid@, arg_views(cmd@).take(i as int)),
    {
        push_text(&mut r, cmd[i]);
        assert(arg_views(cmd@).take(i + 1) =~= arg_views(cmd@).take(i as int).push(cmd@[i as int]@));
        assert(in_container(ctid@, arg_views(cmd@).take(i + 1)) =~= in_container(
            ctid@,
            arg_views(cmd@).take(i as int),
        ).push(cmd@[i as int]@));
    }
    assert(arg_views(cmd@).take(cmd@.len() as int) =~= arg_views(cmd@));
    r
}

/// `r` is an outcome that running `pct` with `args` can give.
pub open spec fn pct_gives<R: CommandRunner>(
    runner: &R,
    args: Seq<Seq<char>>,
    r: Result<(), String>,
) -> bool {
    owned_status_gives(runner, "pct"@, args, r)
}

/// Runs `pct` with `args` and tells whether it succeeded.
pub fn run_pct<R: CommandRunner>(runner: &R, args: &Vec<String>) -> (r: Result<(), String>)
    ensures
        pct_gives(runner, args.deep_view(), r),
{
    run_status_owned_through(runner, "pct", args.as_slice())
}

/// The arguments of `pct create` for the new container.
pub open spec fn create_args(
    ctid: Seq<char>,
    hostname: Seq<char>,
    storage: Seq<char>,
    template_ref: Seq<char>,
    bridge: Seq<char>,
    memory: nat,
    swap: nat,
    disk: nat,
    cores: nat,
    nameservers: Seq<char>,
) -> Seq<Seq<char>> {
    seq![
        "create"@,
        ctid,
        template_ref,
        "--hostname"@,
        hostname,
        "--ostype"@,
        "alpine"@,
        "--unprivileged"@,
        "1"@,
        "--cores"@,
        decimal(cores),
        "--memory"@,
        decimal(memory),
        "--swap"@,
        decimal(swap),
        "--rootfs"@,
        storage + ":"@ + decimal(disk),
        "--net0"@,
        "name=eth0,bridge="@ + bridge + ",ip=dhcp"@,
        "--nameserver"@,
        nameservers,
        "--onboot"@,
        "1"@,
    ]
}

/// The arguments of `pct create` for the new container.
pub fn container_create_args(
    ctid: &str,
    hostname: &str,
    storage: &str,
    template_ref: &str,
    bridge: &str,
    memory: u32,
    swap: u32,
    disk: u32,
    cores: u32,
    nameservers: &str,
) -> (r: Vec<String>)
    ensures
        r.deep_view() == create_args(
            ctid@,
            hostname@,
            storage@,
            template_ref@,
            bridge@,
            memory as nat,
            swap as nat,
            disk as nat,
            cores as nat,
            nameservers@,
        ),
{
    let mut rootfs = storage.to_string();
    rootfs.append(":");
    rootfs.append(decimal_text(disk as u64).as_str());
    let mut net0 = "name=eth0,bridge=".to_string();
    net0.append(bridge);
    net0.append(",ip=dhcp");
    let mut r: Vec<String> = Vec::new();
    push_text(&mut r, "create");
    push_text(&mut r, ctid);
    push_text(&mut r, template_ref);
    push_text(&mut r, "--hostname");
    push_text(&mut r, hostname);
    push_text(&mut r, "--ostype");
    push_text(&mut r, "alpine");
    push_text(&mut r, "--unprivileged");
    push_text(&mut r, "1");
    push_text(&mut r, "--cores");
    push_text(&mut r, decimal_text(cores as u64).as_str());
    push_text(&mut r, "--memory");
    push_text(&mut r, decimal_text(memory as u64).as_str());
    push_text(&mut r, "--swap");
    push_text(&mut r, decimal_text(swap as u64).as_str());
    push_text(&mut r, "--rootfs");
    push_text(&mut r, rootfs.as_str());
    push_text(&mut r, "--net0");
    push_text(&mut r, net0.as_str());
    push_text(&mut r, "--nameserver");
    push_text(&mut r, nameservers);
    push_text(&mut r, "--onboot");
    push_text(&mut r, "1");
    assert(r.deep_view() =~= create_args(
        ctid@,
        hostname@,
        storage@,
        template_ref@,
        bridge@,
        memory as nat,
        swap as nat,
        disk as nat,
        cores as nat,
        nameservers@,
    ));
    r
}

/// Creates the container with `pct create`, with the arguments of
/// `container_create_args`.
pub fn create_container<R: CommandRunner>(
    runner: &R,
    ctid: &str,
    hostname: &str,
    storage: &str,
    template_ref: &str,
    bridge: &str,
    memory: u32,
    swap: u32,
    disk: u32,
    cores: u32,
    nameservers: &str,
) -> (r: Result<(), String>)
    ensures
        pct_gives(
            runner,
            create_args(
                ctid@,
                hostname@,
                storage@,
                template_ref@,
                bridge@,
                memory as nat,
                swap as nat,
                disk as nat,
                cores as nat,
                nameservers@,
            ),
            r,
        ),
{
    let args = container_create_args(
        ctid,
        hostname,
        storage,
        template_ref,
        bridge,
        memory,
        swap,
        disk,
        cores,
        nameservers,
    );
    run_pct(runner, &args)
}

/// The arguments of `pct` that start container `ctid`.
pub open spec fn start_args(ctid: Seq<char>) -> Seq<Seq<char>> {
    seq!["start"@, ctid]
}

/// Starts container `ctid`.
pub fn start_container<R: CommandRunner>(runner: &R, ctid: &str) -> (r: Result<(), String>)
    ensures
        pct_gives(runner, start_args(ctid@), r),
{
    let args = start_container_args(ctid);
    run_pct(runner, &args)
}

/// The arguments of `pct` that start container `ctid`.
pub fn start_container_args(ctid: &str) -> (r: Vec<String>)
    ensures
        r.deep_view() == start_args(ctid@),
{
    let mut args: Vec<String> = Vec::new();
    push_text(&mut args, "start");
    push_text(&mut args, ctid);
    assert(args.deep_view() =~= start_args(ctid@));
    args
}

/// The arguments of `pct` that copy the host file `path` to the container's
/// `/etc/resolv.conf`.
pub open spec fn push_args(ctid: Seq<char>, path: Seq<char>) -> Seq<Seq<char>> {
    seq!["push"@, ctid, path, "/etc/resolv.conf"@]
}

/// Copies the host file `path` to the container's `/etc/resolv.conf`.
pub fn push_resolv_file<R: CommandRunner>(runner: &R, ctid: &str, path: &str) -> (r: Result<
    (),
    String,
>)
    ensures
        pct_gives(runner, push_args(ctid@, path@), r),
{
    let args = push_resolv_args(ctid, path);
    run_pct(runner, &args)
}

/// The arguments of `pct` that copy the host file `path` to the container's
/// `/etc/resolv.conf`.
pub fn push_resolv_args(ctid: &str, path: &str) -> (r: Vec<String>)
    ensures
        r.deep_view() == push_args(ctid@, path@),
{
    let mut args: Vec<String> = Vec::new();
    push_text(&mut args, "push");
    push_text(&mut args, ctid);
    push_text(&mut args, path);
    push_text(&mut args, "/etc/resolv.conf");
    assert(args.deep_view() =~= push_args(ctid@, path@));
    args
}

/// The arguments of `pct` that ping the outside world once from the container.
pub open spec fn ping_args(ctid: Seq<char>) -> Seq<Seq<char>> {
    in_container(ctid, seq!["ping"@, "-c"@, "1"@, "-W"@, "1"@, DEFAULT_PING_TARGET@])
}

/// Pings the outside world once from the container; tells whether it answered.
pub fn network_reachable<R: CommandRunner>(runner: &R, ctid: &str) -> (r: bool)
    ensures
        exists|o: Result<(), String>| #[trigger] pct_gives(runner, ping_args(ctid@), o) && r == o is Ok,
{
    let args = ping_command(ctid);
    run_pct(runner, &args).is_ok()
}

/// The arguments of `pct` that ping the outside world once from the container.
pub fn ping_command(ctid: &str) -> (r: Vec<String>)
    ensures
        r.deep_view() == ping_args(ctid@),
{
    let cmd: [&str; 6] = ["ping", "-c", "1", "-W", "1", DEFAULT_PING_TARGET];
    assert(arg_views(cmd@) =~= seq!["ping"@, "-c"@, "1"@, "-W"@, "1"@, DEFAULT_PING_TARGET@]);
    container_command(ctid, &cmd)
}

/// The arguments of `pct` that install ZNC and its service in the container.
pub open spec fn package_args(ctid: Seq<char>) -> Seq<Seq<char>> {
    in_container(
        ctid,
        seq![
            "apk"@,
            "add"@,
            "--no-cache"@,
            "ca-certificates"@,
            DEFAULT_ZNC_NAME@,
            ZNC_OPENRC_PACKAGE@,
        ],
    )
}

/// Installs ZNC and its service in the container, once.
pub fn add_packages<R: CommandRunner>(runner: &R, ctid: &str) -> (r: Result<(), String>)
    ensures
        pct_gives(runner, package_args(ctid@), r),
{
    let args = package_command(ctid);
    run_pct(runner, &args)
}

/// The arguments of `pct` that install ZNC and its service in the container.
pub fn package_command(ctid: &str) -> (r: Vec<String>)
    ensures
        r.deep_view() == package_args(ctid@),
{
    let cmd: [&str; 6] = [
        "apk",
        "add",
        "--no-cache",
        "ca-certificates",
        DEFAULT_ZNC_NAME,
        ZNC_OPENRC_PACKAGE,
    ];
    assert(arg_views(cmd@) =~= seq![
        "apk"@,
        "add"@,
        "--no-cache"@,
        "ca-certificates"@,
        DEFAULT_ZNC_NAME@,
        ZNC_OPENRC_PACKAGE@,
    ]);
    container_command(ctid, &cmd)
}

/// The arguments of `pct` that look up the ZNC system user.
pub open spec fn user_check_args(ctid: Seq<char>) -> Seq<Seq<char>> {
    in_container(ctid, seq!["id"@, DEFAULT_ZNC_USER@])
}

/// The arguments of `pct` that add the ZNC system user.
pub open spec fn user_add_args(ctid: Seq<char>) -> Seq<Seq<char>> {
    in_container(
        ctid,
        seq![
            "adduser"@,
            "-D"@,
            "-h"@,
            "/var/lib/znc"@,
            "-s"@,
            "/sbin/nologin"@,
            DEFAULT_ZNC_USER@,
        ],
    )
}

/// `r` is an outcome of making sure the ZNC user exists: success when `id`
/// finds it, else the outcome of adding it.
pub open spec fn znc_user_gives<R: CommandRunner>(
    runner: &R,
    ctid: Seq<char>,
    r: Result<(), String>,
) -> bool {
    exists|check: Result<(), String>|
        #[trigger] pct_gives(runner, user_check_args(ctid), check) && if check is Ok {
            r == Ok::<(), String>(())
        } else {
            pct_gives(runner, user_add_args(ctid), r)
        }
}

/// Adds the ZNC system user to the container unless `id` finds it there.
pub fn ensure_znc_user<R: CommandRunner>(runner: &R, ctid: &str) -> (r: Result<(), String>)
    ensures
        znc_user_gives(runner, ctid@, r),
{
    let check_args = user_check_command(ctid);
    match run_pct(runner, &check_args) {
        Ok(()) => Ok(()),
        Err(_) => {
            let add_args = user_add_command(ctid);
            run_pct(runner, &add_args)
        },
    }
}

/// The arguments of `pct` that look up the ZNC system user.
pub fn user_check_command(ctid: &str) -> (r: Vec<String>)
    ensures
        r.deep_view() == user_check_args(ctid@),
{
    let cmd: [&str; 2] = ["id", DEFAULT_ZNC_USER];
    assert(arg_views(cmd@) =~= seq!["id"@, DEFAULT_ZNC_USER@]);
    container_command(ctid, &cmd)
}

/// The arguments of `pct` that add the ZNC system user.
pub fn user_add_command(ctid: &str) -> (r: Vec<String>)
    ensures
        r.deep_view() == user_add_args(ctid@),
{
    let cmd: [&str; 7] = [
        "adduser",
        "-D",
        "-h",
        "/var/lib/znc",
        "-s",
        "/sbin/nologin",
        DEFAULT_ZNC_USER,
    ];
    assert(arg_views(cmd@) =~= seq![
        "adduser"@,
        "-D"@,
        "-h"@,
        "/var/lib/znc"@,
        "-s"@,
        "/sbin/nologin"@,
        DEFAULT_ZNC_USER@,
    ]);
    container_command(ctid, &cmd)
}

/// The arguments of `pct` that create directory `dir`, owned by the ZNC user.
pub open spec fn dir_args(ctid: Seq<char>, dir: Seq<char>) -> Seq<Seq<char>> {
    in_container(
        ctid,
        seq!["install"@, "-d"@, "-o"@, DEFAULT_ZNC_USER@, "-g"@, DEFAULT_ZNC_USER@, dir],
    )
}

/// `r` is an outcome of creating ZNC's data directory and then, if that
/// succeeded, its `configs` directory.
pub open spec fn znc_dirs_gives<R: CommandRunner>(
    runner: &R,
    ctid: Seq<char>,
    r: Result<(), String>,
) -> bool {
    exists|first: Result<(), String>|
        #[trigger] pct_gives(runner, dir_args(ctid, "/var/lib/znc"@), first) && after_step(
            first,
            pct_gives(runner, dir_args(ctid, "/var/lib/znc/configs"@), r),
            r,
        )
}

/// Creates ZNC's data directory and its `configs` directory, in that order,
/// stopping at the first failure.
pub fn ensure_znc_dirs<R: CommandRunner>(runner: &R, ctid: &str) -> (r: Result<(), String>)
    ensures
        znc_dirs_gives(runner, ctid@, r),
{
    let first = dir_command(ctid, "/var/lib/znc");
    match run_pct(runner, &first) {
        Ok(()) => {},
        Err(e) => {
            return Err(e);
        },
    }
    let second = dir_command(ctid, "/var/lib/znc/configs");
    run_pct(runner, &second)
}

/// The arguments of `pct` that create directory `dir`, owned by the ZNC user.
pub fn dir_command(ctid: &str, dir: &str) -> (r: Vec<String>)
    ensures
        r.deep_view() == dir_args(ctid@, dir@),
{
    let cmd: [&str; 7] = ["install", "-d", "-o", DEFAULT_ZNC_USER, "-g", DEFAULT_ZNC_USER, dir];
    assert(arg_views(cmd@) =~= seq![
        "install"@,
        "-d"@,
        "-o"@,
        DEFAULT_ZNC_USER@,
        "-g"@,
        DEFAULT_ZNC_USER@,
        dir@,
    ]);
    container_command(ctid, &cmd)
}

/// The answers that `znc --makeconf` asks for, one per line: the listener
/// port, SSL, IPv6, the listen host, the admin user and twice its password,
/// nick, alternate nick, ident, real name, bind host, whether to set up a
/// network, its name, server, SSL, port, server password, channels, and
/// whether to start ZNC now.
pub open spec fn answer_fields(
    znc_user: Seq<char>,
    znc_password: Seq<char>,
    irc_nick: Seq<char>,
    irc_alt_nick: Seq<char>,
    irc_realname: Seq<char>,
    irc_network: Seq<char>,
    irc_server: Seq<char>,
    irc_port: nat,
) -> Seq<Seq<char>> {
    seq![
        decimal(DEFAULT_ZNC_LISTENER_PORT as nat),
        "yes"@,
        "yes"@,
        seq![],
        znc_user,
        znc_password,
        znc_password,
        irc_nick,
        irc_alt_nick,
        znc_user,
        irc_realname,
        seq![],
        "yes"@,
        irc_network,
        irc_server,
        "yes"@,
        decimal(irc_port),
        seq![],
        seq![],
        "no"@,
    ]
}

/// The text fed to `znc --makeconf`: the answers joined by newlines, with a
/// final newline.
pub open spec fn makeconf_text(fields: Seq<Seq<char>>) -> Seq<char> {
    join(fields, "\n"@) + "\n"@
}

/// The text fed to `znc --makeconf`.
pub fn makeconf_answers(
    znc_user: &str,
    znc_password: &str,
    irc_nick: &str,
    irc_alt_nick: &str,
    irc_realname: &str,
    irc_network: &str,
    irc_server: &str,
    irc_port: u16,
) -> (r: String)
    ensures
        r@ == makeconf_text(
            answer_fields(
                znc_user@,
                znc_password@,
                irc_nick@,
                irc_alt_nick@,
                irc_realname@,
                irc_network@,
                irc_server@,
                irc_port as nat,
            ),
        ),
{
    let mut fields: Vec<String> = Vec::new();
    push_text(&mut fields, decimal_text(DEFAULT_ZNC_LISTENER_PORT as u64).as_str());
    push_text(&mut fields, "yes");
    push_text(&mut fields, "yes");
    push_blank(&mut fields);
    push_text(&mut fields, znc_user);
    push_text(&mut fields, znc_password);
    push_text(&mut fields, znc_password);
    push_text(&mut fields, irc_nick);
    push_text(&mut fields, irc_alt_nick);
    push_text(&mut fields, znc_user);
    push_text(&mut fields, irc_realname);
    push_blank(&mut fields);
    push_text(&mut fields, "yes");
    push_text(&mut fields, irc_network);
    push_text(&mut fields, irc_server);
    push_text(&mut fields, "yes");
    push_text(&mut fields, decimal_text(irc_port as u64).as_str());
    push_blank(&mut fields);
    push_blank(&mut fields);
    push_text(&mut fields, "no");
    assert(fields.deep_view() =~= answer_fields(
        znc_user@,
        znc_password@,
        irc_nick@,
        irc_alt_nick@,
        irc_realname@,
        irc_network@,
        irc_server@,
        irc_port as nat,
    ));
    let mut text = join_text(&fields, "\n");
    text.append("\n");
    text
}

/// The arguments of `pct` that run `znc --makeconf` as the ZNC user.
pub open spec fn makeconf_args(ctid: Seq<char>) -> Seq<Seq<char>> {
    in_container(
        ctid,
        seq![
            "su"@,
            "-s"@,
            "/bin/sh"@,
            DEFAULT_ZNC_USER@,
            "-c"@,
            "HOME=/var/lib/znc znc --datadir=/var/lib/znc --makeconf"@,
        ],
    )
}

/// Writes ZNC's configuration by feeding the answers of `makeconf_answers`
/// to `znc --makeconf`, run as the ZNC user.
pub fn run_makeconf<R: CommandRunner>(
    runner: &R,
    ctid: &str,
    znc_user: &str,
    znc_password: &str,
    irc_nick: &str,
    irc_alt_nick: &str,
    irc_realname: &str,
    irc_network: &str,
    irc_server: &str,
    irc_port: u16,
) -> (r: Result<(), String>)
    ensures
        input_status_gives(
            runner,
            "pct"@,
            makeconf_args(ctid@),
            makeconf_text(
                answer_fields(
                    znc_user@,
                    znc_password@,
                    irc_nick@,
                    irc_alt_nick@,
                    irc_realname@,
                    irc_network@,
                    irc_server@,
                    irc_port as nat,
                ),
            ),
            r,
        ),
{
    let answers = makeconf_answers(
        znc_user,
        znc_password,
        irc_nick,
        irc_alt_nick,
        irc_realname,
        irc_network,
        irc_server,
        irc_port,
    );
    let args = makeconf_command(ctid);
    run_with_input_through(runner, "pct", args.as_slice(), answers.as_str())
}

/// The arguments of `pct` that run `znc --makeconf` as the ZNC user.
pub fn makeconf_command(ctid: &str) -> (r: Vec<String>)
    ensures
        r.deep_view() == makeconf_args(ctid@),
{
    let cmd: [&str; 6] = [
        "su",
        "-s",
        "/bin/sh",
        DEFAULT_ZNC_USER,
        "-c",
        "HOME=/var/lib/znc znc --datadir=/var/lib/znc --makeconf",
    ];
    assert(arg_views(cmd@) =~= seq![
        "su"@,
        "-s"@,
        "/bin/sh"@,
        DEFAULT_ZNC_USER@,
        "-c"@,
        "HOME=/var/lib/znc znc --datadir=/var/lib/znc --makeconf"@,
    ]);
    container_command(ctid, &cmd)
}

/// The arguments of `pct` that hand ZNC's data directory to the ZNC user.
pub open spec fn chown_args(ctid: Seq<char>) -> Seq<Seq<char>> {
    in_container(ctid, seq!["chown"@, "-R"@, DEFAULT_ZNC_USER@, "/var/lib/znc"@])
}

/// Hands ZNC's data directory to the ZNC user.
pub fn chown_znc_tree<R: CommandRunner>(runner: &R, ctid: &str) -> (r: Result<(), String>)
    ensures
        pct_gives(runner, chown_args(ctid@), r),
{
    let args = chown_command(ctid);
    run_pct(runner, &args)
}

/// The arguments of `pct` that hand ZNC's data directory to the ZNC user.
pub fn chown_command(ctid: &str) -> (r: Vec<String>)
    ensures
        r.deep_view() == chown_args(ctid@),
{
    let cmd: [&str; 4] = ["chown", "-R", DEFAULT_ZNC_USER, "/var/lib/znc"];
    assert(arg_views(cmd@) =~= seq!["chown"@, "-R"@, DEFAULT_ZNC_USER@, "/var/lib/znc"@]);
    container_command(ctid, &cmd)
}

/// The arguments of `pct` that start ZNC at boot.
pub open spec fn rc_update_args(ctid: Seq<char>) -> Seq<Seq<char>> {
    in_container(ctid, seq!["rc-update"@, "add"@, DEFAULT_ZNC_USER@, "default"@])
}

/// The arguments of `pct` that start ZNC now.
pub open spec fn rc_service_args(ctid: Seq<char>) -> Seq<Seq<char>> {
    in_container(ctid, seq!["rc-service"@, DEFAULT_ZNC_USER@, "start"@])
}

/// `r` is an outcome of enabling ZNC's service at boot and then, if that
/// succeeded, starting it.
pub open spec fn service_gives<R: CommandRunner>(
    runner: &R,
    ctid: Seq<char>,
    r: Result<(), String>,
) -> bool {
    exists|first: Result<(), String>|
        #[trigger] pct_gives(runner, rc_update_args(ctid), first) && after_step(
            first,
            pct_gives(runner, rc_service_args(ctid), r),
            r,
        )
}

/// Enables ZNC's service at boot, then starts it.
pub fn enable_service<R: CommandRunner>(runner: &R, ctid: &str) -> (r: Result<(), String>)
    ensures
        service_gives(runner, ctid@, r),
{
    let add_args = rc_update_command(ctid);
    match run_pct(runner, &add_args) {
        Ok(()) => {},
        Err(e) => {
            return Err(e);
        },
    }
    let start_args = rc_service_command(ctid);
    run_pct(runner, &start_args)
}

/// The arguments of `pct` that start ZNC at boot.
pub fn rc_update_command(ctid: &str) -> (r: Vec<String>)
    ensures
        r.deep_view() == rc_update_args(ctid@),
{
    let cmd: [&str; 4] = ["rc-update", "add", DEFAULT_ZNC_USER, "default"];
    assert(arg_views(cmd@) =~= seq!["rc-update"@, "add"@, DEFAULT_ZNC_USER@, "default"@]);
    container_command(ctid, &cmd)
}

/// The arguments of `pct` that start ZNC now.
pub fn rc_service_command(ctid: &str) -> (r: Vec<String>)
    ensures
        r.deep_view() == rc_service_args(ctid@),
{
    let cmd: [&str; 3] = ["rc-service", DEFAULT_ZNC_USER, "start"];
    assert(arg_views(cmd@) =~= seq!["rc-service"@, DEFAULT_ZNC_USER@, "start"@]);
    container_command(ctid, &cmd)
}

/// The first address in an output of `hostname -I`, if there is one.
pub open spec fn first_address(output: Seq<char>) -> Option<Seq<char>> {
    if words(output).len() > 0 {
        Some(words(output)[0])
    } else {
        None
    }
}

/// The first address in the output of `hostname -I`, if there is one.
pub fn first_address_of(output: &str) -> (r: Option<String>)
    ensures
        match r {
            Some(a) => first_address(output@) == Some(a@),
            None => first_address(output@) is None,
        },
{
    let ws = words_of(output);
    if ws.len() > 0 {
        Some(ws[0].clone())
    } else {
        None
    }
}

/// The arguments of `pct` that ask container `ctid` for its addresses.
pub open spec fn address_args(ctid: Seq<char>) -> Seq<Seq<char>> {
    in_container(ctid, seq!["hostname"@, "-I"@])
}

/// The first address in `out`, the outcome of asking for the addresses.
pub open spec fn address_from(out: Result<String, String>) -> Option<Seq<char>> {
    match out {
        Ok(o) => first_address(o@),
        Err(_) => None,
    }
}

/// Asks the container for its addresses once; gives back the first.
pub fn container_address<R: CommandRunner>(runner: &R, ctid: &str) -> (r: Option<String>)
    ensures
        exists|out: Result<String, String>|
            #[trigger] run_gives(runner, "pct"@, address_args(ctid@), out) && address_from(out)
                == (match r {
                Some(a) => Some(a@),
                None => None::<Seq<char>>,
            }),
        r matches Some(a) ==> is_word(a@),
{
    let args: [&str; 5] = ["exec", ctid, "--", "hostname", "-I"];
    assert(arg_views(args@) =~= address_args(ctid@));
    match run_through(runner, "pct", &args) {
        Ok(out) => {
            let found = first_address_of(out.as_str());
            proof {
                lemma_words_are_words(out@);
            }
            found
        },
        Err(_) => None,
    }
}

/// The shell line that succeeds when the host has the command `cmd`.
pub open spec fn has_command_script(cmd: Seq<char>) -> Seq<char> {
    "command -v "@ + cmd + " >/dev/null"@
}

/// `r` is an outcome of asking `sh` whether the host has the command `cmd`.
pub open spec fn host_command_gives<R: CommandRunner>(
    runner: &R,
    cmd: Seq<char>,
    r: Result<(), String>,
) -> bool {
    status_gives(runner, "sh"@, seq!["-lc"@, has_command_script(cmd)], r)
}

/// Checks through `sh` that the host has the command `cmd`.
pub fn check_host_command<R: CommandRunner>(runner: &R, cmd: &str) -> (r: Result<(), String>)
    ensures
        host_command_gives(runner, cmd@, r),
{
    let script = has_command_line(cmd);
    let args: [&str; 2] = ["-lc", script.as_str()];
    assert(arg_views(args@) =~= seq!["-lc"@, has_command_script(cmd@)]);
    run_status_through(runner, "sh", &args)
}

/// The shell line that succeeds when the host has the command `cmd`.
pub fn has_command_line(cmd: &str) -> (r: String)
    ensures
        r@ == has_command_script(cmd@),
{
    let mut script = "command -v ".to_string();
    script.append(cmd);
    script.append(" >/dev/null");
    script
}

/// Read back line by line, the text fed to `znc --makeconf` gives the
/// answers one per line, in order, as long as no setting in it holds a
/// newline or ends with a carriage return.
pub proof fn lemma_makeconf_lines(
    znc_user: Seq<char>,
    znc_password: Seq<char>,
    irc_nick: Seq<char>,
    irc_alt_nick: Seq<char>,
    irc_realname: Seq<char>,
    irc_network: Seq<char>,
    irc_server: Seq<char>,
    irc_port: nat,
)
    requires
        fits_one_line(znc_user),
        fits_one_line(znc_password),
        fits_one_line(irc_nick),
        fits_one_line(irc_alt_nick),
        fits_one_line(irc_realname),
        fits_one_line(irc_network),
        fits_one_line(irc_server),
    ensures
        lines(
            makeconf_text(
                answer_fields(
                    znc_user,
                    znc_password,
                    irc_nick,
                    irc_alt_nick,
                    irc_realname,
                    irc_network,
                    irc_server,
                    irc_port,
                ),
            ),
        ) == answer_fields(
            znc_user,
            znc_password,
            irc_nick,
            irc_alt_nick,
            irc_realname,
            irc_network,
            irc_server,
            irc_port,
        ),
{
    let fs = answer_fields(
        znc_user,
        znc_password,
        irc_nick,
        irc_alt_nick,
        irc_realname,
        irc_network,
        irc_server,
        irc_port,
    );
    lemma_decimal_one_line(DEFAULT_ZNC_LISTENER_PORT as nat);
    lemma_decimal_one_line(irc_port);
    reveal_strlit("yes");
    reveal_strlit("no");
    assert(fits_one_line("yes"@));
    assert(fits_one_line("no"@));
    assert(fits_one_line(Seq::<char>::empty()));
    assert forall|k: int| 0 <= k < fs.len() implies fits_one_line(#[trigger] fs[k]) by {}
    lemma_lines_of_newline_ended(fs);
}

} // verus!
