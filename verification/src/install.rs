//! Installing the container, step by step. The steps that run commands are
//! taken here; between steps the caller pauses, or copies the nameserver file
//! into the container, as each step asks.
use vstd::prelude::*;
use crate::commands::{
    add_packages, address_args, address_from, answer_fields, package_args, ping_args, chown_args, chown_znc_tree, container_address, create_args,
    create_container, enable_service, ensure_znc_dirs, ensure_znc_user, makeconf_args,
    makeconf_text, network_reachable, pct_gives, push_text, run_makeconf, service_gives,
    start_args, start_container, znc_dirs_gives, znc_user_gives,
};
use crate::lexical::{is_word, trim, words};
use crate::process::{
    after_step, input_status_gives, owned_gives, run_gives, run_owned_through, CommandRunner,
};
use crate::resolv::{resolv_conf_content, resolv_text};
use crate::spec::{
    concat, download_alpine_template, download_gives, map_arch, template_arch, Spec, SpecView,
};

verus! {

/// How often the container's network is probed before going on anyway.
pub open spec fn network_attempts() -> nat {
    12
}

/// How often installing the packages is tried before the last try.
pub open spec fn package_attempts() -> nat {
    5
}

/// How often the container is asked for its address before giving up.
pub open spec fn address_attempts() -> nat {
    15
}

/// Where an install stands.
#[derive(Clone, Copy, Debug)]
pub enum InstallStage {
    /// Nothing has been done yet.
    Prepare,
    /// The container runs; its nameserver file has been copied in, or not.
    Pushed,
    /// Probing the network, after `n` failed probes.
    Network(u32),
    /// Installing the packages, after `n` failed tries.
    Packages(u32),
    /// The packages are installed; ZNC is to be set up.
    Configure,
    /// Asking for the container's address, after `n` failed asks.
    Address(u32),
    /// The install is over.
    Finished,
}

/// What the caller does before the next step.
pub enum InstallAction {
    /// Write `content` to a file on the host, copy it to the container's
    /// `/etc/resolv.conf` (see `commands::push_resolv_file`), remove the file,
    /// and hand the outcome to the next step.
    PushResolv { ctid: String, content: String },
    /// Wait this many seconds.
    Pause { seconds: u64 },
    /// Go on at once.
    Proceed,
    /// Nothing; the install is over.
    Done,
}

/// What the caller does before the next step, with texts as character sequences.
pub enum ActionView {
    PushResolv(Seq<char>, Seq<char>),
    Pause(u64),
    Proceed,
    Done,
}

/// The view of an action.
pub open spec fn action_view(a: InstallAction) -> ActionView {
    match a {
        InstallAction::PushResolv { ctid, content } => ActionView::PushResolv(ctid@, content@),
        InstallAction::Pause { seconds } => ActionView::Pause(seconds),
        InstallAction::Proceed => ActionView::Proceed,
        InstallAction::Done => ActionView::Done,
    }
}

/// The view of the outcome of a step.
pub open spec fn step_view(r: Result<(InstallStage, InstallAction), String>) -> Result<
    (InstallStage, ActionView),
    Seq<char>,
> {
    match r {
        Ok((s, a)) => Ok((s, action_view(a))),
        Err(e) => Err(e@),
    }
}

/// The steps that can follow `stage` when it goes well, with what the caller
/// does in between.
pub open spec fn successor(stage: InstallStage, next: InstallStage, action: ActionView) -> bool {
    match stage {
        InstallStage::Prepare => next is Pushed && action is PushResolv,
        InstallStage::Pushed => next == InstallStage::Network(0) && action is Proceed,
        InstallStage::Network(k) => if k >= network_attempts() {
            next == InstallStage::Packages(0) && action is Proceed
        } else {
            (next == InstallStage::Packages(0) && action is Proceed) || (next
                == InstallStage::Network((k + 1) as u32) && action == ActionView::Pause(2))
        },
        InstallStage::Packages(k) => if k >= package_attempts() {
            next is Configure && action is Proceed
        } else {
            (next is Configure && action is Proceed) || (next == InstallStage::Packages(
                (k + 1) as u32,
            ) && action == ActionView::Pause(4))
        },
        InstallStage::Configure => next == InstallStage::Address(0) && action is Proceed,
        InstallStage::Address(k) => if k >= address_attempts() {
            next is Finished && action is Done
        } else {
            (next is Finished && action is Done) || (next == InstallStage::Address((k + 1) as u32)
                && action == ActionView::Pause(2))
        },
        InstallStage::Finished => next is Finished && action is Done,
    }
}

/// How many steps at most are left from `stage`.
pub open spec fn steps_left(stage: InstallStage) -> nat {
    match stage {
        InstallStage::Prepare => 2 + network_attempts() + 1 + package_attempts() + 2
            + address_attempts() + 1,
        InstallStage::Pushed => 1 + network_attempts() + 1 + package_attempts() + 2
            + address_attempts() + 1,
        InstallStage::Network(k) => (if k >= network_attempts() {
            0
        } else {
            (network_attempts() - k) as nat
        }) + 1 + package_attempts() + 2 + address_attempts() + 1,
        InstallStage::Packages(k) => (if k >= package_attempts() {
            0
        } else {
            (package_attempts() - k) as nat
        }) + 2 + address_attempts() + 1,
        InstallStage::Configure => 1 + address_attempts() + 1,
        InstallStage::Address(k) => (if k >= address_attempts() {
            0
        } else {
            (address_attempts() - k) as nat
        }) + 1,
        InstallStage::Finished => 0,
    }
}

/// Every step that goes well brings the install closer to its end, so an
/// install takes a bounded number of steps and pauses.
pub proof fn lemma_install_ends(stage: InstallStage, next: InstallStage, action: ActionView)
    requires
        successor(stage, next, action),
    ensures
        next is Finished || steps_left(next) < steps_left(stage),
        stage is Finished ==> next is Finished && action is Done,
{
}

/// The settings with the container's id set.
pub open spec fn with_ctid(s: SpecView, ctid: Seq<char>) -> SpecView {
    SpecView { ctid: Some(ctid), ..s }
}

/// The template reference `pct create` takes.
pub open spec fn template_ref(storage: Seq<char>, name: Seq<char>) -> Seq<char> {
    storage + ":vztmpl/"@ + name
}

/// Runs `program` with `args` and gives back its output.
fn run_capture<R: CommandRunner>(runner: &R, program: &str, args: &Vec<String>) -> (r: Result<
    String,
    String,
>)
    ensures
        owned_gives(runner, program@, args.deep_view(), r),
{
    run_owned_through(runner, program, args.as_slice())
}

/// The arguments of `uname` that print the host's architecture.
pub open spec fn uname_args() -> Seq<Seq<char>> {
    seq!["-m"@]
}

/// The arguments of `pvesh` that give the next free container id.
pub open spec fn nextid_args() -> Seq<Seq<char>> {
    seq!["get"@, "/cluster/nextid"@]
}

/// The message for a host architecture without Alpine templates.
pub open spec fn unsupported_arch_message(host_arch: Seq<char>) -> Seq<char> {
    "unsupported host architecture for Alpine template lookup: "@ + trim(host_arch)
}

/// The outcome of the first step when its last command, `pct start`, gave
/// `started`: that failure, or the request to copy the nameserver file of
/// `nameservers` into container `ctid`.
pub open spec fn prepare_finish(
    ctid: Seq<char>,
    nameservers: Seq<char>,
    started: Result<(), String>,
    r: Result<(InstallStage, InstallAction), String>,
) -> bool {
    after_step(
        started,
        step_view(r) == Ok::<(InstallStage, ActionView), Seq<char>>(
            (
                InstallStage::Pushed,
                ActionView::PushResolv(ctid, resolv_text(words(nameservers))),
            ),
        ),
        r,
    )
}

/// `r` is an outcome of the first step once the template `name` is there
/// and the container id is `ctid`: `pct create`, then `pct start`.
pub open spec fn prepare_from_template<R: CommandRunner>(
    runner: &R,
    s: SpecView,
    nameservers: Seq<char>,
    ctid: Seq<char>,
    name: Seq<char>,
    r: Result<(InstallStage, InstallAction), String>,
) -> bool {
    exists|made: Result<(), String>|
        #[trigger] pct_gives(
            runner,
            create_args(
                ctid,
                s.hostname,
                s.storage,
                template_ref(s.template_storage, name),
                s.bridge,
                s.memory as nat,
                s.swap as nat,
                s.disk as nat,
                s.cores as nat,
                nameservers,
            ),
            made,
        ) && after_step(
            made,
            exists|started: Result<(), String>|
                #[trigger] pct_gives(runner, start_args(ctid), started) && prepare_finish(
                    ctid,
                    nameservers,
                    started,
                    r,
                ),
            r,
        )
}

/// `r` is an outcome of the first step once the template architecture is
/// `arch` and the container id is `ctid`: the template download, then the
/// rest. The settings keep the container id from the moment the template is
/// there.
pub open spec fn prepare_from_id<R: CommandRunner>(
    runner: &R,
    s: SpecView,
    nameservers: Seq<char>,
    after: SpecView,
    arch: Seq<char>,
    ctid: Seq<char>,
    r: Result<(InstallStage, InstallAction), String>,
) -> bool {
    exists|t: Result<String, String>|
        #[trigger] download_gives(runner, s.template_storage, arch, t) && match t {
            Err(e) => after == s && r == Err::<(InstallStage, InstallAction), String>(e),
            Ok(name) => after == with_ctid(s, ctid) && prepare_from_template(
                runner,
                s,
                nameservers,
                ctid,
                name@,
                r,
            ),
        }
}

/// `r` is an outcome of the first step once the template architecture is
/// `arch`: `pvesh get /cluster/nextid`, then the rest.
pub open spec fn prepare_from_arch<R: CommandRunner>(
    runner: &R,
    s: SpecView,
    nameservers: Seq<char>,
    after: SpecView,
    arch: Seq<char>,
    r: Result<(InstallStage, InstallAction), String>,
) -> bool {
    exists|id: Result<String, String>|
        #[trigger] owned_gives(runner, "pvesh"@, nextid_args(), id) && match id {
            Err(e) => after == s && r == Err::<(InstallStage, InstallAction), String>(e),
            Ok(c) => prepare_from_id(runner, s, nameservers, after, arch, c@, r),
        }
}

/// `r` is an outcome of the first step, taken on settings `s` with
/// `nameservers`, that leaves the settings `after`: `uname -m`, the
/// template architecture, `pvesh get /cluster/nextid`, the template
/// download, `pct create` and `pct start`, in that order, the first failure
/// ending the step as it came.
pub open spec fn prepare_gives<R: CommandRunner>(
    runner: &R,
    s: SpecView,
    nameservers: Seq<char>,
    after: SpecView,
    r: Result<(InstallStage, InstallAction), String>,
) -> bool {
    exists|h: Result<String, String>|
        #[trigger] owned_gives(runner, "uname"@, uname_args(), h) && match h {
            Err(e) => after == s && r == Err::<(InstallStage, InstallAction), String>(e),
            Ok(host) => match template_arch(host@) {
                None => after == s && (r matches Err(m) && m@ == unsupported_arch_message(host@)),
                Some(arch) => prepare_from_arch(runner, s, nameservers, after, arch, r),
            },
        }
}

/// `r` is an outcome of the last part of setting up ZNC in container
/// `ctid`: enabling and starting its service.
pub open spec fn configure_from_service<R: CommandRunner>(
    runner: &R,
    ctid: Seq<char>,
    r: Result<(InstallStage, InstallAction), String>,
) -> bool {
    exists|e: Result<(), String>|
        #[trigger] service_gives(runner, ctid, e) && after_step(
            e,
            step_view(r) == Ok::<(InstallStage, ActionView), Seq<char>>(
                (InstallStage::Address(0), ActionView::Proceed),
            ),
            r,
        )
}

/// `r` is an outcome of setting up ZNC in container `ctid` once its
/// configuration is written: handing its data to its user, then the rest.
pub open spec fn configure_from_chown<R: CommandRunner>(
    runner: &R,
    ctid: Seq<char>,
    r: Result<(InstallStage, InstallAction), String>,
) -> bool {
    exists|c: Result<(), String>|
        #[trigger] pct_gives(runner, chown_args(ctid), c) && after_step(
            c,
            configure_from_service(runner, ctid, r),
            r,
        )
}

/// `r` is an outcome of setting up ZNC in container `ctid` with settings
/// `s` once its directories exist: writing its configuration, then the rest.
pub open spec fn configure_from_makeconf<R: CommandRunner>(
    runner: &R,
    ctid: Seq<char>,
    s: SpecView,
    r: Result<(InstallStage, InstallAction), String>,
) -> bool {
    exists|m: Result<(), String>|
        #[trigger] input_status_gives(
            runner,
            "pct"@,
            makeconf_args(ctid),
            makeconf_text(
                answer_fields(
                    s.znc_user,
                    s.password,
                    s.nick,
                    s.alt_nick,
                    s.realname,
                    s.irc_network,
                    s.irc_server,
                    s.irc_port as nat,
                ),
            ),
            m,
        ) && after_step(m, configure_from_chown(runner, ctid, r), r)
}

/// `r` is an outcome of setting up ZNC in container `ctid` with settings
/// `s` once its user exists: making its directories, then the rest.
pub open spec fn configure_from_dirs<R: CommandRunner>(
    runner: &R,
    ctid: Seq<char>,
    s: SpecView,
    r: Result<(InstallStage, InstallAction), String>,
) -> bool {
    exists|d: Result<(), String>|
        #[trigger] znc_dirs_gives(runner, ctid, d) && after_step(
            d,
            configure_from_makeconf(runner, ctid, s, r),
            r,
        )
}

/// `r` is an outcome of setting up ZNC in container `ctid` with settings
/// `s`: its user, its directories, its configuration, the ownership of its
/// data and its service, in that order, the first failure ending the step
/// as it came.
pub open spec fn configure_gives<R: CommandRunner>(
    runner: &R,
    ctid: Seq<char>,
    s: SpecView,
    r: Result<(InstallStage, InstallAction), String>,
) -> bool {
    exists|u: Result<(), String>|
        #[trigger] znc_user_gives(runner, ctid, u) && after_step(
            u,
            configure_from_dirs(runner, ctid, s, r),
            r,
        )
}

/// The template reference `pct create` takes for template `name` on `storage`.
pub fn template_reference(storage: &str, name: &str) -> (r: String)
    ensures
        r@ == template_ref(storage@, name@),
{
    let mut r = concat(storage, ":vztmpl/");
    r.append(name);
    r
}

/// What asking for the container's address after `k` failed asks did: the
/// first address found is kept and ends the install; when none is found the
/// install asks again after a pause, or, with the asks used up, ends
/// without an address.
pub open spec fn address_step(k: nat, before: SpecView, after: SpecView, next: InstallStage) -> bool {
    if next is Finished {
        if k >= address_attempts() {
            after == SpecView { container_ip: None, ..before }
        } else {
            exists|a: Seq<char>| is_word(a) && after == SpecView { container_ip: Some(a), ..before }
        }
    } else {
        after == before
    }
}

/// `(next, action)` is an outcome of probing the network of container
/// `ctid` after `k` failed probes: past the last probe, going on without
/// one; else one ping, going on when it answered and probing again after a
/// pause when it did not.
pub open spec fn network_gives<R: CommandRunner>(
    runner: &R,
    ctid: Seq<char>,
    k: u32,
    next: InstallStage,
    action: ActionView,
) -> bool {
    if k >= network_attempts() {
        next == InstallStage::Packages(0) && action is Proceed
    } else {
        exists|o: Result<(), String>|
            #[trigger] pct_gives(runner, ping_args(ctid), o) && if o is Ok {
                next == InstallStage::Packages(0) && action is Proceed
            } else {
                next == InstallStage::Network((k + 1) as u32) && action == ActionView::Pause(2)
            }
    }
}

/// `r` is an outcome of installing the packages in container `ctid` after
/// `k` failed tries: one `apk add`; on success ZNC is set up next; on
/// failure the next try follows a pause, and after the last try its failure
/// ends the install as it came.
pub open spec fn packages_gives<R: CommandRunner>(
    runner: &R,
    ctid: Seq<char>,
    k: u32,
    r: Result<(InstallStage, InstallAction), String>,
) -> bool {
    exists|o: Result<(), String>|
        #[trigger] pct_gives(runner, package_args(ctid), o) && match o {
            Ok(()) => step_view(r) == Ok::<(InstallStage, ActionView), Seq<char>>(
                (InstallStage::Configure, ActionView::Proceed),
            ),
            Err(e) => if k >= package_attempts() {
                r == Err::<(InstallStage, InstallAction), String>(e)
            } else {
                step_view(r) == Ok::<(InstallStage, ActionView), Seq<char>>(
                    (InstallStage::Packages((k + 1) as u32), ActionView::Pause(4)),
                )
            },
        }
}

/// `(next, action)`, with the settings `after`, is an outcome of asking
/// container `ctid`, of settings `before`, for its address after `k` failed
/// asks:
/// past the last ask, the install ends without an address; else one
/// `hostname -I`, whose first word, when there is one, is kept and ends the
/// install, and otherwise the next ask follows a pause.
pub open spec fn address_gives<R: CommandRunner>(
    runner: &R,
    ctid: Seq<char>,
    before: SpecView,
    k: u32,
    after: SpecView,
    next: InstallStage,
    action: ActionView,
) -> bool {
    if k >= address_attempts() {
        next is Finished && action is Done && after == SpecView { container_ip: None, ..before }
    } else {
        exists|out: Result<String, String>|
            #[trigger] run_gives(runner, "pct"@, address_args(ctid), out) && match address_from(
                out,
            ) {
                Some(a) => next is Finished && action is Done && after == SpecView {
                    container_ip: Some(a),
                    ..before
                },
                None => next == InstallStage::Address((k + 1) as u32) && action
                    == ActionView::Pause(2) && after == before,
            }
    }
}

impl Spec {
    /// The first step: finds the template architecture from `uname -m`, takes
    /// the next container id from `pvesh`, fetches the newest Alpine
    /// template, creates the container from it with the settings and
    /// `nameservers`, starts it, and asks for its nameserver file to be
    /// copied in.
    fn prepare<R: CommandRunner>(&mut self, runner: &R, nameservers: &str) -> (r: Result<
        (InstallStage, InstallAction),
        String,
    >)
        ensures
            r is Ok ==> exists|ctid: Seq<char>|
                final(self)@ == with_ctid(old(self)@, ctid) && step_view(r) == Ok::<
                    (InstallStage, ActionView),
                    Seq<char>,
                >(
                    (
                        InstallStage::Pushed,
                        ActionView::PushResolv(ctid, resolv_text(words(nameservers@))),
                    ),
                ),
            r is Err ==> final(self)@ == old(self)@ || exists|ctid: Seq<char>|
                final(self)@ == with_ctid(old(self)@, ctid),
            prepare_gives(runner, old(self)@, nameservers@, final(self)@, r),
    {
        let ghost s0 = self@;
        let ghost ns = nameservers@;
        let mut uname_command: Vec<String> = Vec::new();
        push_text(&mut uname_command, "-m");
        assert(uname_command.deep_view() =~= uname_args());
        let host = run_capture(runner, "uname", &uname_command);
        let host_arch = match host {
            Ok(out) => out,
            Err(e) => {
                assert(owned_gives(runner, "uname"@, uname_args(), host));
                return Err(e);
            },
        };
        let arch = match map_arch(host_arch.as_str()) {
            Ok(a) => a,
            Err(e) => {
                assert(owned_gives(runner, "uname"@, uname_args(), host));
                return Err(e);
            },
        };
        let mut nextid_command: Vec<String> = Vec::new();
        push_text(&mut nextid_command, "get");
        push_text(&mut nextid_command, "/cluster/nextid");
        assert(nextid_command.deep_view() =~= nextid_args());
        let id = run_capture(runner, "pvesh", &nextid_command);
        let ctid = match id {
            Ok(out) => out,
            Err(e) => {
                let ghost res = Err::<(InstallStage, InstallAction), String>(e);
                assert(prepare_from_arch(runner, s0, ns, s0, arch@, res));
                assert(owned_gives(runner, "uname"@, uname_args(), host));
                return Err(e);
            },
        };
        let fetched = download_alpine_template(
            runner,
            self.template_storage.as_str(),
            arch.as_str(),
        );
        let template_name = match fetched {
            Ok(name) => name,
            Err(e) => {
                let ghost res = Err::<(InstallStage, InstallAction), String>(e);
                assert(prepare_from_id(runner, s0, ns, s0, arch@, ctid@, res));
                assert(prepare_from_arch(runner, s0, ns, s0, arch@, res));
                assert(owned_gives(runner, "uname"@, uname_args(), host));
                return Err(e);
            },
        };
        let reference = template_reference(self.template_storage.as_str(), template_name.as_str());
        self.ctid = Some(ctid.clone());
        let ghost s1 = self@;
        assert(s1 == with_ctid(s0, ctid@));
        let made = create_container(
            runner,
            ctid.as_str(),
            self.hostname.as_str(),
            self.storage.as_str(),
            reference.as_str(),
            self.bridge.as_str(),
            self.memory,
            self.swap,
            self.disk,
            self.cores,
            nameservers,
        );
        match made {
            Ok(()) => {},
            Err(e) => {
                let ghost res = Err::<(InstallStage, InstallAction), String>(e);
                assert(prepare_from_template(runner, s0, ns, ctid@, template_name@, res));
                assert(prepare_from_id(runner, s0, ns, s1, arch@, ctid@, res));
                assert(prepare_from_arch(runner, s0, ns, s1, arch@, res));
                assert(owned_gives(runner, "uname"@, uname_args(), host));
                return Err(e);
            },
        }
        let started = start_container(runner, ctid.as_str());
        match started {
            Ok(()) => {},
            Err(e) => {
                let ghost res = Err::<(InstallStage, InstallAction), String>(e);
                assert(prepare_finish(ctid@, ns, started, res));
                assert(prepare_from_template(runner, s0, ns, ctid@, template_name@, res));
                assert(prepare_from_id(runner, s0, ns, s1, arch@, ctid@, res));
                assert(prepare_from_arch(runner, s0, ns, s1, arch@, res));
                assert(owned_gives(runner, "uname"@, uname_args(), host));
                return Err(e);
            },
        }
        let content = resolv_conf_content(nameservers);
        let ghost cv = ctid@;
        let res = Ok((InstallStage::Pushed, InstallAction::PushResolv { ctid, content }));
        assert(prepare_finish(cv, ns, started, res));
        assert(prepare_from_template(runner, s0, ns, cv, template_name@, res));
        assert(prepare_from_id(runner, s0, ns, s1, arch@, cv, res));
        assert(prepare_from_arch(runner, s0, ns, s1, arch@, res));
        assert(owned_gives(runner, "uname"@, uname_args(), host));
        res
    }

    /// Probes the container's network once.
    fn probe_network<R: CommandRunner>(&self, runner: &R, k: u32) -> (r: (
        InstallStage,
        InstallAction,
    ))
        requires
            self.ctid is Some,
        ensures
            successor(InstallStage::Network(k), r.0, action_view(r.1)),
            self@.ctid matches Some(c) && network_gives(runner, c, k, r.0, action_view(r.1)),
    {
        let ctid = match &self.ctid {
            Some(c) => c.as_str(),
            None => "",
        };
        assert(self@.ctid == Some(ctid@));
        if k >= 12 {
            return (InstallStage::Packages(0), InstallAction::Proceed);
        }
        let reachable = network_reachable(runner, ctid);
        let ghost o = choose|o: Result<(), String>|
            #[trigger] pct_gives(runner, ping_args(ctid@), o) && reachable == o is Ok;
        let res = if reachable {
            (InstallStage::Packages(0), InstallAction::Proceed)
        } else {
            (InstallStage::Network(k + 1), InstallAction::Pause { seconds: 2 })
        };
        assert(pct_gives(runner, ping_args(ctid@), o));
        assert(network_gives(runner, ctid@, k, res.0, action_view(res.1)));
        res
    }

    /// Tries once to install the packages; only the last try's failure ends
    /// the install.
    fn try_packages<R: CommandRunner>(&self, runner: &R, k: u32) -> (r: Result<
        (InstallStage, InstallAction),
        String,
    >)
        requires
            self.ctid is Some,
        ensures
            r matches Ok((n, a)) ==> successor(InstallStage::Packages(k), n, action_view(a)),
            r is Err ==> k >= package_attempts(),
            self@.ctid matches Some(c) && packages_gives(runner, c, k, r),
    {
        let ctid = match &self.ctid {
            Some(c) => c.as_str(),
            None => "",
        };
        assert(self@.ctid == Some(ctid@));
        let added = add_packages(runner, ctid);
        assert(pct_gives(runner, package_args(ctid@), added));
        match added {
            Ok(()) => Ok((InstallStage::Configure, InstallAction::Proceed)),
            Err(e) => {
                if k >= 5 {
                    Err(e)
                } else {
                    Ok((InstallStage::Packages(k + 1), InstallAction::Pause { seconds: 4 }))
                }
            },
        }
    }

    /// Sets up ZNC in the container: makes sure its user exists, makes its
    /// directories, writes its configuration from the settings, hands its
    /// data to its user, and enables and starts its service.
    fn configure<R: CommandRunner>(&self, runner: &R) -> (r: Result<
        (InstallStage, InstallAction),
        String,
    >)
        requires
            self.ctid is Some,
        ensures
            r matches Ok((n, a)) ==> successor(InstallStage::Configure, n, action_view(a)),
            self@.ctid matches Some(c) && configure_gives(runner, c, self@, r),
    {
        let ctid = match &self.ctid {
            Some(c) => c.as_str(),
            None => "",
        };
        assert(self@.ctid == Some(ctid@));
        let ghost c = ctid@;
        let ghost sv = self@;
        let user = ensure_znc_user(runner, ctid);
        match user {
            Ok(()) => {},
            Err(e) => {
                return Err(e);
            },
        }
        let dirs = ensure_znc_dirs(runner, ctid);
        match dirs {
            Ok(()) => {},
            Err(e) => {
                let ghost res = Err::<(InstallStage, InstallAction), String>(e);
                assert(configure_from_dirs(runner, c, sv, res));
                return Err(e);
            },
        }
        let configured = run_makeconf(
            runner,
            ctid,
            self.znc_user.as_str(),
            self.password.as_str(),
            self.nick.as_str(),
            self.alt_nick.as_str(),
            self.realname.as_str(),
            self.irc_network.as_str(),
            self.irc_server.as_str(),
            self.irc_port,
        );
        assert(input_status_gives(
            runner,
            "pct"@,
            makeconf_args(c),
            makeconf_text(
                answer_fields(
                    sv.znc_user,
                    sv.password,
                    sv.nick,
                    sv.alt_nick,
                    sv.realname,
                    sv.irc_network,
                    sv.irc_server,
                    sv.irc_port as nat,
                ),
            ),
            configured,
        ));
        match configured {
            Ok(()) => {},
            Err(e) => {
                let ghost res = Err::<(InstallStage, InstallAction), String>(e);
                assert(configure_from_makeconf(runner, c, sv, res));
                assert(configure_from_dirs(runner, c, sv, res));
                return Err(e);
            },
        }
        let owned = chown_znc_tree(runner, ctid);
        match owned {
            Ok(()) => {},
            Err(e) => {
                let ghost res = Err::<(InstallStage, InstallAction), String>(e);
                assert(configure_from_chown(runner, c, res));
                assert(configure_from_makeconf(runner, c, sv, res));
                assert(configure_from_dirs(runner, c, sv, res));
                return Err(e);
            },
        }
        let service = enable_service(runner, ctid);
        match service {
            Ok(()) => {},
            Err(e) => {
                let ghost res = Err::<(InstallStage, InstallAction), String>(e);
                assert(configure_from_service(runner, c, res));
                assert(configure_from_chown(runner, c, res));
                assert(configure_from_makeconf(runner, c, sv, res));
                assert(configure_from_dirs(runner, c, sv, res));
                return Err(e);
            },
        }
        let res = Ok((InstallStage::Address(0), InstallAction::Proceed));
        assert(configure_from_service(runner, c, res));
        assert(configure_from_chown(runner, c, res));
        assert(configure_from_makeconf(runner, c, sv, res));
        assert(configure_from_dirs(runner, c, sv, res));
        res
    }

    /// Asks the container for its address once.
    fn ask_address<R: CommandRunner>(&mut self, runner: &R, k: u32) -> (r: (
        InstallStage,
        InstallAction,
    ))
        requires
            old(self).ctid is Some,
        ensures
            successor(InstallStage::Address(k), r.0, action_view(r.1)),
            address_step(k as nat, old(self)@, final(self)@, r.0),
            old(self)@.ctid matches Some(c) && address_gives(
                runner,
                c,
                old(self)@,
                k,
                final(self)@,
                r.0,
                action_view(r.1),
            ),
    {
        if k >= 15 {
            self.container_ip = None;
            return (InstallStage::Finished, InstallAction::Done);
        }
        let ctid = match &self.ctid {
            Some(c) => c.as_str(),
            None => "",
        };
        assert(self@.ctid == Some(ctid@));
        let found = container_address(runner, ctid);
        proof {
            let out = choose|out: Result<String, String>|
                #[trigger] run_gives(runner, "pct"@, address_args(ctid@), out) && address_from(out)
                    == (match found {
                    Some(a) => Some(a@),
                    None => None::<Seq<char>>,
                });
            assert(run_gives(runner, "pct"@, address_args(ctid@), out));
        }
        let ghost before = self@;
        match found {
            Some(ip) => {
                let ghost a = ip@;
                self.container_ip = Some(ip);
                assert(self@ == SpecView { container_ip: Some(a), ..before });
                assert(address_gives(
                    runner,
                    ctid@,
                    before,
                    k,
                    self@,
                    InstallStage::Finished,
                    ActionView::Done,
                ));
                (InstallStage::Finished, InstallAction::Done)
            },
            None => {
                assert(address_gives(
                    runner,
                    ctid@,
                    before,
                    k,
                    self@,
                    InstallStage::Address((k + 1) as u32),
                    ActionView::Pause(2),
                ));
                (InstallStage::Address(k + 1), InstallAction::Pause { seconds: 2 })
            },
        }
    }

    /// Takes the install step `stage`, with `nameservers` for the container
    /// and, after a nameserver file was copied in, `outcome` of that copy.
    /// Gives back the next stage and what to do before it, or the error that
    /// ends the install. Only the first step may start without a container id.
    pub fn install<R: CommandRunner>(
        &mut self,
        runner: &R,
        nameservers: &str,
        stage: InstallStage,
        outcome: Result<(), String>,
    ) -> (r: Result<(InstallStage, InstallAction), String>)
        requires
            stage is Prepare || old(self).ctid is Some,
        ensures
            r matches Ok((n, a)) ==> successor(stage, n, action_view(a)),
            r is Ok ==> final(self).ctid is Some,
            stage is Prepare ==> {
                &&& r is Ok ==> exists|ctid: Seq<char>|
                    final(self)@ == with_ctid(old(self)@, ctid) && step_view(r) == Ok::<
                        (InstallStage, ActionView),
                        Seq<char>,
                    >(
                        (
                            InstallStage::Pushed,
                            ActionView::PushResolv(ctid, resolv_text(words(nameservers@))),
                        ),
                    )
                &&& r is Err ==> final(self)@ == old(self)@ || exists|ctid: Seq<char>|
                    final(self)@ == with_ctid(old(self)@, ctid)
            },
            stage is Pushed ==> final(self)@ == old(self)@ && step_view(r) == match outcome {
                Ok(()) => Ok::<(InstallStage, ActionView), Seq<char>>(
                    (InstallStage::Network(0), ActionView::Proceed),
                ),
                Err(e) => Err(e@),
            },
            stage is Prepare ==> prepare_gives(runner, old(self)@, nameservers@, final(self)@, r),
            stage is Network ==> final(self)@ == old(self)@ && r is Ok,
            stage matches InstallStage::Network(k) ==> (r matches Ok((n, a)) && (old(self)@.ctid matches Some(
                c,
            ) && network_gives(runner, c, k, n, action_view(a)))),
            stage matches InstallStage::Packages(k) ==> (old(self)@.ctid matches Some(c)
                && packages_gives(runner, c, k, r)),
            stage matches InstallStage::Packages(k) ==> final(self)@ == old(self)@ && (r is Err
                ==> k >= package_attempts()),
            stage is Configure ==> final(self)@ == old(self)@,
            stage is Configure ==> (old(self)@.ctid matches Some(c) && configure_gives(
                runner,
                c,
                old(self)@,
                r,
            )),
            stage matches InstallStage::Address(k) ==> (r matches Ok((n, a)) && (old(self)@.ctid matches Some(
                c,
            ) && address_gives(runner, c, old(self)@, k, final(self)@, n, action_view(a)))),
            stage matches InstallStage::Address(k) ==> (r matches Ok((n, _)) && address_step(
                k as nat,
                old(self)@,
                final(self)@,
                n,
            )),
            stage is Finished ==> final(self)@ == old(self)@ && step_view(r) == Ok::<
                (InstallStage, ActionView),
                Seq<char>,
            >((InstallStage::Finished, ActionView::Done)),
    {
        match stage {
            InstallStage::Prepare => self.prepare(runner, nameservers),
            InstallStage::Pushed => match outcome {
                Ok(()) => Ok((InstallStage::Network(0), InstallAction::Proceed)),
                Err(e) => Err(e),
            },
            InstallStage::Network(k) => Ok(self.probe_network(runner, k)),
            InstallStage::Packages(k) => self.try_packages(runner, k),
            InstallStage::Configure => self.configure(runner),
            InstallStage::Address(k) => Ok(self.ask_address(runner, k)),
            InstallStage::Finished => Ok((InstallStage::Finished, InstallAction::Done)),
        }
    }
}

} // verus!
