//! The container and ZNC settings, and the steps that install them.
use vstd::prelude::*;
use crate::cli::{opt_text, text_or, text_or_default, Config, ConfigView};
use crate::commands::{check_host_command, host_command_gives, push_blank, push_text};
use crate::constants::{
    DEFAULT_BRIDGE, DEFAULT_CORES, DEFAULT_DISK_GB, DEFAULT_IRC_NETWORK, DEFAULT_IRC_PORT,
    DEFAULT_IRC_SERVER, DEFAULT_MEMORY_MB, DEFAULT_NICK, DEFAULT_STORAGE, DEFAULT_SWAP_MB,
    DEFAULT_TEMPLATE_STORAGE, DEFAULT_ZNC_NAME, DEFAULT_ZNC_USER,
};
use crate::lexical::{
    chars_of, decimal, decimal_text, has_prefix, has_suffix, lemma_decimal_value, lines, lines_of,
    same_text, trim, trimmed, unsigned_value, word_at, words, words_of,
};
use crate::process::{
    after_step, arg_views, owned_gives, run_owned_through, run_status_through, status_gives,
    CommandRunner,
};
use crate::render::{boxed, render_cyan_box};

verus! {

/// The Alpine template architecture for a host architecture, as `uname -m`
/// reports it (white space around it is ignored).
pub open spec fn template_arch(host_arch: Seq<char>) -> Option<Seq<char>> {
    let a = trim(host_arch);
    if a == "x86_64"@ {
        Some("amd64"@)
    } else if a == "aarch64"@ {
        Some("arm64"@)
    } else if a == "armv7l"@ || a == "armv7"@ {
        Some("armv7"@)
    } else if a == "riscv64"@ {
        Some("riscv64"@)
    } else {
        None
    }
}

/// `a` followed by `b`.
pub fn concat(a: &str, b: &str) -> (r: String)
    ensures
        r@ == a@ + b@,
{
    let mut r = a.to_string();
    r.append(b);
    r
}

/// The Alpine template architecture for the host architecture `host_arch`.
pub fn map_arch(host_arch: &str) -> (r: Result<String, String>)
    ensures
        match r {
            Ok(arch) => template_arch(host_arch@) == Some(arch@),
            Err(e) => template_arch(host_arch@) is None && e@
                == "unsupported host architecture for Alpine template lookup: "@ + trim(
                host_arch@,
            ),
        },
{
    let a = trimmed(host_arch);
    let s = a.as_str();
    if same_text(s, "x86_64") {
        Ok("amd64".to_string())
    } else if same_text(s, "aarch64") {
        Ok("arm64".to_string())
    } else if same_text(s, "armv7l") || same_text(s, "armv7") {
        Ok("armv7".to_string())
    } else if same_text(s, "riscv64") {
        Ok("riscv64".to_string())
    } else {
        Err(concat("unsupported host architecture for Alpine template lookup: ", s))
    }
}

/// Lexicographic order of texts by character, which is the order of `String`
/// (UTF-8 keeps the order of code points).
pub open spec fn text_lt(a: Seq<char>, b: Seq<char>) -> bool
    decreases a.len(),
{
    if b.len() == 0 {
        false
    } else if a.len() == 0 {
        true
    } else if a[0] != b[0] {
        (a[0] as int) < (b[0] as int)
    } else {
        text_lt(a.drop_first(), b.drop_first())
    }
}

/// Whether `a` comes before `b`.
pub fn text_less(a: &str, b: &str) -> (r: bool)
    ensures
        r == text_lt(a@, b@),
{
    let ac = chars_of(a);
    let bc = chars_of(b);
    let mut i: usize = 0;
    assert(a@.skip(0) =~= a@);
    assert(b@.skip(0) =~= b@);
    while i < ac.len() && i < bc.len() && ac[i] == bc[i]
        invariant
            ac@ == a@,
            bc@ == b@,
            i <= a@.len(),
            i <= b@.len(),
            text_lt(a@.skip(i as int), b@.skip(i as int)) == text_lt(a@, b@),
        decreases a@.len() - i,
    {
        assert(a@.skip(i as int).drop_first() =~= a@.skip(i + 1));
        assert(b@.skip(i as int).drop_first() =~= b@.skip(i + 1));
        assert(a@.skip(i as int)[0] == a@[i as int]);
        assert(b@.skip(i as int)[0] == b@[i as int]);
        i = i + 1;
    }
    if i == bc.len() {
        false
    } else if i == ac.len() {
        true
    } else {
        assert(a@.skip(i as int)[0] == a@[i as int]);
        assert(b@.skip(i as int)[0] == b@[i as int]);
        ac[i] < bc[i]
    }
}

/// Two different texts are ordered one way or the other, never both.
pub proof fn lemma_text_order_total(a: Seq<char>, b: Seq<char>)
    ensures
        !(text_lt(a, b) && text_lt(b, a)),
        a != b ==> text_lt(a, b) || text_lt(b, a),
        !text_lt(a, a),
    decreases a.len(),
{
    if a.len() > 0 && b.len() > 0 && a[0] == b[0] {
        lemma_text_order_total(a.drop_first(), b.drop_first());
        if a != b {
            if a.drop_first() == b.drop_first() {
                assert(a =~= seq![a[0]] + a.drop_first());
                assert(b =~= seq![b[0]] + b.drop_first());
            }
        }
    } else if a.len() > 0 && b.len() > 0 {
    } else if a.len() == 0 && b.len() == 0 {
        assert(a =~= b);
    }
    if a.len() > 0 {
        lemma_text_order_total(a.drop_first(), a.drop_first());
    }
}

/// The name of the Alpine template for `arch` that a line of
/// `pveam available` offers: its second column, when that column begins with
/// `alpine-` and ends with `_<arch>.tar.xz`.
pub open spec fn offers_template(line: Seq<char>, arch: Seq<char>) -> bool {
    let name = word_at(line, 1);
    "alpine-"@.is_prefix_of(name) && ("_"@ + arch + ".tar.xz"@).is_suffix_of(name)
}

/// The Alpine templates for `arch` among `ls`, in order.
pub open spec fn offered_templates(ls: Seq<Seq<char>>, arch: Seq<char>) -> Seq<Seq<char>>
    decreases ls.len(),
{
    if ls.len() == 0 {
        seq![]
    } else {
        let prev = offered_templates(ls.drop_last(), arch);
        if offers_template(ls.last(), arch) {
            prev.push(word_at(ls.last(), 1))
        } else {
            prev
        }
    }
}

/// The templates offered for `arch` are exactly the names in the second
/// column of the lines of `ls` that begin with `alpine-` and end with
/// `_<arch>.tar.xz`: no other template, Alpine or not, is ever offered.
pub proof fn lemma_offered_are_alpine(ls: Seq<Seq<char>>, arch: Seq<char>)
    ensures
        forall|t: Seq<char>|
            #[trigger] offered_templates(ls, arch).contains(t) <==> ("alpine-"@.is_prefix_of(t) && (
            "_"@ + arch + ".tar.xz"@).is_suffix_of(t) && exists|i: int|
                0 <= i < ls.len() && #[trigger] word_at(ls[i], 1) == t),
    decreases ls.len(),
{
    if ls.len() > 0 {
        let init = ls.drop_last();
        lemma_offered_are_alpine(init, arch);
        let prev = offered_templates(init, arch);
        assert forall|t: Seq<char>|
            #[trigger] offered_templates(ls, arch).contains(t) <==> ("alpine-"@.is_prefix_of(t) && (
            "_"@ + arch + ".tar.xz"@).is_suffix_of(t) && exists|i: int|
                0 <= i < ls.len() && #[trigger] word_at(ls[i], 1) == t) by {
            let last = word_at(ls.last(), 1);
            if offered_templates(ls, arch).contains(t) {
                if prev.contains(t) {
                    let i = choose|i: int| 0 <= i < init.len() && #[trigger] word_at(init[i], 1) == t;
                    assert(ls[i] == init[i]);
                } else {
                    assert(offers_template(ls.last(), arch));
                    let k = choose|k: int|
                        0 <= k < offered_templates(ls, arch).len() && offered_templates(ls, arch)[k]
                            == t;
                    assert(k == prev.len());
                    assert(word_at(ls[ls.len() - 1], 1) == t);
                }
            }
            if "alpine-"@.is_prefix_of(t) && ("_"@ + arch + ".tar.xz"@).is_suffix_of(t) && exists|
                i: int,
            | 0 <= i < ls.len() && #[trigger] word_at(ls[i], 1) == t {
                let i = choose|i: int| 0 <= i < ls.len() && #[trigger] word_at(ls[i], 1) == t;
                if i < init.len() {
                    assert(init[i] == ls[i]);
                    assert(prev.contains(t));
                    if offers_template(ls.last(), arch) {
                        let k = choose|k: int| 0 <= k < prev.len() && prev[k] == t;
                        assert(prev.push(last)[k] == t);
                    }
                } else {
                    assert(ls.last() == ls[i]);
                    assert(offers_template(ls.last(), arch));
                    assert(prev.push(last)[prev.len() as int] == t);
                }
            }
        }
    }
}

/// Whether `x` is one of `names` and no name comes after it.
pub open spec fn is_greatest(x: Seq<char>, names: Seq<Seq<char>>) -> bool {
    names.contains(x) && forall|i: int| 0 <= i < names.len() ==> !text_lt(x, #[trigger] names[i])
}

/// A list has at most one greatest element.
pub proof fn lemma_greatest_unique(x: Seq<char>, y: Seq<char>, names: Seq<Seq<char>>)
    requires
        is_greatest(x, names),
        is_greatest(y, names),
    ensures
        x == y,
{
    let i = choose|i: int| 0 <= i < names.len() && names[i] == x;
    let j = choose|j: int| 0 <= j < names.len() && names[j] == y;
    assert(!text_lt(x, names[j]));
    assert(!text_lt(y, names[i]));
    lemma_text_order_total(x, y);
}

/// The greatest of the Alpine templates for `arch` that the `pveam available`
/// output `available` offers.
pub fn newest_template(available: &str, arch: &str) -> (r: Option<String>)
    ensures
        r is Some <==> offered_templates(lines(available@), arch@).len() > 0,
        r matches Some(name) ==> is_greatest(name@, offered_templates(lines(available@), arch@)),
        r matches Some(name) ==> "alpine-"@.is_prefix_of(name@) && ("_"@ + arch@
            + ".tar.xz"@).is_suffix_of(name@),
{
    proof {
        lemma_offered_are_alpine(lines(available@), arch@);
    }
    let ls = lines_of(available);
    let ghost lv = ls.deep_view();
    let mut suffix = concat("_", arch);
    suffix.append(".tar.xz");
    let mut best: Option<String> = None;
    assert(lv.take(0) =~= Seq::<Seq<char>>::empty());
    for i in 0..ls.len()
        invariant
            lv == ls.deep_view(),
            lv == lines(available@),
            suffix@ == "_"@ + arch@ + ".tar.xz"@,
            best is Some <==> offered_templates(lv.take(i as int), arch@).len() > 0,
            best matches Some(b) ==> is_greatest(b@, offered_templates(lv.take(i as int), arch@)),
    {
        let ghost prev = offered_templates(lv.take(i as int), arch@);
        assert(lv.take(i + 1).drop_last() =~= lv.take(i as int));
        assert(lv.take(i + 1).last() == lv[i as int]);
        let cols = words_of(ls[i].as_str());
        if cols.len() >= 2 {
            let name = &cols[1];
            assert(name@ == word_at(lv[i as int], 1));
            if has_prefix(name.as_str(), "alpine-") && has_suffix(name.as_str(), suffix.as_str()) {
                let ghost next = prev.push(name@);
                assert(next == offered_templates(lv.take(i + 1), arch@));
                let replace = match &best {
                    Some(b) => text_less(b.as_str(), name.as_str()),
                    None => true,
                };
                proof {
                    assert(next[prev.len() as int] == name@);
                    if let Some(b) = &best {
                        lemma_text_order_total(b@, name@);
                        let k = choose|k: int| 0 <= k < prev.len() && prev[k] == b@;
                        assert(next[k] == b@);
                        if replace {
                            assert forall|m: int| 0 <= m < next.len() implies !text_lt(
                                name@,
                                #[trigger] next[m],
                            ) by {
                                if m < prev.len() {
                                    assert(next[m] == prev[m]);
                                    assert(!text_lt(b@, prev[m]));
                                    lemma_text_lt_transitive(b@, name@, prev[m]);
                                    lemma_text_order_total(name@, prev[m]);
                                    lemma_text_order_total(b@, prev[m]);
                                } else {
                                    lemma_text_order_total(name@, name@);
                                }
                            }
                        } else {
                            assert forall|m: int| 0 <= m < next.len() implies !text_lt(
                                b@,
                                #[trigger] next[m],
                            ) by {
                                if m < prev.len() {
                                    assert(next[m] == prev[m]);
                                }
                            }
                        }
                    } else {
                        assert(prev.len() == 0);
                        lemma_text_order_total(name@, name@);
                    }
                }
                if replace {
                    best = Some(name.clone());
                }
            } else {
                assert(!offers_template(lv[i as int], arch@));
            }
        } else {
            assert(word_at(lv[i as int], 1) =~= Seq::<char>::empty());
            assert(!"alpine-"@.is_prefix_of(Seq::<char>::empty())) by {
                reveal_strlit("alpine-");
            }
        }
    }
    assert(lv.take(ls.len() as int) =~= lv);
    best
}

/// Order of texts is transitive.
pub proof fn lemma_text_lt_transitive(a: Seq<char>, b: Seq<char>, c: Seq<char>)
    ensures
        text_lt(a, b) && text_lt(b, c) ==> text_lt(a, c),
    decreases a.len(),
{
    if a.len() > 0 && b.len() > 0 && c.len() > 0 {
        lemma_text_lt_transitive(a.drop_first(), b.drop_first(), c.drop_first());
    }
}

/// Whether a line of `list` names `name` in its first column.
pub open spec fn lists_template(list: Seq<char>, name: Seq<char>) -> bool {
    exists|i: int|
        0 <= i < lines(list).len() && words(#[trigger] lines(list)[i]).len() > 0 && words(
            lines(list)[i],
        )[0] == name
}

/// Whether the `pveam list` output `list` already holds the template `name`.
pub fn template_listed(list: &str, name: &str) -> (r: bool)
    ensures
        r == lists_template(list@, name@),
{
    let ls = lines_of(list);
    let ghost lv = ls.deep_view();
    for i in 0..ls.len()
        invariant
            lv == ls.deep_view(),
            lv == lines(list@),
            forall|j: int|
                0 <= j < i ==> !(words(#[trigger] lv[j]).len() > 0 && words(lv[j])[0] == name@),
    {
        let cols = words_of(ls[i].as_str());
        if cols.len() > 0 && same_text(cols[0].as_str(), name) {
            assert(words(lv[i as int]).len() > 0 && words(lv[i as int])[0] == name@);
            return true;
        }
    }
    false
}

/// The message when no Alpine template for `arch` is offered.
pub open spec fn no_template_message(arch: Seq<char>) -> Seq<char> {
    "could not find an Alpine template for architecture "@ + arch
}

/// The greatest Alpine template for `arch` that `available` offers, or the
/// message that there is none.
pub fn pick_template(available: &str, arch: &str) -> (r: Result<String, String>)
    ensures
        r matches Ok(name) ==> is_greatest(name@, offered_templates(lines(available@), arch@)),
        r matches Err(e) ==> offered_templates(lines(available@), arch@).len() == 0 && e@
            == no_template_message(arch@),
        r is Err <==> offered_templates(lines(available@), arch@).len() == 0,
{
    match newest_template(available, arch) {
        Some(name) => Ok(name),
        None => Err(concat("could not find an Alpine template for architecture ", arch)),
    }
}

/// The arguments of `pveam` that refresh the template index.
pub open spec fn pveam_update_args() -> Seq<Seq<char>> {
    seq!["update"@]
}

/// The arguments of `pveam` that list the templates on offer.
pub open spec fn pveam_available_args() -> Seq<Seq<char>> {
    seq!["available"@]
}

/// The arguments of `pveam` that list the templates on `storage`.
pub open spec fn pveam_list_args(storage: Seq<char>) -> Seq<Seq<char>> {
    seq!["list"@, storage]
}

/// The arguments of `pveam` that download template `name` to `storage`.
pub open spec fn pveam_download_args(storage: Seq<char>, name: Seq<char>) -> Seq<Seq<char>> {
    seq!["download"@, storage, name]
}

/// The newest Alpine template for `arch` that the `pveam available` output
/// `available` offers (meaningful when it offers one).
pub open spec fn newest_offered(available: Seq<char>, arch: Seq<char>) -> Seq<char> {
    choose|n: Seq<char>| is_greatest(n, offered_templates(lines(available), arch))
}

/// `r` is an outcome of fetching template `name` to `storage`, after
/// `pveam list` gave `listed`: the name at once when the listing shows it,
/// else the failure of `pveam download`, or the name once it succeeded.
pub open spec fn fetch_gives<R: CommandRunner>(
    runner: &R,
    storage: Seq<char>,
    name: Seq<char>,
    listed: Result<String, String>,
    r: Result<String, String>,
) -> bool {
    let existing = match listed {
        Ok(l) => l@,
        Err(_) => Seq::<char>::empty(),
    };
    if lists_template(existing, name) {
        r matches Ok(n) && n@ == name
    } else {
        exists|d: Result<(), String>|
            #[trigger] status_gives(runner, "pveam"@, pveam_download_args(storage, name), d)
                && after_step(d, r matches Ok(n) && n@ == name, r)
    }
}

/// `r` is an outcome of `download_alpine_template` for `storage` and `arch`:
/// `pveam update`, then `pveam available`, each failure ending it as it came;
/// with no Alpine template for `arch` offered, the message that says so;
/// else `pveam list` of `storage` and the fetch of the newest template.
pub open spec fn download_gives<R: CommandRunner>(
    runner: &R,
    storage: Seq<char>,
    arch: Seq<char>,
    r: Result<String, String>,
) -> bool {
    exists|u: Result<(), String>|
        #[trigger] status_gives(runner, "pveam"@, pveam_update_args(), u) && after_step(
            u,
            exists|a: Result<String, String>|
                #[trigger] owned_gives(runner, "pveam"@, pveam_available_args(), a) && match a {
                    Err(e) => r == Err::<String, String>(e),
                    Ok(av) => if offered_templates(lines(av@), arch).len() == 0 {
                        r matches Err(e) && e@ == no_template_message(arch)
                    } else {
                        exists|l: Result<String, String>|
                            #[trigger] owned_gives(runner, "pveam"@, pveam_list_args(storage), l)
                                && fetch_gives(runner, storage, newest_offered(av@, arch), l, r)
                    },
                },
            r,
        )
}

/// Refreshes the template index, picks the newest Alpine template for
/// `template_arch`, and downloads it to `template_storage` unless
/// `pveam list` shows it there already. Gives back the template's name.
pub fn download_alpine_template<R: CommandRunner>(
    runner: &R,
    template_storage: &str,
    template_arch: &str,
) -> (r: Result<String, String>)
    ensures
        download_gives(runner, template_storage@, template_arch@, r),
{
    let update: [&str; 1] = ["update"];
    assert(arg_views(update@) =~= pveam_update_args());
    match run_status_through(runner, "pveam", &update) {
        Ok(()) => {},
        Err(e) => {
            return Err(e);
        },
    }
    let mut available_args: Vec<String> = Vec::new();
    push_text(&mut available_args, "available");
    assert(available_args.deep_view() =~= pveam_available_args());
    let available = match run_owned_through(runner, "pveam", available_args.as_slice()) {
        Ok(out) => out,
        Err(e) => {
            return Err(e);
        },
    };
    let template_name = match pick_template(available.as_str(), template_arch) {
        Ok(name) => name,
        Err(e) => {
            return Err(e);
        },
    };
    proof {
        let n = newest_offered(available@, template_arch@);
        lemma_greatest_unique(
            template_name@,
            n,
            offered_templates(lines(available@), template_arch@),
        );
    }
    let mut list_args: Vec<String> = Vec::new();
    push_text(&mut list_args, "list");
    push_text(&mut list_args, template_storage);
    assert(list_args.deep_view() =~= pveam_list_args(template_storage@));
    let listed = run_owned_through(runner, "pveam", list_args.as_slice());
    let existing = match &listed {
        Ok(out) => out.clone(),
        Err(_) => String::new(),
    };
    if !template_listed(existing.as_str(), template_name.as_str()) {
        let download: [&str; 3] = ["download", template_storage, template_name.as_str()];
        assert(arg_views(download@) =~= pveam_download_args(template_storage@, template_name@));
        match run_status_through(runner, "pveam", &download) {
            Ok(()) => {},
            Err(e) => {
                return Err(e);
            },
        }
    }
    Ok(template_name)
}

/// The settings of one install: the container's and ZNC's.
pub struct Spec {
    pub ctid: Option<String>,
    pub container_ip: Option<String>,
    pub hostname: String,
    pub storage: String,
    pub template_storage: String,
    pub bridge: String,
    pub memory: u32,
    pub swap: u32,
    pub disk: u32,
    pub cores: u32,
    pub znc_user: String,
    pub nick: String,
    pub alt_nick: String,
    pub realname: String,
    pub password: String,
    pub irc_server: String,
    pub irc_port: u16,
    pub irc_network: String,
}

/// The settings of an install, with texts as character sequences.
pub struct SpecView {
    pub ctid: Option<Seq<char>>,
    pub container_ip: Option<Seq<char>>,
    pub hostname: Seq<char>,
    pub storage: Seq<char>,
    pub template_storage: Seq<char>,
    pub bridge: Seq<char>,
    pub memory: u32,
    pub swap: u32,
    pub disk: u32,
    pub cores: u32,
    pub znc_user: Seq<char>,
    pub nick: Seq<char>,
    pub alt_nick: Seq<char>,
    pub realname: Seq<char>,
    pub password: Seq<char>,
    pub irc_server: Seq<char>,
    pub irc_port: u16,
    pub irc_network: Seq<char>,
}

impl View for Spec {
    type V = SpecView;

    open spec fn view(&self) -> SpecView {
        SpecView {
            ctid: opt_text(self.ctid),
            container_ip: opt_text(self.container_ip),
            hostname: self.hostname@,
            storage: self.storage@,
            template_storage: self.template_storage@,
            bridge: self.bridge@,
            memory: self.memory,
            swap: self.swap,
            disk: self.disk,
            cores: self.cores,
            znc_user: self.znc_user@,
            nick: self.nick@,
            alt_nick: self.alt_nick@,
            realname: self.realname@,
            password: self.password@,
            irc_server: self.irc_server@,
            irc_port: self.irc_port,
            irc_network: self.irc_network@,
        }
    }
}

/// The number in `o`, or `d` when there is none.
pub open spec fn number_or<T>(o: Option<T>, d: T) -> T {
    match o {
        Some(n) => n,
        None => d,
    }
}

/// The install settings for the given ones: each setting that was not given
/// takes its default. The alternate nick defaults to the ZNC user (or its
/// default) followed by `_`, the real name to the default nick, and the
/// password to the empty text. No container exists yet.
pub open spec fn spec_of(c: ConfigView) -> SpecView {
    SpecView {
        ctid: None,
        container_ip: None,
        hostname: text_or(c.hostname, DEFAULT_ZNC_NAME@),
        storage: text_or(c.storage, DEFAULT_STORAGE@),
        template_storage: text_or(c.template_storage, DEFAULT_TEMPLATE_STORAGE@),
        bridge: text_or(c.bridge, DEFAULT_BRIDGE@),
        memory: number_or(c.memory, DEFAULT_MEMORY_MB),
        swap: number_or(c.swap, DEFAULT_SWAP_MB),
        disk: number_or(c.disk, DEFAULT_DISK_GB),
        cores: number_or(c.cores, DEFAULT_CORES),
        znc_user: text_or(c.znc_user, DEFAULT_ZNC_USER@),
        nick: text_or(c.nick, DEFAULT_NICK@),
        alt_nick: text_or(c.alt_nick, text_or(c.znc_user, DEFAULT_ZNC_USER@) + "_"@),
        realname: text_or(c.realname, DEFAULT_NICK@),
        password: text_or(c.password, seq![]),
        irc_server: text_or(c.irc_server, DEFAULT_IRC_SERVER@),
        irc_port: number_or(c.irc_port, DEFAULT_IRC_PORT),
        irc_network: text_or(c.irc_network, DEFAULT_IRC_NETWORK@),
    }
}

/// A setting given in the configuration is the install setting, unchanged;
/// a setting not given takes its default (the alternate nick: the ZNC user
/// followed by `_`). No install has an id or an address yet.
pub proof fn lemma_spec_keeps_given(c: ConfigView)
    ensures
        c.hostname matches Some(v) ==> spec_of(c).hostname == v,
        c.storage matches Some(v) ==> spec_of(c).storage == v,
        c.template_storage matches Some(v) ==> spec_of(c).template_storage == v,
        c.bridge matches Some(v) ==> spec_of(c).bridge == v,
        c.memory matches Some(v) ==> spec_of(c).memory == v,
        c.swap matches Some(v) ==> spec_of(c).swap == v,
        c.disk matches Some(v) ==> spec_of(c).disk == v,
        c.cores matches Some(v) ==> spec_of(c).cores == v,
        c.znc_user matches Some(v) ==> spec_of(c).znc_user == v,
        c.nick matches Some(v) ==> spec_of(c).nick == v,
        c.realname matches Some(v) ==> spec_of(c).realname == v,
        c.password matches Some(v) ==> spec_of(c).password == v,
        c.irc_server matches Some(v) ==> spec_of(c).irc_server == v,
        c.irc_port matches Some(v) ==> spec_of(c).irc_port == v,
        c.irc_network matches Some(v) ==> spec_of(c).irc_network == v,
        c.alt_nick matches Some(v) ==> spec_of(c).alt_nick == v,
        c.hostname is None ==> spec_of(c).hostname == DEFAULT_ZNC_NAME@,
        c.storage is None ==> spec_of(c).storage == DEFAULT_STORAGE@,
        c.template_storage is None ==> spec_of(c).template_storage == DEFAULT_TEMPLATE_STORAGE@,
        c.bridge is None ==> spec_of(c).bridge == DEFAULT_BRIDGE@,
        c.memory is None ==> spec_of(c).memory == DEFAULT_MEMORY_MB,
        c.swap is None ==> spec_of(c).swap == DEFAULT_SWAP_MB,
        c.disk is None ==> spec_of(c).disk == DEFAULT_DISK_GB,
        c.cores is None ==> spec_of(c).cores == DEFAULT_CORES,
        c.znc_user is None ==> spec_of(c).znc_user == DEFAULT_ZNC_USER@,
        c.nick is None ==> spec_of(c).nick == DEFAULT_NICK@,
        c.realname is None ==> spec_of(c).realname == DEFAULT_NICK@,
        c.password is None ==> spec_of(c).password == Seq::<char>::empty(),
        c.irc_server is None ==> spec_of(c).irc_server == DEFAULT_IRC_SERVER@,
        c.irc_port is None ==> spec_of(c).irc_port == DEFAULT_IRC_PORT,
        c.irc_network is None ==> spec_of(c).irc_network == DEFAULT_IRC_NETWORK@,
        c.alt_nick is None ==> (c.znc_user matches Some(u) ==> spec_of(c).alt_nick == u + "_"@),
        c.alt_nick is None && c.znc_user is None ==> spec_of(c).alt_nick == DEFAULT_ZNC_USER@
            + "_"@,
        spec_of(c).ctid is None,
        spec_of(c).container_ip is None,
{
}

/// Each size line of the plan holds, between its label and its unit, a
/// numeral that reads back as that setting: the memory, the swap, the disk
/// and the cores each show their own value.
pub proof fn lemma_plan_shows_sizes(s: SpecView)
    ensures
        exists|d: Seq<char>|
            plan_lines(s)[6] == "  Memory: "@ + d + " MB"@ && #[trigger] unsigned_value(d) == Some(
                s.memory as nat,
            ),
        exists|d: Seq<char>|
            plan_lines(s)[7] == "  Swap: "@ + d + " MB"@ && #[trigger] unsigned_value(d) == Some(
                s.swap as nat,
            ),
        exists|d: Seq<char>|
            plan_lines(s)[8] == "  Disk: "@ + d + " GB"@ && #[trigger] unsigned_value(d) == Some(
                s.disk as nat,
            ),
        exists|d: Seq<char>|
            plan_lines(s)[9] == "  Cores: "@ + d && #[trigger] unsigned_value(d) == Some(
                s.cores as nat,
            ),
{
    lemma_decimal_value(s.memory as nat);
    lemma_decimal_value(s.swap as nat);
    lemma_decimal_value(s.disk as nat);
    lemma_decimal_value(s.cores as nat);
}

/// The lines that describe a planned install.
pub open spec fn plan_lines(s: SpecView) -> Seq<Seq<char>> {
    seq![
        "Would create Alpine LXC with:"@,
        seq![],
        "  Hostname: "@ + s.hostname,
        "  Storage: "@ + s.storage,
        "  Template storage: "@ + s.template_storage,
        "  Bridge: "@ + s.bridge,
        "  Memory: "@ + decimal(s.memory as nat) + " MB"@,
        "  Swap: "@ + decimal(s.swap as nat) + " MB"@,
        "  Disk: "@ + decimal(s.disk as nat) + " GB"@,
        "  Cores: "@ + decimal(s.cores as nat),
        seq![],
        "Would configure ZNC with:"@,
        seq![],
        "  ZNC user: "@ + s.znc_user,
        "  IRC nick: "@ + s.nick,
        "  Alt nick: "@ + s.alt_nick,
        "  Real name: "@ + s.realname,
        "  IRC network: "@ + s.irc_network,
        "  IRC server: "@ + s.irc_server + ":"@ + decimal(s.irc_port as nat),
        seq![],
        "No changes made."@,
    ]
}

/// The lines that report a finished install.
pub open spec fn done_lines(s: SpecView) -> Seq<Seq<char>> {
    seq![
        "Container ID: "@ + text_or(s.ctid, "unavailable"@),
        "Hostname: "@ + s.hostname,
        "IRC server inside ZNC: "@ + s.irc_server + ":"@ + decimal(s.irc_port as nat),
        "IRC nick: "@ + s.nick,
        "ZNC user: "@ + s.znc_user,
        "IRC client login format: "@ + s.znc_user + "/"@ + s.irc_network + ":<password>"@,
    ]
}

/// `a`, then `b`, then `c`.
fn concat3(a: &str, b: &str, c: &str) -> (r: String)
    ensures
        r@ == a@ + b@ + c@,
{
    let mut r = concat(a, b);
    r.append(c);
    r
}

impl Spec {
    /// The install settings for the settings given in `cfg`.
    pub fn from(cfg: &Config) -> (s: Spec)
        ensures
            s@ == spec_of(cfg@),
            cfg@.hostname matches Some(v) ==> s@.hostname == v,
            cfg@.storage matches Some(v) ==> s@.storage == v,
            cfg@.template_storage matches Some(v) ==> s@.template_storage == v,
            cfg@.bridge matches Some(v) ==> s@.bridge == v,
            cfg@.memory matches Some(v) ==> s@.memory == v,
            cfg@.swap matches Some(v) ==> s@.swap == v,
            cfg@.disk matches Some(v) ==> s@.disk == v,
            cfg@.cores matches Some(v) ==> s@.cores == v,
            cfg@.znc_user matches Some(v) ==> s@.znc_user == v,
            cfg@.nick matches Some(v) ==> s@.nick == v,
            cfg@.realname matches Some(v) ==> s@.realname == v,
            cfg@.password matches Some(v) ==> s@.password == v,
            cfg@.irc_server matches Some(v) ==> s@.irc_server == v,
            cfg@.irc_port matches Some(v) ==> s@.irc_port == v,
            cfg@.irc_network matches Some(v) ==> s@.irc_network == v,
            cfg@.alt_nick matches Some(v) ==> s@.alt_nick == v,
    {
        proof {
            lemma_spec_keeps_given(cfg@);
        }
        let znc_user_or_default = text_or_default(&cfg.znc_user, DEFAULT_ZNC_USER);
        let alt_default = concat(znc_user_or_default.as_str(), "_");
        Spec {
            ctid: None,
            container_ip: None,
            hostname: text_or_default(&cfg.hostname, DEFAULT_ZNC_NAME),
            storage: text_or_default(&cfg.storage, DEFAULT_STORAGE),
            template_storage: text_or_default(&cfg.template_storage, DEFAULT_TEMPLATE_STORAGE),
            bridge: text_or_default(&cfg.bridge, DEFAULT_BRIDGE),
            memory: match cfg.memory {
                Some(n) => n,
                None => DEFAULT_MEMORY_MB,
            },
            swap: match cfg.swap {
                Some(n) => n,
                None => DEFAULT_SWAP_MB,
            },
            disk: match cfg.disk {
                Some(n) => n,
                None => DEFAULT_DISK_GB,
            },
            cores: match cfg.cores {
                Some(n) => n,
                None => DEFAULT_CORES,
            },
            znc_user: text_or_default(&cfg.znc_user, DEFAULT_ZNC_USER),
            nick: text_or_default(&cfg.nick, DEFAULT_NICK),
            alt_nick: match &cfg.alt_nick {
                Some(a) => a.clone(),
                None => alt_default,
            },
            realname: text_or_default(&cfg.realname, DEFAULT_NICK),
            password: match &cfg.password {
                Some(p) => p.clone(),
                None => String::new(),
            },
            irc_server: text_or_default(&cfg.irc_server, DEFAULT_IRC_SERVER),
            irc_port: match cfg.irc_port {
                Some(n) => n,
                None => DEFAULT_IRC_PORT,
            },
            irc_network: text_or_default(&cfg.irc_network, DEFAULT_IRC_NETWORK),
        }
    }

    /// The lines, boxed, that describe the planned install and say that
    /// nothing was changed.
    pub fn print(&self) -> (r: Vec<String>)
        ensures
            r.deep_view() == boxed(plan_lines(self@)),
    {
        let mut lines: Vec<String> = Vec::new();
        push_text(&mut lines, "Would create Alpine LXC with:");
        push_blank(&mut lines);
        push_text(&mut lines, concat("  Hostname: ", self.hostname.as_str()).as_str());
        push_text(&mut lines, concat("  Storage: ", self.storage.as_str()).as_str());
        push_text(
            &mut lines,
            concat("  Template storage: ", self.template_storage.as_str()).as_str(),
        );
        push_text(&mut lines, concat("  Bridge: ", self.bridge.as_str()).as_str());
        push_text(
            &mut lines,
            concat3("  Memory: ", decimal_text(self.memory as u64).as_str(), " MB").as_str(),
        );
        push_text(
            &mut lines,
            concat3("  Swap: ", decimal_text(self.swap as u64).as_str(), " MB").as_str(),
        );
        push_text(
            &mut lines,
            concat3("  Disk: ", decimal_text(self.disk as u64).as_str(), " GB").as_str(),
        );
        push_text(&mut lines, concat("  Cores: ", decimal_text(self.cores as u64).as_str()).as_str());
        push_blank(&mut lines);
        push_text(&mut lines, "Would configure ZNC with:");
        push_blank(&mut lines);
        push_text(&mut lines, concat("  ZNC user: ", self.znc_user.as_str()).as_str());
        push_text(&mut lines, concat("  IRC nick: ", self.nick.as_str()).as_str());
        push_text(&mut lines, concat("  Alt nick: ", self.alt_nick.as_str()).as_str());
        push_text(&mut lines, concat("  Real name: ", self.realname.as_str()).as_str());
        push_text(&mut lines, concat("  IRC network: ", self.irc_network.as_str()).as_str());
        let mut server = concat3("  IRC server: ", self.irc_server.as_str(), ":");
        server.append(decimal_text(self.irc_port as u64).as_str());
        push_text(&mut lines, server.as_str());
        push_blank(&mut lines);
        push_text(&mut lines, "No changes made.");
        assert(lines.deep_view() =~= plan_lines(self@));
        render_cyan_box(&lines)
    }

    /// The lines, boxed, that report the finished install.
    pub fn print_done(&self) -> (r: Vec<String>)
        ensures
            r.deep_view() == boxed(done_lines(self@)),
    {
        let mut lines: Vec<String> = Vec::new();
        let ctid = match &self.ctid {
            Some(c) => c.as_str(),
            None => "unavailable",
        };
        push_text(&mut lines, concat("Container ID: ", ctid).as_str());
        push_text(&mut lines, concat("Hostname: ", self.hostname.as_str()).as_str());
        let mut server = concat3("IRC server inside ZNC: ", self.irc_server.as_str(), ":");
        server.append(decimal_text(self.irc_port as u64).as_str());
        push_text(&mut lines, server.as_str());
        push_text(&mut lines, concat("IRC nick: ", self.nick.as_str()).as_str());
        push_text(&mut lines, concat("ZNC user: ", self.znc_user.as_str()).as_str());
        let mut login = concat3("IRC client login format: ", self.znc_user.as_str(), "/");
        login.append(self.irc_network.as_str());
        login.append(":<password>");
        push_text(&mut lines, login.as_str());
        assert(lines.deep_view() =~= done_lines(self@));
        render_cyan_box(&lines)
    }

    /// Checks that the host has `pct` and `pveam`, in that order, stopping at
    /// the first that is missing.
    pub fn validate_host<R: CommandRunner>(&self, runner: &R) -> (r: Result<(), String>)
        ensures
            exists|p: Result<(), String>|
                #[trigger] host_command_gives(runner, "pct"@, p) && after_step(
                    p,
                    host_command_gives(runner, "pveam"@, r),
                    r,
                ),
    {
        match check_host_command(runner, "pct") {
            Ok(()) => {},
            Err(e) => {
                return Err(e);
            },
        }
        check_host_command(runner, "pveam")
    }
}

} // verus!
