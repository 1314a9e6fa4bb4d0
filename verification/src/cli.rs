//! The install settings as given on the command line or in the environment,
//! and the questions that fill in the ones left out.
use vstd::prelude::*;
use crate::constants::{
    DEFAULT_BRIDGE, DEFAULT_CORES, DEFAULT_DISK_GB, DEFAULT_IRC_NETWORK, DEFAULT_IRC_PORT,
    DEFAULT_IRC_SERVER, DEFAULT_MEMORY_MB, DEFAULT_NICK, DEFAULT_STORAGE, DEFAULT_SWAP_MB,
    DEFAULT_TEMPLATE_STORAGE, DEFAULT_ZNC_NAME, DEFAULT_ZNC_USER,
};
use crate::lexical::same_text;
use crate::prompt::{
    choice_answer, number, number_answer, pick, port_number, secret, secret_answer, text,
    text_answer,
};
use crate::spec::concat;

verus! {

/// The view of an optional text.
pub open spec fn opt_text(o: Option<String>) -> Option<Seq<char>> {
    match o {
        Some(s) => Some(s@),
        None => None,
    }
}

/// The text in `o`, or `d` when there is none.
pub open spec fn text_or(o: Option<Seq<char>>, d: Seq<char>) -> Seq<char> {
    match o {
        Some(s) => s,
        None => d,
    }
}

/// The install settings; an absent one has not been given.
pub struct Config {
    pub dry_run: bool,
    pub hostname: Option<String>,
    pub storage: Option<String>,
    pub template_storage: Option<String>,
    pub bridge: Option<String>,
    pub memory: Option<u32>,
    pub swap: Option<u32>,
    pub disk: Option<u32>,
    pub cores: Option<u32>,
    pub znc_user: Option<String>,
    pub nick: Option<String>,
    pub alt_nick: Option<String>,
    pub realname: Option<String>,
    pub password: Option<String>,
    pub irc_server: Option<String>,
    pub irc_port: Option<u16>,
    pub irc_network: Option<String>,
}

/// The settings, with texts as character sequences.
pub struct ConfigView {
    pub dry_run: bool,
    pub hostname: Option<Seq<char>>,
    pub storage: Option<Seq<char>>,
    pub template_storage: Option<Seq<char>>,
    pub bridge: Option<Seq<char>>,
    pub memory: Option<u32>,
    pub swap: Option<u32>,
    pub disk: Option<u32>,
    pub cores: Option<u32>,
    pub znc_user: Option<Seq<char>>,
    pub nick: Option<Seq<char>>,
    pub alt_nick: Option<Seq<char>>,
    pub realname: Option<Seq<char>>,
    pub password: Option<Seq<char>>,
    pub irc_server: Option<Seq<char>>,
    pub irc_port: Option<u16>,
    pub irc_network: Option<Seq<char>>,
}

impl View for Config {
    type V = ConfigView;

    open spec fn view(&self) -> ConfigView {
        ConfigView {
            dry_run: self.dry_run,
            hostname: opt_text(self.hostname),
            storage: opt_text(self.storage),
            template_storage: opt_text(self.template_storage),
            bridge: opt_text(self.bridge),
            memory: self.memory,
            swap: self.swap,
            disk: self.disk,
            cores: self.cores,
            znc_user: opt_text(self.znc_user),
            nick: opt_text(self.nick),
            alt_nick: opt_text(self.alt_nick),
            realname: opt_text(self.realname),
            password: opt_text(self.password),
            irc_server: opt_text(self.irc_server),
            irc_port: self.irc_port,
            irc_network: opt_text(self.irc_network),
        }
    }
}

/// A copy of the text in `o`, or of `d` when there is none.
pub fn text_or_default(o: &Option<String>, d: &str) -> (r: String)
    ensures
        r@ == text_or(opt_text(*o), d@),
{
    match o {
        Some(s) => s.clone(),
        None => d.to_string(),
    }
}

/// The IRC nick offered when none is given: the hostname, or the default nick.
pub fn default_nick_from_hostname(hostname: Option<&str>) -> (r: String)
    ensures
        r@ == match hostname {
            Some(h) => h@,
            None => DEFAULT_NICK@,
        },
{
    match hostname {
        Some(h) => h.to_string(),
        None => DEFAULT_NICK.to_string(),
    }
}

/// A setting that holds text.
#[derive(Clone, Copy, Debug)]
pub enum TextField {
    Hostname,
    Storage,
    TemplateStorage,
    Bridge,
    Nick,
    ZncUser,
    AltNick,
    RealName,
    IrcServer,
    IrcNetwork,
    Password,
}

/// A container size setting.
#[derive(Clone, Copy, Debug)]
pub enum NumberField {
    Memory,
    Swap,
    Disk,
    Cores,
}

/// What a question asks for and what it offers.
pub enum Ask {
    /// A text setting, with the value an empty answer takes.
    Text { field: TextField, default_text: String },
    /// A text setting picked among `options`; an empty answer takes the one
    /// at `default_index`.
    Choice { field: TextField, options: Vec<String>, default_index: usize },
    /// A size setting, with the value an empty answer takes.
    Number { setting: NumberField, default_number: u32 },
    /// The IRC server port, with the value an empty answer takes.
    Port { default_port: u16 },
    /// A secret text setting, which has no default.
    Secret { field: TextField },
}

/// A question for a setting that was not given.
pub struct Question {
    pub prompt: String,
    pub ask: Ask,
}

/// What a question asks for, with texts as character sequences.
pub enum AskView {
    Text(TextField, Seq<char>),
    Choice(TextField, Seq<Seq<char>>, nat),
    Number(NumberField, u32),
    Port(u16),
    Secret(TextField),
}

/// A question, with texts as character sequences.
pub struct QuestionView {
    pub prompt: Seq<char>,
    pub ask: AskView,
}

impl View for Question {
    type V = QuestionView;

    open spec fn view(&self) -> QuestionView {
        QuestionView {
            prompt: self.prompt@,
            ask: match self.ask {
                Ask::Text { field, default_text } => AskView::Text(field, default_text@),
                Ask::Choice { field, options, default_index } => AskView::Choice(
                    field,
                    options.deep_view(),
                    default_index as nat,
                ),
                Ask::Number { setting, default_number } => AskView::Number(
                    setting,
                    default_number,
                ),
                Ask::Port { default_port } => AskView::Port(default_port),
                Ask::Secret { field } => AskView::Secret(field),
            },
        }
    }
}

/// The value of a text setting.
pub open spec fn text_field(c: ConfigView, f: TextField) -> Option<Seq<char>> {
    match f {
        TextField::Hostname => c.hostname,
        TextField::Storage => c.storage,
        TextField::TemplateStorage => c.template_storage,
        TextField::Bridge => c.bridge,
        TextField::Nick => c.nick,
        TextField::ZncUser => c.znc_user,
        TextField::AltNick => c.alt_nick,
        TextField::RealName => c.realname,
        TextField::IrcServer => c.irc_server,
        TextField::IrcNetwork => c.irc_network,
        TextField::Password => c.password,
    }
}

/// The settings with the text setting `f` set to `v`.
pub open spec fn with_text_field(c: ConfigView, f: TextField, v: Option<Seq<char>>) -> ConfigView {
    match f {
        TextField::Hostname => ConfigView { hostname: v, ..c },
        TextField::Storage => ConfigView { storage: v, ..c },
        TextField::TemplateStorage => ConfigView { template_storage: v, ..c },
        TextField::Bridge => ConfigView { bridge: v, ..c },
        TextField::Nick => ConfigView { nick: v, ..c },
        TextField::ZncUser => ConfigView { znc_user: v, ..c },
        TextField::AltNick => ConfigView { alt_nick: v, ..c },
        TextField::RealName => ConfigView { realname: v, ..c },
        TextField::IrcServer => ConfigView { irc_server: v, ..c },
        TextField::IrcNetwork => ConfigView { irc_network: v, ..c },
        TextField::Password => ConfigView { password: v, ..c },
    }
}

/// The value of a size setting.
pub open spec fn number_field(c: ConfigView, f: NumberField) -> Option<u32> {
    match f {
        NumberField::Memory => c.memory,
        NumberField::Swap => c.swap,
        NumberField::Disk => c.disk,
        NumberField::Cores => c.cores,
    }
}

/// The settings with the size setting `f` set to `v`.
pub open spec fn with_number_field(c: ConfigView, f: NumberField, v: Option<u32>) -> ConfigView {
    match f {
        NumberField::Memory => ConfigView { memory: v, ..c },
        NumberField::Swap => ConfigView { swap: v, ..c },
        NumberField::Disk => ConfigView { disk: v, ..c },
        NumberField::Cores => ConfigView { cores: v, ..c },
    }
}

/// Whether `i` is the first place of `x` in `s`.
pub open spec fn first_at(s: Seq<Seq<char>>, x: Seq<char>, i: int) -> bool {
    0 <= i < s.len() && s[i] == x && forall|j: int| 0 <= j < i ==> s[j] != x
}

/// The first place of `x` in `s`, or 0 when `x` is not there.
pub open spec fn position_or_first(s: Seq<Seq<char>>, x: Seq<char>) -> nat {
    if exists|i: int| first_at(s, x, i) {
        (choose|i: int| first_at(s, x, i)) as nat
    } else {
        0
    }
}

/// The first place of `x` in `v`, or 0 when `x` is not there.
pub fn position_or_first_of(v: &Vec<String>, x: &str) -> (r: usize)
    ensures
        r as nat == position_or_first(v.deep_view(), x@),
{
    let ghost s = v.deep_view();
    for i in 0..v.len()
        invariant
            s == v.deep_view(),
            forall|j: int| 0 <= j < i ==> s[j] != x@,
    {
        if same_text(v[i].as_str(), x) {
            assert(first_at(s, x@, i as int));
            proof {
                let c = choose|k: int| first_at(s, x@, k);
                assert(c == i as int) by {
                    if c < i {
                        assert(s[c] != x@);
                    } else if c > i {
                        assert(s[i as int] != x@);
                    }
                }
            }
            return i;
        }
    }
    assert(!exists|i: int| first_at(s, x@, i));
    0
}

/// The number of steps in which the missing settings are asked for.
pub open spec fn last_stage() -> nat {
    17
}

/// A question with a text default.
pub open spec fn text_question(prompt: Seq<char>, f: TextField, d: Seq<char>) -> Option<
    QuestionView,
> {
    Some(QuestionView { prompt, ask: AskView::Text(f, d) })
}

/// A question for a size setting.
pub open spec fn number_question(prompt: Seq<char>, f: NumberField, d: u32) -> Option<QuestionView> {
    Some(QuestionView { prompt, ask: AskView::Number(f, d) })
}

/// The question for the root disk storage, given the host's storages.
pub open spec fn storage_question(storages: Seq<Seq<char>>) -> Option<QuestionView> {
    if storages.len() == 0 {
        text_question("Root disk storage"@, TextField::Storage, DEFAULT_STORAGE@)
    } else {
        Some(
            QuestionView {
                prompt: "Root disk storage"@,
                ask: AskView::Choice(
                    TextField::Storage,
                    storages,
                    position_or_first(storages, DEFAULT_STORAGE@),
                ),
            },
        )
    }
}

/// The question for the template storage, given the template-capable
/// storages, when there are none or several.
pub open spec fn template_question(templates: Seq<Seq<char>>) -> Option<QuestionView> {
    if templates.len() == 0 {
        text_question("Template storage"@, TextField::TemplateStorage, DEFAULT_TEMPLATE_STORAGE@)
    } else {
        Some(
            QuestionView {
                prompt: "Template storage"@,
                ask: AskView::Choice(
                    TextField::TemplateStorage,
                    templates,
                    position_or_first(templates, DEFAULT_TEMPLATE_STORAGE@),
                ),
            },
        )
    }
}

/// The question asked at step `k` of filling in the settings `c`, given the
/// host's storages and template-capable storages; none when the setting of
/// that step is already given. The steps ask, in order: hostname, root disk
/// storage, template storage (when no storage was found), template storage
/// (when several template-capable storages were found, or none), bridge,
/// memory, swap, disk, cores, nick, ZNC user, alternate nick, real name, IRC
/// server, port, network and password.
pub open spec fn stage_question(
    c: ConfigView,
    k: nat,
    storages: Seq<Seq<char>>,
    templates: Seq<Seq<char>>,
) -> Option<QuestionView> {
    if k == 0 {
        if c.hostname is None {
            text_question("Container hostname"@, TextField::Hostname, DEFAULT_ZNC_NAME@)
        } else {
            None
        }
    } else if k == 1 {
        if c.storage is None {
            storage_question(storages)
        } else {
            None
        }
    } else if k == 2 {
        if storages.len() == 0 && c.template_storage is None {
            text_question("Template storage"@, TextField::TemplateStorage, DEFAULT_TEMPLATE_STORAGE@)
        } else {
            None
        }
    } else if k == 3 {
        if c.template_storage is None {
            template_question(templates)
        } else {
            None
        }
    } else if k == 4 {
        if c.bridge is None {
            text_question("Proxmox bridge"@, TextField::Bridge, DEFAULT_BRIDGE@)
        } else {
            None
        }
    } else if k == 5 {
        if c.memory is None {
            number_question("Container RAM (MB)"@, NumberField::Memory, DEFAULT_MEMORY_MB)
        } else {
            None
        }
    } else if k == 6 {
        if c.swap is None {
            number_question("Container swap (MB)"@, NumberField::Swap, DEFAULT_SWAP_MB)
        } else {
            None
        }
    } else if k == 7 {
        if c.disk is None {
            number_question("Container root disk (GB)"@, NumberField::Disk, DEFAULT_DISK_GB)
        } else {
            None
        }
    } else if k == 8 {
        if c.cores is None {
            number_question("Container CPU cores"@, NumberField::Cores, DEFAULT_CORES)
        } else {
            None
        }
    } else if k == 9 {
        if c.nick is None {
            text_question("IRC nick"@, TextField::Nick, text_or(c.hostname, DEFAULT_NICK@))
        } else {
            None
        }
    } else if k == 10 {
        if c.znc_user is None {
            text_question(
                "ZNC admin username"@,
                TextField::ZncUser,
                text_or(c.nick, DEFAULT_ZNC_USER@),
            )
        } else {
            None
        }
    } else if k == 11 {
        if c.alt_nick is None {
            text_question(
                "IRC alternate nick"@,
                TextField::AltNick,
                text_or(c.znc_user, DEFAULT_ZNC_USER@) + "_"@,
            )
        } else {
            None
        }
    } else if k == 12 {
        if c.realname is None {
            text_question("IRC real name"@, TextField::RealName, text_or(c.nick, DEFAULT_NICK@))
        } else {
            None
        }
    } else if k == 13 {
        if c.irc_server is None {
            text_question("IRC server"@, TextField::IrcServer, DEFAULT_IRC_SERVER@)
        } else {
            None
        }
    } else if k == 14 {
        if c.irc_port is None {
            Some(QuestionView { prompt: "IRC server port"@, ask: AskView::Port(DEFAULT_IRC_PORT) })
        } else {
            None
        }
    } else if k == 15 {
        if c.irc_network is None {
            text_question("IRC network name"@, TextField::IrcNetwork, DEFAULT_IRC_NETWORK@)
        } else {
            None
        }
    } else if k == 16 {
        if c.password is None {
            Some(
                QuestionView {
                    prompt: "ZNC password"@,
                    ask: AskView::Secret(TextField::Password),
                },
            )
        } else {
            None
        }
    } else {
        None
    }
}

/// What step `k` sets without asking: when exactly one template-capable
/// storage was found, the template storage becomes that one.
pub open spec fn stage_update(c: ConfigView, k: nat, templates: Seq<Seq<char>>) -> ConfigView {
    if k == 3 && templates.len() == 1 {
        ConfigView { template_storage: Some(templates[0]), ..c }
    } else {
        c
    }
}

/// From step `k` on, the settings and the step at which the next question
/// is asked (the last stage when none is left).
pub open spec fn advance(
    c: ConfigView,
    k: nat,
    storages: Seq<Seq<char>>,
    templates: Seq<Seq<char>>,
) -> (ConfigView, nat)
    decreases last_stage() - k,
{
    if k >= last_stage() {
        (c, last_stage())
    } else {
        let c2 = stage_update(c, k, templates);
        if stage_question(c2, k, storages, templates) is Some {
            (c2, k)
        } else {
            advance(c2, k + 1, storages, templates)
        }
    }
}

/// The view of an optional question.
pub open spec fn opt_question(q: Option<Question>) -> Option<QuestionView> {
    match q {
        Some(q) => Some(q@),
        None => None,
    }
}

/// A question with a text default.
fn ask_text(prompt: &str, field: TextField, default: &str) -> (r: Option<Question>)
    ensures
        opt_question(r) == text_question(prompt@, field, default@),
{
    Some(
        Question {
            prompt: prompt.to_string(),
            ask: Ask::Text { field, default_text: default.to_string() },
        },
    )
}

/// A question for a size setting.
fn ask_number(prompt: &str, field: NumberField, default: u32) -> (r: Option<Question>)
    ensures
        opt_question(r) == number_question(prompt@, field, default),
{
    Some(
        Question {
            prompt: prompt.to_string(),
            ask: Ask::Number { setting: field, default_number: default },
        },
    )
}

/// A copy of the texts in `v`.
fn copy_texts(v: &Vec<String>) -> (r: Vec<String>)
    ensures
        r.deep_view() == v.deep_view(),
{
    let mut r: Vec<String> = Vec::new();
    for i in 0..v.len()
        invariant
            r.deep_view() == v.deep_view().take(i as int),
    {
        let ghost before = r.deep_view();
        let c = v[i].clone();
        r.push(c);
        assert(r.deep_view() =~= before.push(c@));
        assert(r.deep_view() =~= v.deep_view().take(i + 1));
    }
    assert(v.deep_view().take(v.len() as int) =~= v.deep_view());
    r
}

impl Config {
    /// The question asked at step `k`, if any.
    pub fn question_at(&self, k: usize, storages: &Vec<String>, template_storages: &Vec<String>) -> (r:
        Option<Question>)
        ensures
            opt_question(r) == stage_question(
                self@,
                k as nat,
                storages.deep_view(),
                template_storages.deep_view(),
            ),
    {
        if k == 0 {
            if self.hostname.is_none() {
                return ask_text("Container hostname", TextField::Hostname, DEFAULT_ZNC_NAME);
            }
        } else if k == 1 {
            if self.storage.is_none() {
                if storages.len() == 0 {
                    return ask_text("Root disk storage", TextField::Storage, DEFAULT_STORAGE);
                }
                let default_index = position_or_first_of(storages, DEFAULT_STORAGE);
                return Some(
                    Question {
                        prompt: "Root disk storage".to_string(),
                        ask: Ask::Choice {
                            field: TextField::Storage,
                            options: copy_texts(storages),
                            default_index,
                        },
                    },
                );
            }
        } else if k == 2 {
            if storages.len() == 0 && self.template_storage.is_none() {
                return ask_text(
                    "Template storage",
                    TextField::TemplateStorage,
                    DEFAULT_TEMPLATE_STORAGE,
                );
            }
        } else if k == 3 {
            if self.template_storage.is_none() {
                if template_storages.len() == 0 {
                    return ask_text(
                        "Template storage",
                        TextField::TemplateStorage,
                        DEFAULT_TEMPLATE_STORAGE,
                    );
                }
                let default_index = position_or_first_of(
                    template_storages,
                    DEFAULT_TEMPLATE_STORAGE,
                );
                return Some(
                    Question {
                        prompt: "Template storage".to_string(),
                        ask: Ask::Choice {
                            field: TextField::TemplateStorage,
                            options: copy_texts(template_storages),
                            default_index,
                        },
                    },
                );
            }
        } else if k == 4 {
            if self.bridge.is_none() {
                return ask_text("Proxmox bridge", TextField::Bridge, DEFAULT_BRIDGE);
            }
        } else if k == 5 {
            if self.memory.is_none() {
                return ask_number("Container RAM (MB)", NumberField::Memory, DEFAULT_MEMORY_MB);
            }
        } else if k == 6 {
            if self.swap.is_none() {
                return ask_number("Container swap (MB)", NumberField::Swap, DEFAULT_SWAP_MB);
            }
        } else if k == 7 {
            if self.disk.is_none() {
                return ask_number("Container root disk (GB)", NumberField::Disk, DEFAULT_DISK_GB);
            }
        } else if k == 8 {
            if self.cores.is_none() {
                return ask_number("Container CPU cores", NumberField::Cores, DEFAULT_CORES);
            }
        } else if k == 9 {
            if self.nick.is_none() {
                let default_nick = default_nick_from_hostname(
                    match &self.hostname {
                        Some(h) => Some(h.as_str()),
                        None => None,
                    },
                );
                return ask_text("IRC nick", TextField::Nick, default_nick.as_str());
            }
        } else if k == 10 {
            if self.znc_user.is_none() {
                let d = text_or_default(&self.nick, DEFAULT_ZNC_USER);
                return ask_text("ZNC admin username", TextField::ZncUser, d.as_str());
            }
        } else if k == 11 {
            if self.alt_nick.is_none() {
                let user = text_or_default(&self.znc_user, DEFAULT_ZNC_USER);
                let d = concat(user.as_str(), "_");
                return ask_text("IRC alternate nick", TextField::AltNick, d.as_str());
            }
        } else if k == 12 {
            if self.realname.is_none() {
                let d = text_or_default(&self.nick, DEFAULT_NICK);
                return ask_text("IRC real name", TextField::RealName, d.as_str());
            }
        } else if k == 13 {
            if self.irc_server.is_none() {
                return ask_text("IRC server", TextField::IrcServer, DEFAULT_IRC_SERVER);
            }
        } else if k == 14 {
            if self.irc_port.is_none() {
                return Some(
                    Question {
                        prompt: "IRC server port".to_string(),
                        ask: Ask::Port { default_port: DEFAULT_IRC_PORT },
                    },
                );
            }
        } else if k == 15 {
            if self.irc_network.is_none() {
                return ask_text("IRC network name", TextField::IrcNetwork, DEFAULT_IRC_NETWORK);
            }
        } else if k == 16 {
            if self.password.is_none() {
                return Some(
                    Question {
                        prompt: "ZNC password".to_string(),
                        ask: Ask::Secret { field: TextField::Password },
                    },
                );
            }
        }
        None
    }

    /// Goes through the steps from `stage` on, setting what needs no answer,
    /// up to the first setting that must be asked for. Gives back that step
    /// and its question, or the last stage and no question when every
    /// setting is given.
    pub fn prompt_missing(
        &mut self,
        stage: usize,
        storages: &Vec<String>,
        template_storages: &Vec<String>,
    ) -> (r: (usize, Option<Question>))
        requires
            stage <= last_stage(),
        ensures
            (final(self)@, r.0 as nat) == advance(
                old(self)@,
                stage as nat,
                storages.deep_view(),
                template_storages.deep_view(),
            ),
            opt_question(r.1) == stage_question(
                final(self)@,
                r.0 as nat,
                storages.deep_view(),
                template_storages.deep_view(),
            ),
            r.1 is None <==> r.0 == last_stage(),
    {
        let mut k = stage;
        while k < 17
            invariant
                k <= last_stage(),
                advance(self@, k as nat, storages.deep_view(), template_storages.deep_view())
                    == advance(
                    old(self)@,
                    stage as nat,
                    storages.deep_view(),
                    template_storages.deep_view(),
                ),
            decreases 17 - k,
        {
            if k == 3 && template_storages.len() == 1 {
                self.template_storage = Some(template_storages[0].clone());
            }
            let q = self.question_at(k, storages, template_storages);
            if q.is_some() {
                return (k, q);
            }
            k = k + 1;
        }
        (k, None)
    }
}

/// Whether a question can be answered: a choice offers its default.
pub open spec fn question_well_formed(q: QuestionView) -> bool {
    match q.ask {
        AskView::Choice(_, options, i) => i < options.len(),
        _ => true,
    }
}

/// The settings after the typed `line` answers `q`, or the message why the
/// line is no answer. A setting that is already given is kept.
pub open spec fn answered(c: ConfigView, q: QuestionView, line: Seq<char>) -> Result<
    ConfigView,
    Seq<char>,
> {
    match q.ask {
        AskView::Text(f, d) => Ok(
            if text_field(c, f) is Some {
                c
            } else {
                with_text_field(c, f, Some(text_answer(line, d)))
            },
        ),
        AskView::Choice(f, options, i) => if text_field(c, f) is Some {
            Ok(c)
        } else {
            match choice_answer(options, i, line) {
                Ok(v) => Ok(with_text_field(c, f, Some(v))),
                Err(m) => Err(m),
            }
        },
        AskView::Number(f, d) => if number_field(c, f) is Some {
            Ok(c)
        } else {
            match number_answer(line, d as nat, u32::MAX as nat) {
                Ok(v) => Ok(with_number_field(c, f, Some(v as u32))),
                Err(m) => Err(m),
            }
        },
        AskView::Port(d) => if c.irc_port is Some {
            Ok(c)
        } else {
            match number_answer(line, d as nat, u16::MAX as nat) {
                Ok(v) => Ok(ConfigView { irc_port: Some(v as u16), ..c }),
                Err(m) => Err(m),
            }
        },
        AskView::Secret(f) => if text_field(c, f) is Some {
            Ok(c)
        } else {
            match secret_answer(q.prompt, line) {
                Ok(v) => Ok(with_text_field(c, f, Some(v))),
                Err(m) => Err(m),
            }
        },
    }
}

impl Config {
    /// Takes the value of the text setting `f` out, leaving it absent.
    #[verifier::rlimit(40)]
    fn take_text(&mut self, f: TextField) -> (r: Option<String>)
        ensures
            opt_text(r) == text_field(old(self)@, f),
            final(self)@ == with_text_field(old(self)@, f, None),
    {
        match f {
            TextField::Hostname => self.hostname.take(),
            TextField::Storage => self.storage.take(),
            TextField::TemplateStorage => self.template_storage.take(),
            TextField::Bridge => self.bridge.take(),
            TextField::Nick => self.nick.take(),
            TextField::ZncUser => self.znc_user.take(),
            TextField::AltNick => self.alt_nick.take(),
            TextField::RealName => self.realname.take(),
            TextField::IrcServer => self.irc_server.take(),
            TextField::IrcNetwork => self.irc_network.take(),
            TextField::Password => self.password.take(),
        }
    }

    /// Sets the text setting `f` to `v`.
    #[verifier::rlimit(40)]
    fn put_text(&mut self, f: TextField, v: Option<String>)
        ensures
            final(self)@ == with_text_field(old(self)@, f, opt_text(v)),
    {
        match f {
            TextField::Hostname => self.hostname = v,
            TextField::Storage => self.storage = v,
            TextField::TemplateStorage => self.template_storage = v,
            TextField::Bridge => self.bridge = v,
            TextField::Nick => self.nick = v,
            TextField::ZncUser => self.znc_user = v,
            TextField::AltNick => self.alt_nick = v,
            TextField::RealName => self.realname = v,
            TextField::IrcServer => self.irc_server = v,
            TextField::IrcNetwork => self.irc_network = v,
            TextField::Password => self.password = v,
        }
    }

    /// Takes the value of the size setting `f` out, leaving it absent.
    fn take_number(&mut self, f: NumberField) -> (r: Option<u32>)
        ensures
            r == number_field(old(self)@, f),
            final(self)@ == with_number_field(old(self)@, f, None),
    {
        match f {
            NumberField::Memory => self.memory.take(),
            NumberField::Swap => self.swap.take(),
            NumberField::Disk => self.disk.take(),
            NumberField::Cores => self.cores.take(),
        }
    }

    /// Sets the size setting `f` to `v`.
    fn put_number(&mut self, f: NumberField, v: Option<u32>)
        ensures
            final(self)@ == with_number_field(old(self)@, f, v),
    {
        match f {
            NumberField::Memory => self.memory = v,
            NumberField::Swap => self.swap = v,
            NumberField::Disk => self.disk = v,
            NumberField::Cores => self.cores = v,
        }
    }

    /// Answers a question for a text setting that has a default.
    #[verifier::rlimit(40)]
    fn answer_text(&mut self, field: TextField, default: &str, line: &str)
        ensures
            final(self)@ == (if text_field(old(self)@, field) is Some {
                old(self)@
            } else {
                with_text_field(old(self)@, field, Some(text_answer(line@, default@)))
            }),
    {
        let mut slot = self.take_text(field);
        text(default, line, &mut slot);
        self.put_text(field, slot);
    }

    /// Answers a question that picks a text setting among `options`.
    #[verifier::rlimit(40)]
    fn answer_choice(
        &mut self,
        field: TextField,
        options: &Vec<String>,
        default_index: usize,
        line: &str,
    ) -> (r: Result<(), String>)
        requires
            default_index < options.len(),
        ensures
            text_field(old(self)@, field) is Some ==> r is Ok && final(self)@ == old(self)@,
            text_field(old(self)@, field) is None ==> match choice_answer(
                options.deep_view(),
                default_index as nat,
                line@,
            ) {
                Ok(v) => r is Ok && final(self)@ == with_text_field(old(self)@, field, Some(v)),
                Err(m) => r matches Err(e) && e@ == m && final(self)@ == old(self)@,
            },
    {
        let mut slot = self.take_text(field);
        let r = pick(default_index, options, line, &mut slot);
        self.put_text(field, slot);
        r
    }

    /// Answers a question for a size setting.
    #[verifier::rlimit(40)]
    fn answer_number(&mut self, field: NumberField, default: u32, line: &str) -> (r: Result<
        (),
        String,
    >)
        ensures
            number_field(old(self)@, field) is Some ==> r is Ok && final(self)@ == old(self)@,
            number_field(old(self)@, field) is None ==> match number_answer(
                line@,
                default as nat,
                u32::MAX as nat,
            ) {
                Ok(v) => r is Ok && final(self)@ == with_number_field(
                    old(self)@,
                    field,
                    Some(v as u32),
                ),
                Err(m) => r matches Err(e) && e@ == m && final(self)@ == old(self)@,
            },
    {
        let mut slot = self.take_number(field);
        let r = number(default, line, &mut slot);
        self.put_number(field, slot);
        r
    }

    /// Answers a question for a secret text setting.
    #[verifier::rlimit(40)]
    fn answer_secret(&mut self, field: TextField, prompt: &str, line: &str) -> (r: Result<
        (),
        String,
    >)
        ensures
            text_field(old(self)@, field) is Some ==> r is Ok && final(self)@ == old(self)@,
            text_field(old(self)@, field) is None ==> match secret_answer(prompt@, line@) {
                Ok(v) => r is Ok && final(self)@ == with_text_field(old(self)@, field, Some(v)),
                Err(m) => r matches Err(e) && e@ == m && final(self)@ == old(self)@,
            },
    {
        let mut slot = self.take_text(field);
        let r = secret(prompt, line, &mut slot);
        self.put_text(field, slot);
        r
    }

    /// Sets the setting that `q` asks for from the typed `line`, unless it is
    /// already given. A line that is no answer changes nothing and gives the
    /// message.
    #[verifier::rlimit(40)]
    pub fn answer(&mut self, q: &Question, line: &str) -> (r: Result<(), String>)
        requires
            question_well_formed(q@),
        ensures
            match answered(old(self)@, q@, line@) {
                Ok(c) => r is Ok && final(self)@ == c,
                Err(m) => r matches Err(e) && e@ == m && final(self)@ == old(self)@,
            },
    {
        match &q.ask {
            Ask::Text { field, default_text } => {
                self.answer_text(*field, default_text.as_str(), line);
                Ok(())
            },
            Ask::Choice { field, options, default_index } => {
                self.answer_choice(*field, options, *default_index, line)
            },
            Ask::Number { setting, default_number } => {
                self.answer_number(*setting, *default_number, line)
            },
            Ask::Port { default_port } => port_number(*default_port, line, &mut self.irc_port),
            Ask::Secret { field } => self.answer_secret(*field, q.prompt.as_str(), line),
        }
    }
}

impl Question {
    /// Whether the question can be answered (see `question_well_formed`).
    pub fn is_answerable(&self) -> (r: bool)
        ensures
            r == question_well_formed(self@),
    {
        match &self.ask {
            Ask::Choice { options, default_index, .. } => *default_index < options.len(),
            _ => true,
        }
    }
}

/// Whether the setting that `q` asks for is missing from `c`.
pub open spec fn asks_for_missing(c: ConfigView, q: QuestionView) -> bool {
    match q.ask {
        AskView::Text(f, _) => text_field(c, f) is None,
        AskView::Choice(f, _, _) => text_field(c, f) is None,
        AskView::Number(f, _) => number_field(c, f) is None,
        AskView::Port(_) => c.irc_port is None,
        AskView::Secret(f) => text_field(c, f) is None,
    }
}

/// Whether the setting that `q` asks for is given in `c`.
pub open spec fn asked_setting_given(c: ConfigView, q: QuestionView) -> bool {
    match q.ask {
        AskView::Text(f, _) => text_field(c, f) is Some,
        AskView::Choice(f, _, _) => text_field(c, f) is Some,
        AskView::Number(f, _) => number_field(c, f) is Some,
        AskView::Port(_) => c.irc_port is Some,
        AskView::Secret(f) => text_field(c, f) is Some,
    }
}

/// Whether every setting given in `a` is given, with the same value, in `b`.
pub open spec fn keeps_given(a: ConfigView, b: ConfigView) -> bool {
    &&& forall|f: TextField| #[trigger] text_field(a, f) is Some ==> text_field(b, f) == text_field(a, f)
    &&& forall|f: NumberField| #[trigger] number_field(a, f) is Some ==> number_field(b, f) == number_field(a, f)
    &&& a.irc_port is Some ==> b.irc_port == a.irc_port
    &&& b.dry_run == a.dry_run
}

/// A question is only asked for a setting that was not given, and every
/// question asked can be answered.
pub proof fn lemma_questions_ask_missing(
    c: ConfigView,
    k: nat,
    storages: Seq<Seq<char>>,
    templates: Seq<Seq<char>>,
)
    ensures
        stage_question(c, k, storages, templates) matches Some(q) ==> asks_for_missing(c, q),
        stage_question(c, k, storages, templates) matches Some(q) ==> question_well_formed(q),
{
    if storages.len() > 0 {
        lemma_position_in_range(storages, DEFAULT_STORAGE@);
    }
    if templates.len() > 0 {
        lemma_position_in_range(templates, DEFAULT_TEMPLATE_STORAGE@);
    }
}

proof fn lemma_position_in_range(s: Seq<Seq<char>>, x: Seq<char>)
    requires
        s.len() > 0,
    ensures
        position_or_first(s, x) < s.len(),
{
    if exists|i: int| first_at(s, x, i) {
        let i = choose|i: int| first_at(s, x, i);
        assert(first_at(s, x, i));
    }
}

/// An answer never replaces a setting that was given, and an accepted answer
/// gives the setting it was asked for.
pub proof fn lemma_answer_keeps_given(c: ConfigView, q: QuestionView, line: Seq<char>)
    ensures
        answered(c, q, line) matches Ok(c2) ==> keeps_given(c, c2) && asked_setting_given(c2, q),
{
    if let Ok(c2) = answered(c, q, line) {
        assert forall|f: TextField| #[trigger] text_field(c, f) is Some implies text_field(c2, f)
            == text_field(c, f) by {
            match q.ask {
                AskView::Text(g, _) => {},
                AskView::Choice(g, _, _) => {},
                AskView::Secret(g) => {},
                _ => {},
            }
        }
    }
}

/// The settings with the template storage set to the one template-capable
/// storage.
pub open spec fn with_only_template(c: ConfigView, templates: Seq<Seq<char>>) -> ConfigView {
    ConfigView { template_storage: Some(templates[0]), ..c }
}

/// Going through the steps changes no setting, except that the template
/// storage becomes the one template-capable storage when there is exactly
/// one and the step that sets it is still ahead.
pub proof fn lemma_advance_keeps_given(
    c: ConfigView,
    k: nat,
    storages: Seq<Seq<char>>,
    templates: Seq<Seq<char>>,
)
    ensures
        advance(c, k, storages, templates).0 == c || (k <= 3 && templates.len() == 1 && advance(
            c,
            k,
            storages,
            templates,
        ).0 == with_only_template(c, templates)),
    decreases last_stage() - k,
{
    if k < last_stage() {
        let c2 = stage_update(c, k, templates);
        if stage_question(c2, k, storages, templates) is None {
            lemma_advance_keeps_given(c2, k + 1, storages, templates);
            if k == 3 && templates.len() == 1 {
                assert(with_only_template(c2, templates) == with_only_template(c, templates));
            }
        }
    }
}

/// Whether the setting that step `j` is about is given in `c`.
pub open spec fn stage_setting_given(c: ConfigView, j: nat) -> bool {
    if j == 0 {
        c.hostname is Some
    } else if j == 1 {
        c.storage is Some
    } else if j == 2 || j == 3 {
        c.template_storage is Some
    } else if j == 4 {
        c.bridge is Some
    } else if j == 5 {
        c.memory is Some
    } else if j == 6 {
        c.swap is Some
    } else if j == 7 {
        c.disk is Some
    } else if j == 8 {
        c.cores is Some
    } else if j == 9 {
        c.nick is Some
    } else if j == 10 {
        c.znc_user is Some
    } else if j == 11 {
        c.alt_nick is Some
    } else if j == 12 {
        c.realname is Some
    } else if j == 13 {
        c.irc_server is Some
    } else if j == 14 {
        c.irc_port is Some
    } else if j == 15 {
        c.irc_network is Some
    } else {
        c.password is Some
    }
}

/// When no question is left from step `k` on, every setting of those steps
/// is given: the steps ask for each missing setting in turn.
pub proof fn lemma_no_question_left(
    c: ConfigView,
    k: nat,
    storages: Seq<Seq<char>>,
    templates: Seq<Seq<char>>,
)
    ensures
        advance(c, k, storages, templates).1 == last_stage() ==> forall|j: nat|
            k <= j < last_stage() && j != 2 ==> #[trigger] stage_setting_given(
                advance(c, k, storages, templates).0,
                j,
            ),
    decreases last_stage() - k,
{
    if k < last_stage() {
        let c2 = stage_update(c, k, templates);
        if stage_question(c2, k, storages, templates) is None {
            lemma_no_question_left(c2, k + 1, storages, templates);
            let end = advance(c2, k + 1, storages, templates).0;
            lemma_advance_keeps_given(c2, k + 1, storages, templates);
            assert(end == c2 || end == with_only_template(c2, templates));
            if advance(c, k, storages, templates).1 == last_stage() && k != 2 {
                assert(stage_setting_given(c2, k));
                assert(stage_setting_given(end, k)) by {
                    if k == 0 {
                        assert(text_field(c2, TextField::Hostname) is Some);
                    } else if k == 1 {
                        assert(text_field(c2, TextField::Storage) is Some);
                    } else if k == 4 {
                        assert(text_field(c2, TextField::Bridge) is Some);
                    } else if k == 5 {
                        assert(number_field(c2, NumberField::Memory) is Some);
                    } else if k == 6 {
                        assert(number_field(c2, NumberField::Swap) is Some);
                    } else if k == 7 {
                        assert(number_field(c2, NumberField::Disk) is Some);
                    } else if k == 8 {
                        assert(number_field(c2, NumberField::Cores) is Some);
                    } else if k == 9 {
                        assert(text_field(c2, TextField::Nick) is Some);
                    } else if k == 10 {
                        assert(text_field(c2, TextField::ZncUser) is Some);
                    } else if k == 11 {
                        assert(text_field(c2, TextField::AltNick) is Some);
                    } else if k == 12 {
                        assert(text_field(c2, TextField::RealName) is Some);
                    } else if k == 13 {
                        assert(text_field(c2, TextField::IrcServer) is Some);
                    } else if k == 15 {
                        assert(text_field(c2, TextField::IrcNetwork) is Some);
                    } else if k == 16 {
                        assert(text_field(c2, TextField::Password) is Some);
                    }
                }
            }
        }
    }
}

/// Whether the settings of the steps before `k` are given in `c` (the
/// template storage standing for both of its steps) and, once the step that
/// sets it is past, the template storage is the one template-capable storage
/// when there is exactly one.
pub open spec fn settled(c: ConfigView, k: nat, templates: Seq<Seq<char>>) -> bool {
    &&& forall|j: nat| j < k && j != 2 ==> #[trigger] stage_setting_given(c, j)
    &&& k > 3 && templates.len() == 1 ==> c.template_storage == Some(templates[0])
}

/// A step asks nothing about a setting that is given, and asks for the
/// setting it is about when that one is missing.
proof fn lemma_stage_question_given(
    c: ConfigView,
    k: nat,
    storages: Seq<Seq<char>>,
    templates: Seq<Seq<char>>,
)
    requires
        k < last_stage(),
        k != 2,
    ensures
        stage_question(c, k, storages, templates) is None <==> stage_setting_given(c, k),
{
}

/// Every setting the steps before `k` are about stays given, with the same
/// value, when the settings `c` become `d` keeping what was given.
proof fn lemma_keeps_settled(c: ConfigView, d: ConfigView, k: nat, templates: Seq<Seq<char>>)
    requires
        keeps_given(c, d),
        settled(c, k, templates),
    ensures
        settled(d, k, templates),
{
    assert(text_field(c, TextField::Hostname) == c.hostname);
    assert(text_field(c, TextField::Storage) == c.storage);
    assert(text_field(c, TextField::TemplateStorage) == c.template_storage);
    assert(text_field(c, TextField::Bridge) == c.bridge);
    assert(text_field(c, TextField::Nick) == c.nick);
    assert(text_field(c, TextField::ZncUser) == c.znc_user);
    assert(text_field(c, TextField::AltNick) == c.alt_nick);
    assert(text_field(c, TextField::RealName) == c.realname);
    assert(text_field(c, TextField::IrcServer) == c.irc_server);
    assert(text_field(c, TextField::IrcNetwork) == c.irc_network);
    assert(text_field(c, TextField::Password) == c.password);
    assert(number_field(c, NumberField::Memory) == c.memory);
    assert(number_field(c, NumberField::Swap) == c.swap);
    assert(number_field(c, NumberField::Disk) == c.disk);
    assert(number_field(c, NumberField::Cores) == c.cores);
    assert forall|j: nat| j < k && j != 2 implies #[trigger] stage_setting_given(d, j) by {
        assert(stage_setting_given(c, j));
    }
}

/// Going through the steps keeps the settings settled up to the step where
/// the next question is asked, and no question is asked at the step that
/// sets the template storage when there is one template-capable storage.
proof fn lemma_advance_settles(
    c: ConfigView,
    k: nat,
    storages: Seq<Seq<char>>,
    templates: Seq<Seq<char>>,
)
    requires
        settled(c, k, templates),
        k <= last_stage(),
    ensures
        settled(
            advance(c, k, storages, templates).0,
            advance(c, k, storages, templates).1,
            templates,
        ),
        advance(c, k, storages, templates).1 == 3 ==> templates.len() != 1,
    decreases last_stage() - k,
{
    if k < last_stage() {
        let c2 = stage_update(c, k, templates);
        assert forall|j: nat| j < k && j != 2 implies #[trigger] stage_setting_given(c2, j) by {
            assert(stage_setting_given(c, j));
        }
        if stage_question(c2, k, storages, templates) is None {
            if k != 2 {
                lemma_stage_question_given(c2, k, storages, templates);
            }
            assert forall|j: nat| j < k + 1 && j != 2 implies #[trigger] stage_setting_given(
                c2,
                j,
            ) by {
                if j < k {
                    assert(stage_setting_given(c2, j));
                }
            }
            lemma_advance_settles(c2, k + 1, storages, templates);
        }
    }
}

/// One round of the questions keeps the settings settled: going through the
/// steps from `k` and then answering the question reached settles every
/// step up to and including the one just answered.
pub proof fn lemma_question_round_settles(
    c: ConfigView,
    k: nat,
    storages: Seq<Seq<char>>,
    templates: Seq<Seq<char>>,
    line: Seq<char>,
)
    requires
        settled(c, k, templates),
        k <= last_stage(),
    ensures
        settled(
            advance(c, k, storages, templates).0,
            advance(c, k, storages, templates).1,
            templates,
        ),
        ({
            let (c1, k1) = advance(c, k, storages, templates);
            stage_question(c1, k1, storages, templates) matches Some(q) ==> (answered(
                c1,
                q,
                line,
            ) matches Ok(c2) ==> settled(c2, k1 + 1, templates))
        }),
{
    lemma_advance_settles(c, k, storages, templates);
    let (c1, k1) = advance(c, k, storages, templates);
    if let Some(q) = stage_question(c1, k1, storages, templates) {
        if let Ok(c2) = answered(c1, q, line) {
            lemma_answer_keeps_given(c1, q, line);
            lemma_keeps_settled(c1, c2, k1, templates);
            assert(k1 < last_stage());
            if k1 != 2 {
                assert(stage_setting_given(c2, k1)) by {
                    assert(text_field(c2, TextField::Hostname) == c2.hostname);
                    assert(text_field(c2, TextField::Storage) == c2.storage);
                    assert(text_field(c2, TextField::TemplateStorage) == c2.template_storage);
                    assert(text_field(c2, TextField::Bridge) == c2.bridge);
                    assert(text_field(c2, TextField::Nick) == c2.nick);
                    assert(text_field(c2, TextField::ZncUser) == c2.znc_user);
                    assert(text_field(c2, TextField::AltNick) == c2.alt_nick);
                    assert(text_field(c2, TextField::RealName) == c2.realname);
                    assert(text_field(c2, TextField::IrcServer) == c2.irc_server);
                    assert(text_field(c2, TextField::IrcNetwork) == c2.irc_network);
                    assert(text_field(c2, TextField::Password) == c2.password);
                    assert(number_field(c2, NumberField::Memory) == c2.memory);
                    assert(number_field(c2, NumberField::Swap) == c2.swap);
                    assert(number_field(c2, NumberField::Disk) == c2.disk);
                    assert(number_field(c2, NumberField::Cores) == c2.cores);
                }
            }
            assert forall|j: nat| j < k1 + 1 && j != 2 implies #[trigger] stage_setting_given(
                c2,
                j,
            ) by {
                if j < k1 {
                    assert(stage_setting_given(c2, j));
                }
            }
            assert(text_field(c1, TextField::TemplateStorage) == c1.template_storage);
        }
    }
}

/// Once every step is settled, going through the steps again from `k` asks
/// nothing and changes nothing.
proof fn lemma_settled_asks_nothing(
    c: ConfigView,
    k: nat,
    storages: Seq<Seq<char>>,
    templates: Seq<Seq<char>>,
)
    requires
        settled(c, last_stage(), templates),
        k <= last_stage(),
    ensures
        advance(c, k, storages, templates) == (c, last_stage()),
    decreases last_stage() - k,
{
    if k < last_stage() {
        assert(stage_update(c, k, templates) == c);
        if k == 2 {
            assert(stage_setting_given(c, 3));
        } else {
            assert(stage_setting_given(c, k));
            lemma_stage_question_given(c, k, storages, templates);
        }
        lemma_settled_asks_nothing(c, k + 1, storages, templates);
    }
}

/// After the questions have come to an end, a second run of them over the
/// same storages asks nothing and changes no setting: the run that starts
/// with settings settled up to step `k` (at the first step, any settings)
/// and ends there leaves settings that the steps, gone through again from
/// the first, leave as they are, with no question.
pub proof fn lemma_second_run_asks_nothing(
    c: ConfigView,
    k: nat,
    storages: Seq<Seq<char>>,
    templates: Seq<Seq<char>>,
)
    requires
        settled(c, k, templates),
        k <= last_stage(),
        advance(c, k, storages, templates).1 == last_stage(),
    ensures
        advance(advance(c, k, storages, templates).0, 0, storages, templates) == (
            advance(c, k, storages, templates).0,
            last_stage(),
        ),
{
    lemma_advance_settles(c, k, storages, templates);
    lemma_settled_asks_nothing(advance(c, k, storages, templates).0, 0, storages, templates);
}

/// When `x` is in `s`, there is a first place of it.
proof fn lemma_first_place(s: Seq<Seq<char>>, x: Seq<char>)
    requires
        s.contains(x),
    ensures
        exists|i: int| first_at(s, x, i),
    decreases s.len(),
{
    let init = s.drop_last();
    if init.contains(x) {
        lemma_first_place(init, x);
        let i = choose|i: int| first_at(init, x, i);
        assert forall|j: int| 0 <= j < i implies s[j] != x by {
            assert(init[j] == s[j]);
        }
        assert(s[i] == init[i]);
        assert(first_at(s, x, i));
    } else {
        assert forall|j: int| 0 <= j < s.len() - 1 implies s[j] != x by {
            if s[j] == x {
                assert(init[j] == x);
            }
        }
        assert(first_at(s, x, s.len() - 1));
    }
}

/// The choice offered among `options` defaults to the first option that is
/// `x` when there is one, and to the first option otherwise.
pub proof fn lemma_choice_default(options: Seq<Seq<char>>, x: Seq<char>)
    ensures
        options.contains(x) ==> position_or_first(options, x) < options.len() && options[position_or_first(
            options,
            x,
        ) as int] == x && forall|j: int|
            0 <= j < position_or_first(options, x) ==> #[trigger] options[j] != x,
        !options.contains(x) ==> position_or_first(options, x) == 0,
{
    if options.contains(x) {
        lemma_first_place(options, x);
    } else {
        if exists|i: int| first_at(options, x, i) {
            let i = choose|i: int| first_at(options, x, i);
            assert(options[i] == x);
        }
    }
}

/// The storage questions offer the storages found, in the order found, with
/// the default storages as the default answers: the root disk storage
/// defaults to the first `local-lvm` found, the template storage to the
/// first `local` found, and either to the first storage found when its
/// default is not among them.
pub proof fn lemma_storage_choices_default(
    c: ConfigView,
    storages: Seq<Seq<char>>,
    templates: Seq<Seq<char>>,
)
    ensures
        c.storage is None && storages.len() > 0 ==> (stage_question(c, 1, storages, templates)
            matches Some(q) && (q.ask matches AskView::Choice(f, opts, i) && f == TextField::Storage
            && opts == storages && i < opts.len() && (storages.contains(DEFAULT_STORAGE@)
            ==> opts[i as int] == DEFAULT_STORAGE@) && (!storages.contains(DEFAULT_STORAGE@) ==> i
            == 0))),
        c.template_storage is None && templates.len() > 0 ==> (stage_question(
            c,
            3,
            storages,
            templates,
        ) matches Some(q) && (q.ask matches AskView::Choice(f, opts, i) && f
            == TextField::TemplateStorage && opts == templates && i < opts.len() && (
        templates.contains(DEFAULT_TEMPLATE_STORAGE@) ==> opts[i as int]
            == DEFAULT_TEMPLATE_STORAGE@) && (!templates.contains(DEFAULT_TEMPLATE_STORAGE@) ==> i
            == 0))),
{
    lemma_choice_default(storages, DEFAULT_STORAGE@);
    lemma_choice_default(templates, DEFAULT_TEMPLATE_STORAGE@);
    if storages.len() > 0 {
        lemma_position_in_range(storages, DEFAULT_STORAGE@);
    }
    if templates.len() > 0 {
        lemma_position_in_range(templates, DEFAULT_TEMPLATE_STORAGE@);
    }
}

} // verus!
