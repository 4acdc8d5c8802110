//! The command-line grammar of `pb`: global flags, subcommands, their
//! positional arguments and options.
//!
//! Arguments are read one at a time, left to right (`step`); an error, or a
//! request for help or the version, ends the reading at once. What is left
//! is then checked for completeness (`finish`).
use vstd::prelude::*;

use crate::command::{
    ApiCallArgs, Cli, Command, CommandArgs, FileArgs, FileSearchArgs, FilesArgs, ModpackArgs,
    PluginArgs, PowerArgs, ServerId,
};
use crate::text::{parse_ranged_u32, spec_parse_ranged_u32, spec_split_once, split_once, str_eq};

verus! {

/// The subcommands, by name.
#[derive(Debug, Clone, Copy, PartialEq, Eq, Structural)]
pub enum Subcommand {
    Login,
    Account,
    Servers,
    Server,
    Power,
    Command,
    Resources,
    Activity,
    Backups,
    Databases,
    Allocations,
    Schedules,
    Players,
    Plugins,
    Modpacks,
    Files,
    ApiCall,
    Operations,
    FileSearch,
    File,
    Update,
}

/// The options that take a value.
#[derive(Debug, Clone, Copy, PartialEq, Eq, Structural)]
pub enum OptName {
    BaseUrl,
    Action,
    Command,
    Provider,
    Page,
    PageSize,
    SearchQuery,
    MinecraftVersion,
    Directory,
    Root,
    Query,
    Body,
}

/// Why a command line was refused.
#[derive(Debug)]
pub enum ArgError {
    /// An argument that the grammar does not take here.
    UnexpectedArgument(String),
    /// A first positional argument that names no subcommand.
    UnknownSubcommand(String),
    /// A flag given a value (`--json=...`).
    UnexpectedValue(String),
    /// `--json` (or `--verbose`) given twice before, or twice after, the subcommand.
    RepeatedFlag(String),
    /// No subcommand.
    MissingSubcommand,
    /// An option at the end, or before something that is not a value.
    MissingValue(OptName),
    /// An option given twice.
    RepeatedOption(OptName),
    /// A value the option does not accept.
    InvalidValue(OptName, String),
    /// A required positional argument is missing.
    MissingArgument(String),
    /// A required option is missing.
    MissingOption(OptName),
}

/// The model of a refusal.
pub enum ArgErrorView {
    UnexpectedArgument(Seq<char>),
    UnknownSubcommand(Seq<char>),
    UnexpectedValue(Seq<char>),
    RepeatedFlag(Seq<char>),
    MissingSubcommand,
    MissingValue(OptName),
    RepeatedOption(OptName),
    InvalidValue(OptName, Seq<char>),
    MissingArgument(Seq<char>),
    MissingOption(OptName),
}

impl View for ArgError {
    type V = ArgErrorView;

    open spec fn view(&self) -> ArgErrorView {
        match self {
            ArgError::UnexpectedArgument(a) => ArgErrorView::UnexpectedArgument(a@),
            ArgError::UnknownSubcommand(a) => ArgErrorView::UnknownSubcommand(a@),
            ArgError::UnexpectedValue(a) => ArgErrorView::UnexpectedValue(a@),
            ArgError::RepeatedFlag(a) => ArgErrorView::RepeatedFlag(a@),
            ArgError::MissingSubcommand => ArgErrorView::MissingSubcommand,
            ArgError::MissingValue(o) => ArgErrorView::MissingValue(*o),
            ArgError::RepeatedOption(o) => ArgErrorView::RepeatedOption(*o),
            ArgError::InvalidValue(o, v) => ArgErrorView::InvalidValue(*o, v@),
            ArgError::MissingArgument(a) => ArgErrorView::MissingArgument(a@),
            ArgError::MissingOption(o) => ArgErrorView::MissingOption(*o),
        }
    }
}

/// The outcome of reading a command line.
#[derive(Debug)]
pub enum Parsed {
    /// Run this command line.
    Run(Cli),
    /// Print the help text.
    Help,
    /// Print the version.
    Version,
}

// ---------------------------------------------------------------------------
// Names
/// The subcommand a name stands for.
pub open spec fn subcommand_named(name: Seq<char>) -> Option<Subcommand> {
    if name == "login"@ {
        Some(Subcommand::Login)
    } else if name == "account"@ {
        Some(Subcommand::Account)
    } else if name == "servers"@ {
        Some(Subcommand::Servers)
    } else if name == "server"@ {
        Some(Subcommand::Server)
    } else if name == "power"@ {
        Some(Subcommand::Power)
    } else if name == "command"@ {
        Some(Subcommand::Command)
    } else if name == "resources"@ {
        Some(Subcommand::Resources)
    } else if name == "activity"@ {
        Some(Subcommand::Activity)
    } else if name == "backups"@ {
        Some(Subcommand::Backups)
    } else if name == "databases"@ {
        Some(Subcommand::Databases)
    } else if name == "allocations"@ {
        Some(Subcommand::Allocations)
    } else if name == "schedules"@ {
        Some(Subcommand::Schedules)
    } else if name == "players"@ {
        Some(Subcommand::Players)
    } else if name == "plugins"@ {
        Some(Subcommand::Plugins)
    } else if name == "modpacks"@ {
        Some(Subcommand::Modpacks)
    } else if name == "files"@ {
        Some(Subcommand::Files)
    } else if name == "api-call"@ {
        Some(Subcommand::ApiCall)
    } else if name == "operations"@ {
        Some(Subcommand::Operations)
    } else if name == "file-search"@ {
        Some(Subcommand::FileSearch)
    } else if name == "file"@ {
        Some(Subcommand::File)
    } else if name == "update"@ {
        Some(Subcommand::Update)
    } else {
        None
    }
}

/// The subcommand a name stands for.
fn find_subcommand(name: &str) -> (r: Option<Subcommand>)
    ensures
        r == subcommand_named(name@),
{
    if str_eq(name, "login") {
        Some(Subcommand::Login)
    } else if str_eq(name, "account") {
        Some(Subcommand::Account)
    } else if str_eq(name, "servers") {
        Some(Subcommand::Servers)
    } else if str_eq(name, "server") {
        Some(Subcommand::Server)
    } else if str_eq(name, "power") {
        Some(Subcommand::Power)
    } else if str_eq(name, "command") {
        Some(Subcommand::Command)
    } else if str_eq(name, "resources") {
        Some(Subcommand::Resources)
    } else if str_eq(name, "activity") {
        Some(Subcommand::Activity)
    } else if str_eq(name, "backups") {
        Some(Subcommand::Backups)
    } else if str_eq(name, "databases") {
        Some(Subcommand::Databases)
    } else if str_eq(name, "allocations") {
        Some(Subcommand::Allocations)
    } else if str_eq(name, "schedules") {
        Some(Subcommand::Schedules)
    } else if str_eq(name, "players") {
        Some(Subcommand::Players)
    } else if str_eq(name, "plugins") {
        Some(Subcommand::Plugins)
    } else if str_eq(name, "modpacks") {
        Some(Subcommand::Modpacks)
    } else if str_eq(name, "files") {
        Some(Subcommand::Files)
    } else if str_eq(name, "api-call") {
        Some(Subcommand::ApiCall)
    } else if str_eq(name, "operations") {
        Some(Subcommand::Operations)
    } else if str_eq(name, "file-search") {
        Some(Subcommand::FileSearch)
    } else if str_eq(name, "file") {
        Some(Subcommand::File)
    } else if str_eq(name, "update") {
        Some(Subcommand::Update)
    } else {
        None
    }
}

/// The option a long name stands for: `--base-url` before the subcommand,
/// and after it the options of that subcommand.
pub open spec fn option_named(sub: Option<Subcommand>, name: Seq<char>) -> Option<OptName> {
    match sub {
        None => if name == "base-url"@ {
            Some(OptName::BaseUrl)
        } else {
            None
        },
        Some(Subcommand::Power) => if name == "action"@ {
            Some(OptName::Action)
        } else {
            None
        },
        Some(Subcommand::Command) => if name == "command"@ {
            Some(OptName::Command)
        } else {
            None
        },
        Some(Subcommand::Plugins) => if name == "provider"@ {
            Some(OptName::Provider)
        } else if name == "page"@ {
            Some(OptName::Page)
        } else if name == "page-size"@ {
            Some(OptName::PageSize)
        } else if name == "search-query"@ {
            Some(OptName::SearchQuery)
        } else if name == "minecraft-version"@ {
            Some(OptName::MinecraftVersion)
        } else {
            None
        },
        Some(Subcommand::Modpacks) => if name == "provider"@ {
            Some(OptName::Provider)
        } else if name == "page"@ {
            Some(OptName::Page)
        } else if name == "page-size"@ {
            Some(OptName::PageSize)
        } else if name == "search-query"@ {
            Some(OptName::SearchQuery)
        } else {
            None
        },
        Some(Subcommand::Files) => if name == "directory"@ {
            Some(OptName::Directory)
        } else {
            None
        },
        Some(Subcommand::FileSearch) => if name == "root"@ {
            Some(OptName::Root)
        } else {
            None
        },
        Some(Subcommand::ApiCall) => if name == "query"@ {
            Some(OptName::Query)
        } else if name == "body"@ {
            Some(OptName::Body)
        } else {
            None
        },
        _ => None,
    }
}

/// The option a long name stands for.
fn find_option(sub: Option<Subcommand>, name: &str) -> (r: Option<OptName>)
    ensures
        r == option_named(sub, name@),
{
    match sub {
        None => if str_eq(name, "base-url") {
            Some(OptName::BaseUrl)
        } else {
            None
        },
        Some(Subcommand::Power) => if str_eq(name, "action") {
            Some(OptName::Action)
        } else {
            None
        },
        Some(Subcommand::Command) => if str_eq(name, "command") {
            Some(OptName::Command)
        } else {
            None
        },
        Some(Subcommand::Plugins) => if str_eq(name, "provider") {
            Some(OptName::Provider)
        } else if str_eq(name, "page") {
            Some(OptName::Page)
        } else if str_eq(name, "page-size") {
            Some(OptName::PageSize)
        } else if str_eq(name, "search-query") {
            Some(OptName::SearchQuery)
        } else if str_eq(name, "minecraft-version") {
            Some(OptName::MinecraftVersion)
        } else {
            None
        },
        Some(Subcommand::Modpacks) => if str_eq(name, "provider") {
            Some(OptName::Provider)
        } else if str_eq(name, "page") {
            Some(OptName::Page)
        } else if str_eq(name, "page-size") {
            Some(OptName::PageSize)
        } else if str_eq(name, "search-query") {
            Some(OptName::SearchQuery)
        } else {
            None
        },
        Some(Subcommand::Files) => if str_eq(name, "directory") {
            Some(OptName::Directory)
        } else {
            None
        },
        Some(Subcommand::FileSearch) => if str_eq(name, "root") {
            Some(OptName::Root)
        } else {
            None
        },
        Some(Subcommand::ApiCall) => if str_eq(name, "query") {
            Some(OptName::Query)
        } else if str_eq(name, "body") {
            Some(OptName::Body)
        } else {
            None
        },
        _ => None,
    }
}

/// The names of a subcommand's positional arguments, in order.
pub open spec fn positional_names(sub: Subcommand) -> Seq<Seq<char>> {
    match sub {
        Subcommand::Login | Subcommand::Account | Subcommand::Servers | Subcommand::Operations
        | Subcommand::Update => Seq::empty(),
        Subcommand::FileSearch => seq!["server_id"@, "query"@],
        Subcommand::File => seq!["server_id"@, "path"@],
        Subcommand::ApiCall => seq!["method"@, "path"@],
        _ => seq!["server_id"@],
    }
}

/// How many positional arguments a subcommand takes.
fn positional_count(sub: Subcommand) -> (n: usize)
    ensures
        n == positional_names(sub).len(),
{
    match sub {
        Subcommand::Login | Subcommand::Account | Subcommand::Servers | Subcommand::Operations
        | Subcommand::Update => 0,
        Subcommand::FileSearch | Subcommand::File | Subcommand::ApiCall => 2,
        _ => 1,
    }
}

/// The power signals.
pub open spec fn is_power_signal(v: Seq<char>) -> bool {
    v == "start"@ || v == "stop"@ || v == "restart"@ || v == "kill"@
}

// ---------------------------------------------------------------------------
// Reading arguments one at a time
/// Why reading stopped early.
#[derive(Debug)]
pub enum Stop {
    Help,
    Version,
    Error(ArgError),
}

/// The model of a stop.
pub enum StopView {
    Help,
    Version,
    Error(ArgErrorView),
}

/// What has been read so far.
#[derive(Debug)]
pub struct Scan {
    pub json: bool,
    /// The JSON flag was given since the last subcommand name (or the start).
    pub json_here: bool,
    pub base_url: Option<String>,
    pub sub: Option<Subcommand>,
    /// The option whose value comes next.
    pub pending: Option<OptName>,
    /// A `--` was read: what follows is positional.
    pub after_separator: bool,
    pub positionals: Vec<String>,
    pub action: Option<String>,
    pub command: Option<String>,
    pub provider: Option<String>,
    pub page: Option<u32>,
    pub page_size: Option<u32>,
    pub search_query: Option<String>,
    pub minecraft_version: Option<String>,
    pub directory: Option<String>,
    pub root: Option<String>,
    pub query: Vec<String>,
    pub body: Option<String>,
    pub stop: Option<Stop>,
}

/// The model of what has been read.
pub struct ScanView {
    pub json: bool,
    pub json_here: bool,
    pub base_url: Option<Seq<char>>,
    pub sub: Option<Subcommand>,
    pub pending: Option<OptName>,
    pub after_separator: bool,
    pub positionals: Seq<Seq<char>>,
    pub action: Option<Seq<char>>,
    pub command: Option<Seq<char>>,
    pub provider: Option<Seq<char>>,
    pub page: Option<u32>,
    pub page_size: Option<u32>,
    pub search_query: Option<Seq<char>>,
    pub minecraft_version: Option<Seq<char>>,
    pub directory: Option<Seq<char>>,
    pub root: Option<Seq<char>>,
    pub query: Seq<Seq<char>>,
    pub body: Option<Seq<char>>,
    pub stop: Option<StopView>,
}

/// The model of an optional text.
pub open spec fn ov(s: Option<String>) -> Option<Seq<char>> {
    match s {
        Some(t) => Some(t@),
        None => None,
    }
}

/// The texts of a list of texts.
pub open spec fn tv(v: Seq<String>) -> Seq<Seq<char>> {
    Seq::new(v.len(), |i: int| v[i]@)
}

impl View for Scan {
    type V = ScanView;

    open spec fn view(&self) -> ScanView {
        ScanView {
            json: self.json,
            json_here: self.json_here,
            base_url: ov(self.base_url),
            sub: self.sub,
            pending: self.pending,
            after_separator: self.after_separator,
            positionals: tv(self.positionals@),
            action: ov(self.action),
            command: ov(self.command),
            provider: ov(self.provider),
            page: self.page,
            page_size: self.page_size,
            search_query: ov(self.search_query),
            minecraft_version: ov(self.minecraft_version),
            directory: ov(self.directory),
            root: ov(self.root),
            query: tv(self.query@),
            body: ov(self.body),
            stop: match self.stop {
                None => None,
                Some(Stop::Help) => Some(StopView::Help),
                Some(Stop::Version) => Some(StopView::Version),
                Some(Stop::Error(e)) => Some(StopView::Error(e@)),
            },
        }
    }
}

/// Nothing read yet.
pub open spec fn initial_scan() -> ScanView {
    ScanView {
        json: false,
        json_here: false,
        base_url: None,
        sub: None,
        pending: None,
        after_separator: false,
        positionals: Seq::empty(),
        action: None,
        command: None,
        provider: None,
        page: None,
        page_size: None,
        search_query: None,
        minecraft_version: None,
        directory: None,
        root: None,
        query: Seq::empty(),
        body: None,
        stop: None,
    }
}

/// Whether an argument looks like a flag, and so cannot be a value.
pub open spec fn looks_like_flag(tok: Seq<char>) -> bool {
    tok.len() > 1 && tok[0] == '-'
}

/// The state with reading stopped by `e`.
pub open spec fn fail(s: ScanView, e: ArgErrorView) -> ScanView {
    ScanView { stop: Some(StopView::Error(e)), ..s }
}

/// The state after option `o` received `value`: an option other than
/// `--query` may come once; `--action` takes a power signal, `--page` and
/// `--page-size` a number in 0..=u32::MAX, read as clap reads it.
pub open spec fn set_option(s: ScanView, o: OptName, value: Seq<char>) -> ScanView {
    let s = ScanView { pending: None, ..s };
    match o {
        OptName::BaseUrl => if s.base_url is Some {
            fail(s, ArgErrorView::RepeatedOption(o))
        } else {
            ScanView { base_url: Some(value), ..s }
        },
        OptName::Action => if s.action is Some {
            fail(s, ArgErrorView::RepeatedOption(o))
        } else if !is_power_signal(value) {
            fail(s, ArgErrorView::InvalidValue(o, value))
        } else {
            ScanView { action: Some(value), ..s }
        },
        OptName::Command => if s.command is Some {
            fail(s, ArgErrorView::RepeatedOption(o))
        } else {
            ScanView { command: Some(value), ..s }
        },
        OptName::Provider => if s.provider is Some {
            fail(s, ArgErrorView::RepeatedOption(o))
        } else {
            ScanView { provider: Some(value), ..s }
        },
        OptName::Page => if s.page is Some {
            fail(s, ArgErrorView::RepeatedOption(o))
        } else {
            match spec_parse_ranged_u32(value) {
                Some(n) => ScanView { page: Some(n), ..s },
                None => fail(s, ArgErrorView::InvalidValue(o, value)),
            }
        },
        OptName::PageSize => if s.page_size is Some {
            fail(s, ArgErrorView::RepeatedOption(o))
        } else {
            match spec_parse_ranged_u32(value) {
                Some(n) => ScanView { page_size: Some(n), ..s },
                None => fail(s, ArgErrorView::InvalidValue(o, value)),
            }
        },
        OptName::SearchQuery => if s.search_query is Some {
            fail(s, ArgErrorView::RepeatedOption(o))
        } else {
            ScanView { search_query: Some(value), ..s }
        },
        OptName::MinecraftVersion => if s.minecraft_version is Some {
            fail(s, ArgErrorView::RepeatedOption(o))
        } else {
            ScanView { minecraft_version: Some(value), ..s }
        },
        OptName::Directory => if s.directory is Some {
            fail(s, ArgErrorView::RepeatedOption(o))
        } else {
            ScanView { directory: Some(value), ..s }
        },
        OptName::Root => if s.root is Some {
            fail(s, ArgErrorView::RepeatedOption(o))
        } else {
            ScanView { root: Some(value), ..s }
        },
        OptName::Query => ScanView { query: s.query.push(value), ..s },
        OptName::Body => if s.body is Some {
            fail(s, ArgErrorView::RepeatedOption(o))
        } else {
            ScanView { body: Some(value), ..s }
        },
    }
}

/// The state after a positional argument: before the subcommand it names
/// the subcommand (or asks for help); after it, it fills the next
/// positional slot.
pub open spec fn take_positional(s: ScanView, tok: Seq<char>) -> ScanView {
    match s.sub {
        None => if s.after_separator {
            fail(s, ArgErrorView::UnexpectedArgument(tok))
        } else if tok == "help"@ {
            ScanView { stop: Some(StopView::Help), ..s }
        } else {
            match subcommand_named(tok) {
                Some(sub) => ScanView { sub: Some(sub), json_here: false, ..s },
                None => fail(s, ArgErrorView::UnknownSubcommand(tok)),
            }
        },
        Some(sub) => if s.positionals.len() < positional_names(sub).len() {
            ScanView { positionals: s.positionals.push(tok), ..s }
        } else {
            fail(s, ArgErrorView::UnexpectedArgument(tok))
        },
    }
}

/// The state after a long option `--name` or `--name=value`.
pub open spec fn take_long(s: ScanView, tok: Seq<char>) -> ScanView {
    let body = tok.subrange(2, tok.len() as int);
    let (name, value) = match spec_split_once(body, '=') {
        Some((n, v)) => (n, Some(v)),
        None => (body, None),
    };
    if name == "json"@ || name == "verbose"@ || name == "help"@ || (s.sub is None && name
        == "version"@) {
        fail(s, ArgErrorView::UnexpectedValue(tok))
    } else {
        match option_named(s.sub, name) {
            None => fail(s, ArgErrorView::UnexpectedArgument(tok)),
            Some(o) => match value {
                Some(v) => set_option(s, o, v),
                None => ScanView { pending: Some(o), ..s },
            },
        }
    }
}

/// The state after reading one more argument.
pub open spec fn step_spec(s: ScanView, tok: Seq<char>) -> ScanView {
    if s.stop is Some {
        s
    } else if s.pending is Some {
        if looks_like_flag(tok) {
            fail(s, ArgErrorView::MissingValue(s.pending->0))
        } else {
            set_option(s, s.pending->0, tok)
        }
    } else if s.after_separator {
        take_positional(s, tok)
    } else if tok == "--"@ {
        ScanView { after_separator: true, ..s }
    } else if tok == "--json"@ || tok == "--verbose"@ {
        if s.json_here {
            fail(s, ArgErrorView::RepeatedFlag(tok))
        } else {
            ScanView { json: true, json_here: true, ..s }
        }
    } else if tok == "--help"@ || tok == "-h"@ {
        ScanView { stop: Some(StopView::Help), ..s }
    } else if s.sub is None && (tok == "--version"@ || tok == "-V"@) {
        ScanView { stop: Some(StopView::Version), ..s }
    } else if tok.len() > 2 && tok[0] == '-' && tok[1] == '-' {
        take_long(s, tok)
    } else if looks_like_flag(tok) {
        fail(s, ArgErrorView::UnexpectedArgument(tok))
    } else {
        take_positional(s, tok)
    }
}

/// The state after reading all of `toks`.
pub open spec fn scan_spec(toks: Seq<Seq<char>>) -> ScanView
    decreases toks.len(),
{
    if toks.len() == 0 {
        initial_scan()
    } else {
        step_spec(scan_spec(toks.drop_last()), toks.last())
    }
}

/// A new scan.
fn new_scan() -> (s: Scan)
    ensures
        s@ == initial_scan(),
{
    let s = Scan {
        json: false,
        json_here: false,
        base_url: None,
        sub: None,
        pending: None,
        after_separator: false,
        positionals: Vec::new(),
        action: None,
        command: None,
        provider: None,
        page: None,
        page_size: None,
        search_query: None,
        minecraft_version: None,
        directory: None,
        root: None,
        query: Vec::new(),
        body: None,
        stop: None,
    };
    assert(s@.positionals =~= Seq::<Seq<char>>::empty());
    assert(s@.query =~= Seq::<Seq<char>>::empty());
    s
}

/// Records a value for option `o`.
fn set_option_exec(s: &mut Scan, o: OptName, value: String)
    requires
        old(s).stop is None,
    ensures
        final(s)@ == set_option(old(s)@, o, value@),
{
    s.pending = None;
    match o {
        OptName::BaseUrl => {
            if s.base_url.is_some() {
                s.stop = Some(Stop::Error(ArgError::RepeatedOption(o)));
            } else {
                s.base_url = Some(value);
            }
        },
        OptName::Action => {
            if s.action.is_some() {
                s.stop = Some(Stop::Error(ArgError::RepeatedOption(o)));
            } else if !(str_eq(value.as_str(), "start") || str_eq(value.as_str(), "stop") || str_eq(
                value.as_str(),
                "restart",
            ) || str_eq(value.as_str(), "kill")) {
                s.stop = Some(Stop::Error(ArgError::InvalidValue(o, value)));
            } else {
                s.action = Some(value);
            }
        },
        OptName::Command => {
            if s.command.is_some() {
                s.stop = Some(Stop::Error(ArgError::RepeatedOption(o)));
            } else {
                s.command = Some(value);
            }
        },
        OptName::Provider => {
            if s.provider.is_some() {
                s.stop = Some(Stop::Error(ArgError::RepeatedOption(o)));
            } else {
                s.provider = Some(value);
            }
        },
        OptName::Page => {
            if s.page.is_some() {
                s.stop = Some(Stop::Error(ArgError::RepeatedOption(o)));
            } else {
                match parse_ranged_u32(value.as_str()) {
                    Some(n) => {
                        s.page = Some(n);
                    },
                    None => {
                        s.stop = Some(Stop::Error(ArgError::InvalidValue(o, value)));
                    },
                }
            }
        },
        OptName::PageSize => {
            if s.page_size.is_some() {
                s.stop = Some(Stop::Error(ArgError::RepeatedOption(o)));
            } else {
                match parse_ranged_u32(value.as_str()) {
                    Some(n) => {
                        s.page_size = Some(n);
                    },
                    None => {
                        s.stop = Some(Stop::Error(ArgError::InvalidValue(o, value)));
                    },
                }
            }
        },
        OptName::SearchQuery => {
            if s.search_query.is_some() {
                s.stop = Some(Stop::Error(ArgError::RepeatedOption(o)));
            } else {
                s.search_query = Some(value);
            }
        },
        OptName::MinecraftVersion => {
            if s.minecraft_version.is_some() {
                s.stop = Some(Stop::Error(ArgError::RepeatedOption(o)));
            } else {
                s.minecraft_version = Some(value);
            }
        },
        OptName::Directory => {
            if s.directory.is_some() {
                s.stop = Some(Stop::Error(ArgError::RepeatedOption(o)));
            } else {
                s.directory = Some(value);
            }
        },
        OptName::Root => {
            if s.root.is_some() {
                s.stop = Some(Stop::Error(ArgError::RepeatedOption(o)));
            } else {
                s.root = Some(value);
            }
        },
        OptName::Query => {
            let ghost before = tv(s.query@);
            s.query.push(value);
            assert(tv(s.query@) =~= before.push(value@));
        },
        OptName::Body => {
            if s.body.is_some() {
                s.stop = Some(Stop::Error(ArgError::RepeatedOption(o)));
            } else {
                s.body = Some(value);
            }
        },
    }
}

/// Reads a positional argument.
fn take_positional_exec(s: &mut Scan, tok: String)
    requires
        old(s).stop is None,
    ensures
        final(s)@ == take_positional(old(s)@, tok@),
{
    match s.sub {
        None => {
            if s.after_separator {
                s.stop = Some(Stop::Error(ArgError::UnexpectedArgument(tok)));
            } else if str_eq(tok.as_str(), "help") {
                s.stop = Some(Stop::Help);
            } else {
                match find_subcommand(tok.as_str()) {
                    Some(sub) => {
                        s.sub = Some(sub);
                        s.json_here = false;
                    },
                    None => {
                        s.stop = Some(Stop::Error(ArgError::UnknownSubcommand(tok)));
                    },
                }
            }
        },
        Some(sub) => {
            if s.positionals.len() < positional_count(sub) {
                let ghost before = tv(s.positionals@);
                s.positionals.push(tok);
                assert(tv(s.positionals@) =~= before.push(tok@));
            } else {
                s.stop = Some(Stop::Error(ArgError::UnexpectedArgument(tok)));
            }
        },
    }
}

/// Reads a long option.
fn take_long_exec(s: &mut Scan, tok: String)
    requires
        old(s).stop is None,
        tok@.len() > 2,
    ensures
        final(s)@ == take_long(old(s)@, tok@),
{
    let n = tok.as_str().unicode_len();
    let body = tok.as_str().substring_char(2, n).to_owned();
    let (name, value) = match split_once(body.as_str(), '=') {
        Some((a, b)) => (a, Some(b)),
        None => (body, None),
    };
    if str_eq(name.as_str(), "json") || str_eq(name.as_str(), "verbose") || str_eq(
        name.as_str(),
        "help",
    ) || (s.sub.is_none() && str_eq(name.as_str(), "version")) {
        s.stop = Some(Stop::Error(ArgError::UnexpectedValue(tok)));
        return ;
    }
    match find_option(s.sub, name.as_str()) {
        None => {
            s.stop = Some(Stop::Error(ArgError::UnexpectedArgument(tok)));
        },
        Some(o) => match value {
            Some(v) => set_option_exec(s, o, v),
            None => {
                s.pending = Some(o);
            },
        },
    }
}

/// Reads one more argument.
pub fn step(s: &mut Scan, tok: String)
    ensures
        final(s)@ == step_spec(old(s)@, tok@),
{
    if s.stop.is_some() {
        return ;
    }
    let n = tok.as_str().unicode_len();
    let flag_like = n > 1 && tok.as_str().get_char(0) == '-';
    if let Some(o) = s.pending {
        if flag_like {
            s.stop = Some(Stop::Error(ArgError::MissingValue(o)));
        } else {
            set_option_exec(s, o, tok);
        }
        return ;
    }
    if s.after_separator {
        take_positional_exec(s, tok);
        return ;
    }
    if str_eq(tok.as_str(), "--") {
        s.after_separator = true;
    } else if str_eq(tok.as_str(), "--json") || str_eq(tok.as_str(), "--verbose") {
        if s.json_here {
            s.stop = Some(Stop::Error(ArgError::RepeatedFlag(tok)));
        } else {
            s.json = true;
            s.json_here = true;
        }
    } else if str_eq(tok.as_str(), "--help") || str_eq(tok.as_str(), "-h") {
        s.stop = Some(Stop::Help);
    } else if s.sub.is_none() && (str_eq(tok.as_str(), "--version") || str_eq(tok.as_str(), "-V")) {
        s.stop = Some(Stop::Version);
    } else if n > 2 && tok.as_str().get_char(0) == '-' && tok.as_str().get_char(1) == '-' {
        take_long_exec(s, tok);
    } else if flag_like {
        s.stop = Some(Stop::Error(ArgError::UnexpectedArgument(tok)));
    } else {
        take_positional_exec(s, tok);
    }
}

// ---------------------------------------------------------------------------
// Finishing
/// The outcome of a finished reading, short of building the command.
pub open spec fn finish_error(s: ScanView) -> Option<ArgErrorView> {
    match s.stop {
        Some(StopView::Error(e)) => Some(e),
        Some(_) => None,
        None => if s.pending is Some {
            Some(ArgErrorView::MissingValue(s.pending->0))
        } else if s.sub is None {
            Some(ArgErrorView::MissingSubcommand)
        } else if s.positionals.len() < positional_names(s.sub->0).len() {
            Some(ArgErrorView::MissingArgument(positional_names(s.sub->0)[s.positionals.len() as int]))
        } else if s.sub == Some(Subcommand::Power) && s.action is None {
            Some(ArgErrorView::MissingOption(OptName::Action))
        } else if s.sub == Some(Subcommand::Command) && s.command is None {
            Some(ArgErrorView::MissingOption(OptName::Command))
        } else if (s.sub == Some(Subcommand::Plugins) || s.sub == Some(Subcommand::Modpacks))
            && s.provider is None {
            Some(ArgErrorView::MissingOption(OptName::Provider))
        } else {
            None
        },
    }
}

/// A text or its default.
pub open spec fn or_default(v: Option<Seq<char>>, d: Seq<char>) -> Seq<char> {
    match v {
        Some(t) => t,
        None => d,
    }
}

/// Whether `c` is the command a complete reading describes: positional
/// arguments in order, options with their defaults (page 1, page size 20,
/// directory and root `/`).
pub open spec fn command_matches(c: Command, s: ScanView) -> bool {
    let p = s.positionals;
    match s.sub {
        Some(Subcommand::Login) => c is Login,
        Some(Subcommand::Account) => c is Account,
        Some(Subcommand::Servers) => c is Servers,
        Some(Subcommand::Operations) => c is Operations,
        Some(Subcommand::Update) => c is Update,
        Some(Subcommand::Server) => c matches Command::Server(a) && a.server_id@ == p[0],
        Some(Subcommand::Resources) => c matches Command::Resources(a) && a.server_id@ == p[0],
        Some(Subcommand::Activity) => c matches Command::Activity(a) && a.server_id@ == p[0],
        Some(Subcommand::Backups) => c matches Command::Backups(a) && a.server_id@ == p[0],
        Some(Subcommand::Databases) => c matches Command::Databases(a) && a.server_id@ == p[0],
        Some(Subcommand::Allocations) => c matches Command::Allocations(a) && a.server_id@ == p[0],
        Some(Subcommand::Schedules) => c matches Command::Schedules(a) && a.server_id@ == p[0],
        Some(Subcommand::Players) => c matches Command::Players(a) && a.server_id@ == p[0],
        Some(Subcommand::Power) => c matches Command::Power(a) && a.server_id@ == p[0] && Some(
            a.action@,
        ) == s.action,
        Some(Subcommand::Command) => c matches Command::Command(a) && a.server_id@ == p[0] && Some(
            a.command@,
        ) == s.command,
        Some(Subcommand::Plugins) => c matches Command::Plugins(a) && a.server_id@ == p[0] && Some(
            a.provider@,
        ) == s.provider && a.page == (match s.page {
            Some(n) => n,
            None => 1,
        }) && a.page_size == (match s.page_size {
            Some(n) => n,
            None => 20,
        }) && ov(a.search_query) == s.search_query && ov(a.minecraft_version)
            == s.minecraft_version,
        Some(Subcommand::Modpacks) => c matches Command::Modpacks(a) && a.server_id@ == p[0] && Some(
            a.provider@,
        ) == s.provider && a.page == (match s.page {
            Some(n) => n,
            None => 1,
        }) && a.page_size == (match s.page_size {
            Some(n) => n,
            None => 20,
        }) && ov(a.search_query) == s.search_query,
        Some(Subcommand::Files) => c matches Command::Files(a) && a.server_id@ == p[0]
            && a.directory@ == or_default(s.directory, "/"@),
        Some(Subcommand::FileSearch) => c matches Command::FileSearch(a) && a.server_id@ == p[0]
            && a.query@ == p[1] && a.root@ == or_default(s.root, "/"@),
        Some(Subcommand::File) => c matches Command::File(a) && a.server_id@ == p[0] && a.path@
            == p[1],
        Some(Subcommand::ApiCall) => c matches Command::ApiCall(a) && a.method@ == p[0] && a.path@
            == p[1] && tv(a.query@) == s.query && ov(a.body) == s.body,
        None => false,
    }
}

/// The arguments after the program name.
pub open spec fn arguments_of(args: Seq<String>) -> Seq<Seq<char>> {
    if args.len() > 0 {
        tv(args).drop_first()
    } else {
        Seq::empty()
    }
}

/// A text or its default.
fn text_or(v: Option<String>, d: &str) -> (r: String)
    ensures
        r@ == or_default(ov(v), d@),
{
    match v {
        Some(t) => t,
        None => d.to_owned(),
    }
}

/// Takes the first positional argument.
fn first_positional(p: &mut Vec<String>) -> (r: String)
    requires
        old(p)@.len() >= 1,
    ensures
        r@ == tv(old(p)@)[0],
        final(p)@.len() == old(p)@.len() - 1,
        tv(final(p)@) == tv(old(p)@).drop_first(),
{
    let r = p.remove(0);
    assert(tv(p@) =~= tv(old(p)@).drop_first());
    r
}

/// The command a complete reading describes.
fn build_command(s: Scan) -> (c: Command)
    requires
        s@.stop is None,
        finish_error(s@) is None,
    ensures
        command_matches(c, s@),
{
    let ghost v = s@;
    let sub = match s.sub {
        Some(sub) => sub,
        None => {
            proof {
                assert(false);
            }
            Subcommand::Login
        },
    };
    let mut p = s.positionals;
    match sub {
        Subcommand::Login => Command::Login,
        Subcommand::Account => Command::Account,
        Subcommand::Servers => Command::Servers,
        Subcommand::Operations => Command::Operations,
        Subcommand::Update => Command::Update,
        Subcommand::Server => Command::Server(ServerId { server_id: first_positional(&mut p) }),
        Subcommand::Resources => Command::Resources(ServerId { server_id: first_positional(&mut p) }),
        Subcommand::Activity => Command::Activity(ServerId { server_id: first_positional(&mut p) }),
        Subcommand::Backups => Command::Backups(ServerId { server_id: first_positional(&mut p) }),
        Subcommand::Databases => Command::Databases(ServerId { server_id: first_positional(&mut p) }),
        Subcommand::Allocations => Command::Allocations(
            ServerId { server_id: first_positional(&mut p) },
        ),
        Subcommand::Schedules => Command::Schedules(ServerId { server_id: first_positional(&mut p) }),
        Subcommand::Players => Command::Players(ServerId { server_id: first_positional(&mut p) }),
        Subcommand::Power => {
            let server_id = first_positional(&mut p);
            let action = text_or(s.action, "");
            Command::Power(PowerArgs { server_id, action })
        },
        Subcommand::Command => {
            let server_id = first_positional(&mut p);
            let command = text_or(s.command, "");
            Command::Command(CommandArgs { server_id, command })
        },
        Subcommand::Plugins => {
            let server_id = first_positional(&mut p);
            let provider = text_or(s.provider, "");
            let page = match s.page {
                Some(n) => n,
                None => 1,
            };
            let page_size = match s.page_size {
                Some(n) => n,
                None => 20,
            };
            Command::Plugins(
                PluginArgs {
                    server_id,
                    provider,
                    page,
                    page_size,
                    search_query: s.search_query,
                    minecraft_version: s.minecraft_version,
                },
            )
        },
        Subcommand::Modpacks => {
            let server_id = first_positional(&mut p);
            let provider = text_or(s.provider, "");
            let page = match s.page {
                Some(n) => n,
                None => 1,
            };
            let page_size = match s.page_size {
                Some(n) => n,
                None => 20,
            };
            Command::Modpacks(
                ModpackArgs { server_id, provider, page, page_size, search_query: s.search_query },
            )
        },
        Subcommand::Files => {
            let server_id = first_positional(&mut p);
            let directory = text_or(s.directory, "/");
            Command::Files(FilesArgs { server_id, directory })
        },
        Subcommand::FileSearch => {
            let server_id = first_positional(&mut p);
            let query = first_positional(&mut p);
            let root = text_or(s.root, "/");
            Command::FileSearch(FileSearchArgs { server_id, query, root })
        },
        Subcommand::File => {
            let server_id = first_positional(&mut p);
            let path = first_positional(&mut p);
            Command::File(FileArgs { server_id, path })
        },
        Subcommand::ApiCall => {
            let method = first_positional(&mut p);
            let path = first_positional(&mut p);
            Command::ApiCall(ApiCallArgs { method, path, query: s.query, body: s.body })
        },
    }
}

/// What a command line means. `args` starts with the program name, as
/// `std::env::args` gives it; `default_base_url` is the base URL used
/// without `--base-url`.
pub fn parse_args(args: Vec<String>, default_base_url: &str) -> (r: Result<Parsed, ArgError>)
    ensures
        ({
            let s = scan_spec(arguments_of(args@));
            match s.stop {
                Some(StopView::Help) => r matches Ok(Parsed::Help),
                Some(StopView::Version) => r matches Ok(Parsed::Version),
                _ => match finish_error(s) {
                    Some(e) => r matches Err(err) && err@ == e,
                    None => r matches Ok(Parsed::Run(cli)) && cli.json == s.json && cli.base_url@
                        == or_default(s.base_url, default_base_url@) && command_matches(
                        cli.command,
                        s,
                    ),
                },
            }
        }),
        // `--json` and `--verbose` are one global flag.
        r matches Ok(Parsed::Run(cli)) ==> (cli.json <==> json_flag_given(arguments_of(args@))),
{
    let ghost toks = arguments_of(args@);
    let mut scan = new_scan();
    let mut args = args;
    if args.len() > 0 {
        args.remove(0);
    }
    assert(tv(args@) =~= toks);
    let mut i: usize = 0;
    let n = args.len();
    while i < n
        invariant
            n == toks.len(),
            n == args@.len(),
            tv(args@) == toks,
            i <= n,
            scan@ == scan_spec(toks.subrange(0, i as int)),
        decreases n - i,
    {
        let tok = args[i].clone();
        assert(tok@ == toks[i as int]);
        let ghost prefix = toks.subrange(0, i + 1);
        assert(prefix.drop_last() =~= toks.subrange(0, i as int));
        step(&mut scan, tok);
        i = i + 1;
    }
    assert(toks.subrange(0, n as int) =~= toks);
    proof {
        if scan@.stop is None {
            lemma_json_flag_is_global(toks);
        }
    }
    match scan.stop {
        Some(Stop::Help) => {
            return Ok(Parsed::Help);
        },
        Some(Stop::Version) => {
            return Ok(Parsed::Version);
        },
        Some(Stop::Error(e)) => {
            return Err(e);
        },
        None => {},
    }
    if let Some(o) = scan.pending {
        return Err(ArgError::MissingValue(o));
    }
    let sub = match scan.sub {
        Some(sub) => sub,
        None => {
            return Err(ArgError::MissingSubcommand);
        },
    };
    let count = positional_count(sub);
    if scan.positionals.len() < count {
        let names = positional_name_texts(sub);
        let missing = names[scan.positionals.len()].clone();
        return Err(ArgError::MissingArgument(missing));
    }
    if sub == Subcommand::Power && scan.action.is_none() {
        return Err(ArgError::MissingOption(OptName::Action));
    }
    if sub == Subcommand::Command && scan.command.is_none() {
        return Err(ArgError::MissingOption(OptName::Command));
    }
    if (sub == Subcommand::Plugins || sub == Subcommand::Modpacks) && scan.provider.is_none() {
        return Err(ArgError::MissingOption(OptName::Provider));
    }
    let json = scan.json;
    let base_url = match &scan.base_url {
        Some(b) => b.clone(),
        None => default_base_url.to_owned(),
    };
    let command = build_command(scan);
    Ok(Parsed::Run(Cli { base_url, json, command }))
}

/// The names of a subcommand's positional arguments.
fn positional_name_texts(sub: Subcommand) -> (names: Vec<String>)
    ensures
        tv(names@) == positional_names(sub),
{
    let mut names: Vec<String> = Vec::new();
    match sub {
        Subcommand::Login | Subcommand::Account | Subcommand::Servers | Subcommand::Operations
        | Subcommand::Update => {},
        Subcommand::FileSearch => {
            names.push("server_id".to_owned());
            names.push("query".to_owned());
        },
        Subcommand::File => {
            names.push("server_id".to_owned());
            names.push("path".to_owned());
        },
        Subcommand::ApiCall => {
            names.push("method".to_owned());
            names.push("path".to_owned());
        },
        _ => {
            names.push("server_id".to_owned());
        },
    }
    assert(tv(names@) =~= positional_names(sub));
    names
}

// ---------------------------------------------------------------------------
// Laws of the grammar
/// Whether an argument is `--json` or its alias `--verbose`.
pub open spec fn is_json_flag(tok: Seq<char>) -> bool {
    tok == "--json"@ || tok == "--verbose"@
}

/// Whether `--json` or `--verbose` comes before any `--` separator.
pub open spec fn json_flag_given(toks: Seq<Seq<char>>) -> bool {
    exists|i: int|
        0 <= i < toks.len() && is_json_flag(#[trigger] toks[i]) && forall|j: int|
            0 <= j < i ==> toks[j] != "--"@
}

proof fn lemma_step_keeps_stop(s: ScanView, tok: Seq<char>)
    requires
        s.stop is Some,
    ensures
        step_spec(s, tok) == s,
{
}

/// A global flag, wherever it stands before a `--` separator, turns on
/// compact JSON output; `--verbose` is the same flag as `--json`. After
/// `--` every argument is positional.
pub proof fn lemma_json_flag_is_global(toks: Seq<Seq<char>>)
    requires
        scan_spec(toks).stop is None,
    ensures
        scan_spec(toks).json <==> json_flag_given(toks),
        scan_spec(toks).after_separator <==> toks.contains("--"@),
    decreases toks.len(),
{
    reveal_strlit("--");
    reveal_strlit("--json");
    reveal_strlit("--verbose");
    if toks.len() == 0 {
        assert(!toks.contains("--"@));
    } else {
        let p = toks.drop_last();
        let t = toks.last();
        let s = scan_spec(p);
        if s.stop is Some {
            lemma_step_keeps_stop(s, t);
        }
        lemma_json_flag_is_global(p);
        assert(toks =~= p.push(t));
        let r = scan_spec(toks);
        assert(r == step_spec(s, t));
        // what the last argument does to the two flags
        let sep = t == "--"@;
        let flag = is_json_flag(t);
        if s.pending is Some {
            assert(looks_like_flag("--"@));
            assert(looks_like_flag("--json"@));
            assert(looks_like_flag("--verbose"@));
            assert(!sep && !flag);
            assert(r.json == s.json && r.after_separator == s.after_separator);
        } else if s.after_separator {
            assert(r.json == s.json && r.after_separator);
        } else if sep {
            assert(r.json == s.json && r.after_separator);
        } else if flag {
            assert(r.json && !r.after_separator);
        } else {
            assert(r.json == s.json && r.after_separator == s.after_separator);
        }
        // the flags of the arguments
        assert(toks.contains("--"@) <==> (p.contains("--"@) || sep)) by {
            if p.contains("--"@) {
                let k = choose|k: int| 0 <= k < p.len() && p[k] == "--"@;
                assert(toks[k] == "--"@);
            }
            if sep {
                assert(toks[p.len() as int] == "--"@);
            }
            if toks.contains("--"@) {
                let k = choose|k: int| 0 <= k < toks.len() && toks[k] == "--"@;
                if k < p.len() {
                    assert(p[k] == "--"@);
                }
            }
        }
        assert(json_flag_given(toks) <==> (json_flag_given(p) || (flag && !p.contains(
            "--"@,
        )))) by {
            if json_flag_given(p) {
                let i = choose|i: int|
                    0 <= i < p.len() && is_json_flag(#[trigger] p[i]) && forall|j: int|
                        0 <= j < i ==> p[j] != "--"@;
                assert(toks[i] == p[i]);
                assert forall|j: int| 0 <= j < i implies toks[j] != "--"@ by {
                    assert(toks[j] == p[j]);
                }
            }
            if flag && !p.contains("--"@) {
                let i = p.len() as int;
                assert(is_json_flag(toks[i]));
                assert forall|j: int| 0 <= j < i implies toks[j] != "--"@ by {
                    assert(toks[j] == p[j]);
                    if toks[j] == "--"@ {
                        assert(p.contains("--"@));
                    }
                }
            }
            if json_flag_given(toks) {
                let i = choose|i: int|
                    0 <= i < toks.len() && is_json_flag(#[trigger] toks[i]) && forall|j: int|
                        0 <= j < i ==> toks[j] != "--"@;
                if i < p.len() {
                    assert(p[i] == toks[i]);
                    assert forall|j: int| 0 <= j < i implies p[j] != "--"@ by {
                        assert(toks[j] == p[j]);
                    }
                } else {
                    assert forall|k: int| 0 <= k < p.len() implies p[k] != "--"@ by {
                        assert(toks[k] == p[k]);
                    }
                }
            }
        }
    }
}

/// Setting `--action` accepts exactly the four power signals: `start`,
/// `stop`, `restart` and `kill` are taken as the action, and any other value
/// is refused as invalid for `--action`.
pub proof fn lemma_power_actions(s: ScanView, v: Seq<char>)
    requires
        s.action is None,
    ensures
        (v == "start"@ || v == "stop"@ || v == "restart"@ || v == "kill"@) ==> set_option(
            s,
            OptName::Action,
            v,
        ) == (ScanView { pending: None, action: Some(v), ..s }),
        !(v == "start"@ || v == "stop"@ || v == "restart"@ || v == "kill"@) ==> set_option(
            s,
            OptName::Action,
            v,
        ) == fail(ScanView { pending: None, ..s }, ArgErrorView::InvalidValue(OptName::Action, v)),
{
}

/// `pb power ID --action V` runs `power` on `ID` with action `V` when `V`
/// is `start`, `stop`, `restart` or `kill`, and is refused as an invalid
/// `--action` value otherwise.
pub proof fn lemma_power_command_line(id: Seq<char>, v: Seq<char>)
    requires
        !looks_like_flag(id),
        !looks_like_flag(v),
    ensures
        ({
            let s = scan_spec(seq!["power"@, id, "--action"@, v]);
            &&& (v == "start"@ || v == "stop"@ || v == "restart"@ || v == "kill"@) ==> {
                &&& s.stop is None
                &&& finish_error(s) is None
                &&& s.sub == Some(Subcommand::Power)
                &&& s.positionals == seq![id]
                &&& s.action == Some(v)
            }
            &&& !(v == "start"@ || v == "stop"@ || v == "restart"@ || v == "kill"@) ==> finish_error(s)
                == Some(ArgErrorView::InvalidValue(OptName::Action, v))
        }),
{
    reveal_strlit("power");
    reveal_strlit("--action");
    reveal_strlit("action");
    reveal_strlit("--");
    reveal_strlit("--json");
    reveal_strlit("--verbose");
    reveal_strlit("--help");
    reveal_strlit("-h");
    reveal_strlit("--version");
    reveal_strlit("-V");
    reveal_strlit("help");
    reveal_strlit("json");
    reveal_strlit("verbose");
    reveal_strlit("version");
    reveal_strlit("login");
    reveal_strlit("account");
    reveal_strlit("servers");
    reveal_strlit("server");
    let t1 = seq!["power"@];
    let t2 = seq!["power"@, id];
    let t3 = seq!["power"@, id, "--action"@];
    let t4 = seq!["power"@, id, "--action"@, v];
    assert(t4.drop_last() =~= t3 && t4.last() == v);
    assert(t3.drop_last() =~= t2 && t3.last() == "--action"@);
    assert(t2.drop_last() =~= t1 && t2.last() == id);
    assert(t1.drop_last() =~= Seq::<Seq<char>>::empty() && t1.last() == "power"@);
    let s0 = initial_scan();
    assert(scan_spec(Seq::<Seq<char>>::empty()) == s0);
    assert("power"@ != "login"@ && "power"@ != "server"@);
    assert(subcommand_named("power"@) == Some(Subcommand::Power));
    let s1 = step_spec(s0, "power"@);
    assert(s1 == ScanView { sub: Some(Subcommand::Power), json_here: false, ..s0 });
    assert(scan_spec(t1) == s1);
    let s2 = step_spec(s1, id);
    assert(s2 == ScanView { positionals: seq![id], ..s1 }) by {
        assert(seq![id] =~= s1.positionals.push(id));
    }
    assert(scan_spec(t2) == s2);
    let body = "--action"@.subrange(2, 8);
    assert(body =~= "action"@);
    crate::text::lemma_first_index_of(body, '=', 6);
    assert(spec_split_once(body, '=') is None);
    let s3 = step_spec(s2, "--action"@);
    assert(s3 == ScanView { pending: Some(OptName::Action), ..s2 });
    assert(scan_spec(t3) == s3);
    let s4 = step_spec(s3, v);
    assert(s4 == set_option(s3, OptName::Action, v));
    assert(scan_spec(t4) == s4);
    lemma_power_actions(s3, v);
}

/// Each subcommand is named as the command line spells it.
pub proof fn lemma_subcommand_names()
    ensures
        subcommand_named("login"@) == Some(Subcommand::Login),
        subcommand_named("account"@) == Some(Subcommand::Account),
        subcommand_named("servers"@) == Some(Subcommand::Servers),
        subcommand_named("server"@) == Some(Subcommand::Server),
        subcommand_named("power"@) == Some(Subcommand::Power),
        subcommand_named("command"@) == Some(Subcommand::Command),
        subcommand_named("resources"@) == Some(Subcommand::Resources),
        subcommand_named("activity"@) == Some(Subcommand::Activity),
        subcommand_named("backups"@) == Some(Subcommand::Backups),
        subcommand_named("databases"@) == Some(Subcommand::Databases),
        subcommand_named("allocations"@) == Some(Subcommand::Allocations),
        subcommand_named("schedules"@) == Some(Subcommand::Schedules),
        subcommand_named("players"@) == Some(Subcommand::Players),
        subcommand_named("plugins"@) == Some(Subcommand::Plugins),
        subcommand_named("modpacks"@) == Some(Subcommand::Modpacks),
        subcommand_named("files"@) == Some(Subcommand::Files),
        subcommand_named("api-call"@) == Some(Subcommand::ApiCall),
        subcommand_named("operations"@) == Some(Subcommand::Operations),
        subcommand_named("file-search"@) == Some(Subcommand::FileSearch),
        subcommand_named("file"@) == Some(Subcommand::File),
        subcommand_named("update"@) == Some(Subcommand::Update),
{
    reveal_strlit("login");
    reveal_strlit("account");
    reveal_strlit("servers");
    reveal_strlit("server");
    reveal_strlit("power");
    reveal_strlit("command");
    reveal_strlit("resources");
    reveal_strlit("activity");
    reveal_strlit("backups");
    reveal_strlit("databases");
    reveal_strlit("allocations");
    reveal_strlit("schedules");
    reveal_strlit("players");
    reveal_strlit("plugins");
    reveal_strlit("modpacks");
    reveal_strlit("files");
    reveal_strlit("api-call");
    reveal_strlit("operations");
    reveal_strlit("file-search");
    reveal_strlit("file");
    reveal_strlit("update");
    assert("account"@.len() != "login"@.len());
    assert("servers"@.len() != "login"@.len());
    assert("servers"@[0] != "account"@[0]);
    assert("server"@.len() != "login"@.len());
    assert("server"@.len() != "account"@.len());
    assert("server"@.len() != "servers"@.len());
    assert("power"@[0] != "login"@[0]);
    assert("power"@.len() != "account"@.len());
    assert("power"@.len() != "servers"@.len());
    assert("power"@.len() != "server"@.len());
    assert("command"@.len() != "login"@.len());
    assert("command"@[0] != "account"@[0]);
    assert("command"@[0] != "servers"@[0]);
    assert("command"@.len() != "server"@.len());
    assert("command"@.len() != "power"@.len());
    assert("resources"@.len() != "login"@.len());
    assert("resources"@.len() != "account"@.len());
    assert("resources"@.len() != "servers"@.len());
    assert("resources"@.len() != "server"@.len());
    assert("resources"@.len() != "power"@.len());
    assert("resources"@.len() != "command"@.len());
    assert("activity"@.len() != "login"@.len());
    assert("activity"@.len() != "account"@.len());
    assert("activity"@.len() != "servers"@.len());
    assert("activity"@.len() != "server"@.len());
    assert("activity"@.len() != "power"@.len());
    assert("activity"@.len() != "command"@.len());
    assert("activity"@.len() != "resources"@.len());
    assert("backups"@.len() != "login"@.len());
    assert("backups"@[0] != "account"@[0]);
    assert("backups"@[0] != "servers"@[0]);
    assert("backups"@.len() != "server"@.len());
    assert("backups"@.len() != "power"@.len());
    assert("backups"@[0] != "command"@[0]);
    assert("backups"@.len() != "resources"@.len());
    assert("backups"@.len() != "activity"@.len());
    assert("databases"@.len() != "login"@.len());
    assert("databases"@.len() != "account"@.len());
    assert("databases"@.len() != "servers"@.len());
    assert("databases"@.len() != "server"@.len());
    assert("databases"@.len() != "power"@.len());
    assert("databases"@.len() != "command"@.len());
    assert("databases"@[0] != "resources"@[0]);
    assert("databases"@.len() != "activity"@.len());
    assert("databases"@.len() != "backups"@.len());
    assert("allocations"@.len() != "login"@.len());
    assert("allocations"@.len() != "account"@.len());
    assert("allocations"@.len() != "servers"@.len());
    assert("allocations"@.len() != "server"@.len());
    assert("allocations"@.len() != "power"@.len());
    assert("allocations"@.len() != "command"@.len());
    assert("allocations"@.len() != "resources"@.len());
    assert("allocations"@.len() != "activity"@.len());
    assert("allocations"@.len() != "backups"@.len());
    assert("allocations"@.len() != "databases"@.len());
    assert("schedules"@.len() != "login"@.len());
    assert("schedules"@.len() != "account"@.len());
    assert("schedules"@.len() != "servers"@.len());
    assert("schedules"@.len() != "server"@.len());
    assert("schedules"@.len() != "power"@.len());
    assert("schedules"@.len() != "command"@.len());
    assert("schedules"@[0] != "resources"@[0]);
    assert("schedules"@.len() != "activity"@.len());
    assert("schedules"@.len() != "backups"@.len());
    assert("schedules"@[0] != "databases"@[0]);
    assert("schedules"@.len() != "allocations"@.len());
    assert("players"@.len() != "login"@.len());
    assert("players"@[0] != "account"@[0]);
    assert("players"@[0] != "servers"@[0]);
    assert("players"@.len() != "server"@.len());
    assert("players"@.len() != "power"@.len());
    assert("players"@[0] != "command"@[0]);
    assert("players"@.len() != "resources"@.len());
    assert("players"@.len() != "activity"@.len());
    assert("players"@[0] != "backups"@[0]);
    assert("players"@.len() != "databases"@.len());
    assert("players"@.len() != "allocations"@.len());
    assert("players"@.len() != "schedules"@.len());
    assert("plugins"@.len() != "login"@.len());
    assert("plugins"@[0] != "account"@[0]);
    assert("plugins"@[0] != "servers"@[0]);
    assert("plugins"@.len() != "server"@.len());
    assert("plugins"@.len() != "power"@.len());
    assert("plugins"@[0] != "command"@[0]);
    assert("plugins"@.len() != "resources"@.len());
    assert("plugins"@.len() != "activity"@.len());
    assert("plugins"@[0] != "backups"@[0]);
    assert("plugins"@.len() != "databases"@.len());
    assert("plugins"@.len() != "allocations"@.len());
    assert("plugins"@.len() != "schedules"@.len());
    assert("plugins"@[2] != "players"@[2]);
    assert("modpacks"@.len() != "login"@.len());
    assert("modpacks"@.len() != "account"@.len());
    assert("modpacks"@.len() != "servers"@.len());
    assert("modpacks"@.len() != "server"@.len());
    assert("modpacks"@.len() != "power"@.len());
    assert("modpacks"@.len() != "command"@.len());
    assert("modpacks"@.len() != "resources"@.len());
    assert("modpacks"@[0] != "activity"@[0]);
    assert("modpacks"@.len() != "backups"@.len());
    assert("modpacks"@.len() != "databases"@.len());
    assert("modpacks"@.len() != "allocations"@.len());
    assert("modpacks"@.len() != "schedules"@.len());
    assert("modpacks"@.len() != "players"@.len());
    assert("modpacks"@.len() != "plugins"@.len());
    assert("files"@[0] != "login"@[0]);
    assert("files"@.len() != "account"@.len());
    assert("files"@.len() != "servers"@.len());
    assert("files"@.len() != "server"@.len());
    assert("files"@[0] != "power"@[0]);
    assert("files"@.len() != "command"@.len());
    assert("files"@.len() != "resources"@.len());
    assert("files"@.len() != "activity"@.len());
    assert("files"@.len() != "backups"@.len());
    assert("files"@.len() != "databases"@.len());
    assert("files"@.len() != "allocations"@.len());
    assert("files"@.len() != "schedules"@.len());
    assert("files"@.len() != "players"@.len());
    assert("files"@.len() != "plugins"@.len());
    assert("files"@.len() != "modpacks"@.len());
    assert("api-call"@.len() != "login"@.len());
    assert("api-call"@.len() != "account"@.len());
    assert("api-call"@.len() != "servers"@.len());
    assert("api-call"@.len() != "server"@.len());
    assert("api-call"@.len() != "power"@.len());
    assert("api-call"@.len() != "command"@.len());
    assert("api-call"@.len() != "resources"@.len());
    assert("api-call"@[1] != "activity"@[1]);
    assert("api-call"@.len() != "backups"@.len());
    assert("api-call"@.len() != "databases"@.len());
    assert("api-call"@.len() != "allocations"@.len());
    assert("api-call"@.len() != "schedules"@.len());
    assert("api-call"@.len() != "players"@.len());
    assert("api-call"@.len() != "plugins"@.len());
    assert("api-call"@[0] != "modpacks"@[0]);
    assert("api-call"@.len() != "files"@.len());
    assert("operations"@.len() != "login"@.len());
    assert("operations"@.len() != "account"@.len());
    assert("operations"@.len() != "servers"@.len());
    assert("operations"@.len() != "server"@.len());
    assert("operations"@.len() != "power"@.len());
    assert("operations"@.len() != "command"@.len());
    assert("operations"@.len() != "resources"@.len());
    assert("operations"@.len() != "activity"@.len());
    assert("operations"@.len() != "backups"@.len());
    assert("operations"@.len() != "databases"@.len());
    assert("operations"@.len() != "allocations"@.len());
    assert("operations"@.len() != "schedules"@.len());
    assert("operations"@.len() != "players"@.len());
    assert("operations"@.len() != "plugins"@.len());
    assert("operations"@.len() != "modpacks"@.len());
    assert("operations"@.len() != "files"@.len());
    assert("operations"@.len() != "api-call"@.len());
    assert("file-search"@.len() != "login"@.len());
    assert("file-search"@.len() != "account"@.len());
    assert("file-search"@.len() != "servers"@.len());
    assert("file-search"@.len() != "server"@.len());
    assert("file-search"@.len() != "power"@.len());
    assert("file-search"@.len() != "command"@.len());
    assert("file-search"@.len() != "resources"@.len());
    assert("file-search"@.len() != "activity"@.len());
    assert("file-search"@.len() != "backups"@.len());
    assert("file-search"@.len() != "databases"@.len());
    assert("file-search"@[0] != "allocations"@[0]);
    assert("file-search"@.len() != "schedules"@.len());
    assert("file-search"@.len() != "players"@.len());
    assert("file-search"@.len() != "plugins"@.len());
    assert("file-search"@.len() != "modpacks"@.len());
    assert("file-search"@.len() != "files"@.len());
    assert("file-search"@.len() != "api-call"@.len());
    assert("file-search"@.len() != "operations"@.len());
    assert("file"@.len() != "login"@.len());
    assert("file"@.len() != "account"@.len());
    assert("file"@.len() != "servers"@.len());
    assert("file"@.len() != "server"@.len());
    assert("file"@.len() != "power"@.len());
    assert("file"@.len() != "command"@.len());
    assert("file"@.len() != "resources"@.len());
    assert("file"@.len() != "activity"@.len());
    assert("file"@.len() != "backups"@.len());
    assert("file"@.len() != "databases"@.len());
    assert("file"@.len() != "allocations"@.len());
    assert("file"@.len() != "schedules"@.len());
    assert("file"@.len() != "players"@.len());
    assert("file"@.len() != "plugins"@.len());
    assert("file"@.len() != "modpacks"@.len());
    assert("file"@.len() != "files"@.len());
    assert("file"@.len() != "api-call"@.len());
    assert("file"@.len() != "operations"@.len());
    assert("file"@.len() != "file-search"@.len());
    assert("update"@.len() != "login"@.len());
    assert("update"@.len() != "account"@.len());
    assert("update"@.len() != "servers"@.len());
    assert("update"@[0] != "server"@[0]);
    assert("update"@.len() != "power"@.len());
    assert("update"@.len() != "command"@.len());
    assert("update"@.len() != "resources"@.len());
    assert("update"@.len() != "activity"@.len());
    assert("update"@.len() != "backups"@.len());
    assert("update"@.len() != "databases"@.len());
    assert("update"@.len() != "allocations"@.len());
    assert("update"@.len() != "schedules"@.len());
    assert("update"@.len() != "players"@.len());
    assert("update"@.len() != "plugins"@.len());
    assert("update"@.len() != "modpacks"@.len());
    assert("update"@.len() != "files"@.len());
    assert("update"@.len() != "api-call"@.len());
    assert("update"@.len() != "operations"@.len());
    assert("update"@.len() != "file-search"@.len());
    assert("update"@.len() != "file"@.len());
}

/// The options each subcommand takes, by their long names: `--base-url`
/// before the subcommand; `--action` for `power`; `--command` for
/// `command`; `--provider`, `--page`, `--page-size` and `--search-query`
/// for `plugins` and `modpacks`, and `--minecraft-version` for `plugins`
/// only; `--directory` for `files`; `--root` for `file-search`; `--query`
/// and `--body` for `api-call`.
pub proof fn lemma_option_names()
    ensures
        option_named(None, "base-url"@) == Some(OptName::BaseUrl),
        option_named(Some(Subcommand::Power), "action"@) == Some(OptName::Action),
        option_named(Some(Subcommand::Command), "command"@) == Some(OptName::Command),
        option_named(Some(Subcommand::Plugins), "provider"@) == Some(OptName::Provider),
        option_named(Some(Subcommand::Plugins), "page"@) == Some(OptName::Page),
        option_named(Some(Subcommand::Plugins), "page-size"@) == Some(OptName::PageSize),
        option_named(Some(Subcommand::Plugins), "search-query"@) == Some(OptName::SearchQuery),
        option_named(Some(Subcommand::Plugins), "minecraft-version"@) == Some(
            OptName::MinecraftVersion,
        ),
        option_named(Some(Subcommand::Modpacks), "provider"@) == Some(OptName::Provider),
        option_named(Some(Subcommand::Modpacks), "page"@) == Some(OptName::Page),
        option_named(Some(Subcommand::Modpacks), "page-size"@) == Some(OptName::PageSize),
        option_named(Some(Subcommand::Modpacks), "search-query"@) == Some(OptName::SearchQuery),
        option_named(Some(Subcommand::Modpacks), "minecraft-version"@) is None,
        option_named(Some(Subcommand::Files), "directory"@) == Some(OptName::Directory),
        option_named(Some(Subcommand::FileSearch), "root"@) == Some(OptName::Root),
        option_named(Some(Subcommand::ApiCall), "query"@) == Some(OptName::Query),
        option_named(Some(Subcommand::ApiCall), "body"@) == Some(OptName::Body),
        option_named(Some(Subcommand::Power), "base-url"@) is None,
{
    reveal_strlit("base-url");
    reveal_strlit("action");
    reveal_strlit("command");
    reveal_strlit("provider");
    reveal_strlit("page");
    reveal_strlit("page-size");
    reveal_strlit("search-query");
    reveal_strlit("minecraft-version");
    reveal_strlit("directory");
    reveal_strlit("root");
    reveal_strlit("query");
    reveal_strlit("body");
    assert("page"@.len() != "provider"@.len());
    assert("page-size"@.len() != "provider"@.len());
    assert("page-size"@.len() != "page"@.len());
    assert("search-query"@.len() != "provider"@.len());
    assert("search-query"@.len() != "page"@.len());
    assert("search-query"@.len() != "page-size"@.len());
    assert("minecraft-version"@.len() != "provider"@.len());
    assert("minecraft-version"@.len() != "page"@.len());
    assert("minecraft-version"@.len() != "page-size"@.len());
    assert("minecraft-version"@.len() != "search-query"@.len());
    assert("page"@.len() != "provider"@.len());
    assert("page-size"@.len() != "provider"@.len());
    assert("page-size"@.len() != "page"@.len());
    assert("search-query"@.len() != "provider"@.len());
    assert("search-query"@.len() != "page"@.len());
    assert("search-query"@.len() != "page-size"@.len());
    assert("minecraft-version"@.len() != "provider"@.len());
    assert("minecraft-version"@.len() != "page"@.len());
    assert("minecraft-version"@.len() != "page-size"@.len());
    assert("minecraft-version"@.len() != "search-query"@.len());
    assert("body"@.len() != "query"@.len());
    assert("base-url"@.len() != "action"@.len());
}

/// The positional arguments each subcommand takes, in order.
pub proof fn lemma_positional_names()
    ensures
        positional_names(Subcommand::Login).len() == 0,
        positional_names(Subcommand::Account).len() == 0,
        positional_names(Subcommand::Servers).len() == 0,
        positional_names(Subcommand::Operations).len() == 0,
        positional_names(Subcommand::Update).len() == 0,
        positional_names(Subcommand::Server) == seq!["server_id"@],
        positional_names(Subcommand::Power) == seq!["server_id"@],
        positional_names(Subcommand::Command) == seq!["server_id"@],
        positional_names(Subcommand::Resources) == seq!["server_id"@],
        positional_names(Subcommand::Activity) == seq!["server_id"@],
        positional_names(Subcommand::Backups) == seq!["server_id"@],
        positional_names(Subcommand::Databases) == seq!["server_id"@],
        positional_names(Subcommand::Allocations) == seq!["server_id"@],
        positional_names(Subcommand::Schedules) == seq!["server_id"@],
        positional_names(Subcommand::Players) == seq!["server_id"@],
        positional_names(Subcommand::Plugins) == seq!["server_id"@],
        positional_names(Subcommand::Modpacks) == seq!["server_id"@],
        positional_names(Subcommand::Files) == seq!["server_id"@],
        positional_names(Subcommand::FileSearch) == seq!["server_id"@, "query"@],
        positional_names(Subcommand::File) == seq!["server_id"@, "path"@],
        positional_names(Subcommand::ApiCall) == seq!["method"@, "path"@],
{
}

/// A complete reading gives the documented defaults: page 1 and page size
/// 20 for `plugins` and `modpacks`, directory `/` for `files` and root `/`
/// for `file-search`, each where the option was not given.
pub proof fn lemma_option_defaults(c: Command, s: ScanView)
    requires
        command_matches(c, s),
    ensures
        c matches Command::Plugins(a) ==> (s.page is None ==> a.page == 1) && (s.page_size is None
            ==> a.page_size == 20),
        c matches Command::Modpacks(a) ==> (s.page is None ==> a.page == 1) && (s.page_size
            is None ==> a.page_size == 20),
        c matches Command::Files(a) ==> (s.directory is None ==> a.directory@ == "/"@),
        c matches Command::FileSearch(a) ==> (s.root is None ==> a.root@ == "/"@),
{
}

} // verus!
