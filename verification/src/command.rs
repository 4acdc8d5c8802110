//! The commands of the client and their arguments.
use vstd::prelude::*;

verus! {

/// A command that names one server.
#[derive(Debug)]
pub struct ServerId {
    pub server_id: String,
}

/// `power`: send a power signal (start, stop, restart or kill).
#[derive(Debug)]
pub struct PowerArgs {
    pub server_id: String,
    pub action: String,
}

/// `command`: run a console command on a server.
#[derive(Debug)]
pub struct CommandArgs {
    pub server_id: String,
    pub command: String,
}

/// `plugins`: search a plugin provider.
#[derive(Debug)]
pub struct PluginArgs {
    pub server_id: String,
    pub provider: String,
    pub page: u32,
    pub page_size: u32,
    pub search_query: Option<String>,
    pub minecraft_version: Option<String>,
}

/// `modpacks`: search a modpack provider.
#[derive(Debug)]
pub struct ModpackArgs {
    pub server_id: String,
    pub provider: String,
    pub page: u32,
    pub page_size: u32,
    pub search_query: Option<String>,
}

/// `files`: list a directory.
#[derive(Debug)]
pub struct FilesArgs {
    pub server_id: String,
    pub directory: String,
}

/// `file-search`: search files under a root directory.
#[derive(Debug)]
pub struct FileSearchArgs {
    pub server_id: String,
    pub query: String,
    pub root: String,
}

/// `file`: read one file.
#[derive(Debug)]
pub struct FileArgs {
    pub server_id: String,
    pub path: String,
}

/// `api-call`: any documented endpoint.
#[derive(Debug)]
pub struct ApiCallArgs {
    /// HTTP method: GET, POST, PUT, PATCH, or DELETE.
    pub method: String,
    /// API path, with or without a leading slash.
    pub path: String,
    /// Query parameters in KEY=VALUE form.
    pub query: Vec<String>,
    /// Raw JSON request body.
    pub body: Option<String>,
}

/// The subcommands.
#[derive(Debug)]
pub enum Command {
    Login,
    Account,
    Servers,
    Server(ServerId),
    Power(PowerArgs),
    Command(CommandArgs),
    Resources(ServerId),
    Activity(ServerId),
    Backups(ServerId),
    Databases(ServerId),
    Allocations(ServerId),
    Schedules(ServerId),
    Players(ServerId),
    Plugins(PluginArgs),
    Modpacks(ModpackArgs),
    Files(FilesArgs),
    ApiCall(ApiCallArgs),
    Operations,
    FileSearch(FileSearchArgs),
    File(FileArgs),
    Update,
}

/// A parsed command line.
#[derive(Debug)]
pub struct Cli {
    /// The panel's base URL.
    pub base_url: String,
    /// Print compact JSON (`--json`, or its alias `--verbose`).
    pub json: bool,
    pub command: Command,
}

} // verus!
