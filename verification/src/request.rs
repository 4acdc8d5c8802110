//! Which request each command sends to the panel, and what a reply means.
use vstd::prelude::*;

use crate::command::{
    ApiCallArgs, Command, CommandArgs, FileArgs, FileSearchArgs, FilesArgs, ModpackArgs, PluginArgs,
    PowerArgs, ServerId,
};
use crate::error::{CliError, input_error, spec_status_text, status_text};
use crate::json::{Json, JsonView, numerals, parse_json, spec_parse_json};
use crate::text::{
    concat, decimal, spec_decimal, spec_split_once, spec_to_ascii_uppercase, spec_trim_end_char,
    split_once, starts_with_char, str_eq, to_ascii_uppercase, trim_end_char,
};

verus! {

/// The HTTP methods the client sends.
#[derive(Debug, Clone, Copy, PartialEq, Eq, Structural)]
pub enum Method {
    Get,
    Post,
    Put,
    Patch,
    Delete,
}

/// One request to the panel: method, path below the base URL, query
/// parameters in order, and an optional JSON body.
#[derive(Debug)]
pub struct RequestPlan {
    pub method: Method,
    pub path: String,
    pub query: Vec<(String, String)>,
    pub body: Option<Json>,
}

/// The model of a request.
pub struct RequestView {
    pub method: Method,
    pub path: Seq<char>,
    pub query: Seq<(Seq<char>, Seq<char>)>,
    pub body: Option<JsonView>,
}

/// The model of a list of query parameters.
pub open spec fn pairs_view(q: Seq<(String, String)>) -> Seq<(Seq<char>, Seq<char>)> {
    Seq::new(q.len(), |i: int| (q[i].0@, q[i].1@))
}

/// The model of an optional JSON value.
pub open spec fn opt_json_view(j: Option<Json>) -> Option<JsonView> {
    match j {
        Some(v) => Some(v@),
        None => None,
    }
}

/// The model of an optional text.
pub open spec fn opt_view(s: Option<String>) -> Option<Seq<char>> {
    match s {
        Some(t) => Some(t@),
        None => None,
    }
}

impl View for RequestPlan {
    type V = RequestView;

    open spec fn view(&self) -> RequestView {
        RequestView {
            method: self.method,
            path: self.path@,
            query: pairs_view(self.query@),
            body: opt_json_view(self.body),
        }
    }
}

/// What a successful call gives back: JSON, or text that is not JSON.
#[derive(Debug, PartialEq)]
pub enum Response {
    Json(Json),
    Text(String),
}

/// The model of a response.
pub enum ResponseView {
    Json(JsonView),
    Text(Seq<char>),
}

impl View for Response {
    type V = ResponseView;

    open spec fn view(&self) -> ResponseView {
        match self {
            Response::Json(j) => ResponseView::Json(j@),
            Response::Text(t) => ResponseView::Text(t@),
        }
    }
}

// ---------------------------------------------------------------------------
// Paths
/// The path of an endpoint of one server.
pub open spec fn server_path(server: Seq<char>, suffix: Seq<char>) -> Seq<char> {
    "/api/client/servers/"@ + server + suffix
}

/// The path of an endpoint of one server: `/api/client/servers/{server}{suffix}`.
pub fn path_server(server: &str, suffix: &str) -> (path: String)
    ensures
        path@ == server_path(server@, suffix@),
{
    let mut path = "/api/client/servers/".to_owned();
    path.append(server);
    path.append(suffix);
    path
}

/// The panel to talk to and the API key to send.
#[derive(Debug)]
pub struct Api {
    /// The base URL without trailing slashes.
    pub base_url: String,
    pub token: String,
}

impl Api {
    /// A client for `base_url` (trailing slashes removed) with key `token`.
    pub fn new(base_url: String, token: String) -> (api: Api)
        ensures
            api.base_url@ == spec_trim_end_char(base_url@, '/'),
            api.token@ == token@,
    {
        Api { base_url: trim_end_char(base_url.as_str(), '/'), token }
    }

    /// The full URL of `path`.
    pub fn url(&self, path: &str) -> (url: String)
        ensures
            url@ == self.base_url@ + path@,
    {
        concat(self.base_url.as_str(), path)
    }
}

// ---------------------------------------------------------------------------
// Requests of the commands
/// A GET request without query or body.
pub open spec fn get_request(path: Seq<char>) -> RequestView {
    RequestView { method: Method::Get, path, query: Seq::empty(), body: None }
}

/// A JSON object with one text member.
pub open spec fn one_member_object(key: Seq<char>, value: Seq<char>) -> JsonView {
    JsonView::Object(seq![(key, JsonView::String(value))])
}

/// The query of a provider search.
pub open spec fn search_params(
    provider: Seq<char>,
    page: u32,
    page_size: u32,
    search_query: Option<Seq<char>>,
    minecraft_version: Option<Seq<char>>,
) -> Seq<(Seq<char>, Seq<char>)> {
    let base = seq![
        ("provider"@, provider),
        ("page"@, spec_decimal(page as nat)),
        ("page_size"@, spec_decimal(page_size as nat)),
    ];
    let with_search = match search_query {
        Some(q) => base.push(("search_query"@, q)),
        None => base,
    };
    match minecraft_version {
        Some(v) => with_search.push(("minecraft_version"@, v)),
        None => with_search,
    }
}

/// The request of a provider search for `kind` (plugins or modpacks).
pub open spec fn search_request(
    server_id: Seq<char>,
    provider: Seq<char>,
    page: u32,
    page_size: u32,
    search_query_text: Option<Seq<char>>,
    minecraft_version: Option<Seq<char>>,
    kind: Seq<char>,
) -> RequestView {
    RequestView {
        method: Method::Get,
        path: server_path(server_id, "/minecraft/"@ + kind),
        query: search_params(provider, page, page_size, search_query_text, minecraft_version),
        body: None,
    }
}

/// The request a command sends, for the commands that send exactly one
/// fixed request.
pub open spec fn command_request(c: Command) -> Option<RequestView> {
    match c {
        Command::Account => Some(get_request("/api/client/account"@)),
        Command::Servers => Some(get_request("/api/client"@)),
        Command::Server(a) => Some(get_request(server_path(a.server_id@, ""@))),
        Command::Power(a) => Some(
            RequestView {
                method: Method::Post,
                path: server_path(a.server_id@, "/power"@),
                query: Seq::empty(),
                body: Some(one_member_object("signal"@, a.action@)),
            },
        ),
        Command::Command(a) => Some(
            RequestView {
                method: Method::Post,
                path: server_path(a.server_id@, "/command"@),
                query: Seq::empty(),
                body: Some(one_member_object("command"@, a.command@)),
            },
        ),
        Command::Resources(a) => Some(get_request(server_path(a.server_id@, "/resources"@))),
        Command::Activity(a) => Some(get_request(server_path(a.server_id@, "/activity"@))),
        Command::Backups(a) => Some(get_request(server_path(a.server_id@, "/backups"@))),
        Command::Databases(a) => Some(get_request(server_path(a.server_id@, "/databases"@))),
        Command::Allocations(a) => Some(
            get_request(server_path(a.server_id@, "/network/allocations"@)),
        ),
        Command::Schedules(a) => Some(get_request(server_path(a.server_id@, "/schedules"@))),
        Command::Players(a) => Some(get_request(server_path(a.server_id@, "/minecraft/players"@))),
        Command::Plugins(a) => Some(
            search_request(
                a.server_id@,
                a.provider@,
                a.page,
                a.page_size,
                opt_view(a.search_query),
                opt_view(a.minecraft_version),
                "plugins"@,
            ),
        ),
        Command::Modpacks(a) => Some(
            search_request(
                a.server_id@,
                a.provider@,
                a.page,
                a.page_size,
                opt_view(a.search_query),
                None,
                "modpacks"@,
            ),
        ),
        Command::Files(a) => Some(
            RequestView {
                method: Method::Get,
                path: server_path(a.server_id@, "/files/list"@),
                query: seq![("directory"@, a.directory@)],
                body: None,
            },
        ),
        Command::FileSearch(a) => Some(
            RequestView {
                method: Method::Get,
                path: server_path(a.server_id@, "/files/search"@),
                query: seq![("root"@, a.root@), ("query"@, a.query@)],
                body: None,
            },
        ),
        Command::File(a) => Some(
            RequestView {
                method: Method::Get,
                path: server_path(a.server_id@, "/files/contents"@),
                query: seq![("file"@, a.path@)],
                body: None,
            },
        ),
        _ => None,
    }
}

/// What running an authenticated command takes.
#[derive(Debug)]
pub enum Dispatch {
    /// Send this request.
    Request(RequestPlan),
    /// Build the request from the `api-call` arguments.
    ApiCall,
    /// Show the bundled operations inventory.
    Operations,
    /// Run the self-update.
    Update,
}

/// A GET request without query or body.
fn get(path: String) -> (r: RequestPlan)
    ensures
        r@ == get_request(path@),
{
    let r = RequestPlan { method: Method::Get, path, query: Vec::new(), body: None };
    assert(r@.query =~= Seq::<(Seq<char>, Seq<char>)>::empty());
    r
}

/// A GET request for an endpoint of one server.
fn get_server(server: &String, suffix: &str) -> (r: RequestPlan)
    ensures
        r@ == get_request(server_path(server@, suffix@)),
{
    get(path_server(server.as_str(), suffix))
}

/// A JSON object with one text member.
fn one_member(key: &str, value: &String) -> (j: Json)
    ensures
        j@ == one_member_object(key@, value@),
{
    let mut members: Vec<(String, Json)> = Vec::new();
    members.push((key.to_owned(), Json::String(value.clone())));
    let j = Json::Object(members);
    assert(crate::json::entries_view(members@) =~= seq![(key@, JsonView::String(value@))]);
    j
}

/// A POST request for an endpoint of one server with a one-member body.
fn post_server(server: &String, suffix: &str, key: &str, value: &String) -> (r: RequestPlan)
    ensures
        r@ == (RequestView {
            method: Method::Post,
            path: server_path(server@, suffix@),
            query: Seq::empty(),
            body: Some(one_member_object(key@, value@)),
        }),
{
    let r = RequestPlan {
        method: Method::Post,
        path: path_server(server.as_str(), suffix),
        query: Vec::new(),
        body: Some(one_member(key, value)),
    };
    assert(r@.query =~= Seq::<(Seq<char>, Seq<char>)>::empty());
    r
}

/// A GET request for an endpoint of one server with query parameters.
fn get_server_query(server: &String, suffix: &str, query: Vec<(String, String)>) -> (r: RequestPlan)
    ensures
        r@ == (RequestView {
            method: Method::Get,
            path: server_path(server@, suffix@),
            query: pairs_view(query@),
            body: None,
        }),
{
    RequestPlan { method: Method::Get, path: path_server(server.as_str(), suffix), query, body: None }
}

/// A query parameter.
fn param(key: &str, value: &String) -> (p: (String, String))
    ensures
        p.0@ == key@,
        p.1@ == value@,
{
    (key.to_owned(), value.clone())
}

/// The request of a provider search for `kind`.
pub fn search(
    server_id: &String,
    provider: &String,
    page: u32,
    page_size: u32,
    search_query: &Option<String>,
    minecraft_version: &Option<String>,
    kind: &str,
) -> (r: RequestPlan)
    ensures
        r@ == search_request(
            server_id@,
            provider@,
            page,
            page_size,
            opt_view(*search_query),
            opt_view(*minecraft_version),
            kind@,
        ),
{
    let mut q: Vec<(String, String)> = Vec::new();
    q.push(param("provider", provider));
    q.push(("page".to_owned(), decimal(page as u128)));
    q.push(("page_size".to_owned(), decimal(page_size as u128)));
    let ghost base = pairs_view(q@);
    if let Some(v) = search_query {
        q.push(param("search_query", v));
    }
    let ghost with_search = pairs_view(q@);
    if let Some(v) = minecraft_version {
        q.push(param("minecraft_version", v));
    }
    let suffix = concat("/minecraft/", kind);
    let r = get_server_query(server_id, suffix.as_str(), q);
    assert(base =~= seq![
        ("provider"@, provider@),
        ("page"@, spec_decimal(page as nat)),
        ("page_size"@, spec_decimal(page_size as nat)),
    ]);
    assert(with_search =~= match opt_view(*search_query) {
        Some(s) => base.push(("search_query"@, s)),
        None => base,
    });
    assert(r@.query =~= search_params(
        provider@,
        page,
        page_size,
        opt_view(*search_query),
        opt_view(*minecraft_version),
    ));
    r
}

/// What an authenticated command takes: the request that most commands send,
/// or the local work of the others.
pub fn execute(command: &Command) -> (d: Dispatch)
    requires
        !(command is Login),
    ensures
        match d {
            Dispatch::Request(r) => command_request(*command) == Some(r@),
            Dispatch::ApiCall => command is ApiCall,
            Dispatch::Operations => command is Operations,
            Dispatch::Update => command is Update,
        },
        command_request(*command) is Some ==> d is Request,
{
    match command {
        Command::Account => Dispatch::Request(get("/api/client/account".to_owned())),
        Command::Servers => Dispatch::Request(get("/api/client".to_owned())),
        Command::Server(a) => Dispatch::Request(get_server(&a.server_id, "")),
        Command::Power(a) => Dispatch::Request(post_server(&a.server_id, "/power", "signal", &a.action)),
        Command::Command(a) => Dispatch::Request(
            post_server(&a.server_id, "/command", "command", &a.command),
        ),
        Command::Resources(a) => Dispatch::Request(get_server(&a.server_id, "/resources")),
        Command::Activity(a) => Dispatch::Request(get_server(&a.server_id, "/activity")),
        Command::Backups(a) => Dispatch::Request(get_server(&a.server_id, "/backups")),
        Command::Databases(a) => Dispatch::Request(get_server(&a.server_id, "/databases")),
        Command::Allocations(a) => Dispatch::Request(
            get_server(&a.server_id, "/network/allocations"),
        ),
        Command::Schedules(a) => Dispatch::Request(get_server(&a.server_id, "/schedules")),
        Command::Players(a) => Dispatch::Request(get_server(&a.server_id, "/minecraft/players")),
        Command::Plugins(a) => Dispatch::Request(
            search(
                &a.server_id,
                &a.provider,
                a.page,
                a.page_size,
                &a.search_query,
                &a.minecraft_version,
                "plugins",
            ),
        ),
        Command::Modpacks(a) => Dispatch::Request(
            search(&a.server_id, &a.provider, a.page, a.page_size, &a.search_query, &None, "modpacks"),
        ),
        Command::Files(a) => {
            let mut q: Vec<(String, String)> = Vec::new();
            q.push(param("directory", &a.directory));
            let r = get_server_query(&a.server_id, "/files/list", q);
            assert(r@.query =~= seq![("directory"@, a.directory@)]);
            Dispatch::Request(r)
        },
        Command::FileSearch(a) => {
            let mut q: Vec<(String, String)> = Vec::new();
            q.push(param("root", &a.root));
            q.push(param("query", &a.query));
            let r = get_server_query(&a.server_id, "/files/search", q);
            assert(r@.query =~= seq![("root"@, a.root@), ("query"@, a.query@)]);
            Dispatch::Request(r)
        },
        Command::File(a) => {
            let mut q: Vec<(String, String)> = Vec::new();
            q.push(param("file", &a.path));
            let r = get_server_query(&a.server_id, "/files/contents", q);
            assert(r@.query =~= seq![("file"@, a.path@)]);
            Dispatch::Request(r)
        },
        Command::ApiCall(_) => Dispatch::ApiCall,
        Command::Operations => Dispatch::Operations,
        Command::Update => Dispatch::Update,
        Command::Login => {
            proof {
                assert(false);
            }
            Dispatch::Update
        },
    }
}

// ---------------------------------------------------------------------------
// api-call
/// The method named by an upper-case method name.
pub open spec fn method_named(name: Seq<char>) -> Option<Method> {
    if name == "GET"@ {
        Some(Method::Get)
    } else if name == "POST"@ {
        Some(Method::Post)
    } else if name == "PUT"@ {
        Some(Method::Put)
    } else if name == "PATCH"@ {
        Some(Method::Patch)
    } else if name == "DELETE"@ {
        Some(Method::Delete)
    } else {
        None
    }
}

/// The path with a leading slash added where it has none.
pub open spec fn absolute_path(path: Seq<char>) -> Seq<char> {
    if path.len() > 0 && path[0] == '/' {
        path
    } else {
        "/"@ + path
    }
}

/// `KEY=VALUE` parameters split at their first `=`; the first one without
/// `=` is the error.
pub open spec fn query_pairs(qs: Seq<Seq<char>>) -> Result<Seq<(Seq<char>, Seq<char>)>, Seq<char>>
    decreases qs.len(),
{
    if qs.len() == 0 {
        Ok(Seq::empty())
    } else {
        match query_pairs(qs.drop_last()) {
            Err(e) => Err(e),
            Ok(ps) => match spec_split_once(qs.last(), '=') {
                Some(p) => Ok(ps.push(p)),
                None => Err(qs.last()),
            },
        }
    }
}

/// The model of a body parse outcome.
pub open spec fn body_view(body: Option<Result<Json, String>>) -> Option<Result<JsonView, Seq<char>>> {
    match body {
        None => None,
        Some(Ok(j)) => Some(Ok(j@)),
        Some(Err(e)) => Some(Err(e@)),
    }
}

/// The request of `api-call`, or the text of the input error: the method
/// (any letter case) must be GET, POST, PUT, PATCH or DELETE, every query
/// parameter must hold `=`, and the body, where there is one, must be JSON.
pub open spec fn api_call_request(
    method: Seq<char>,
    path: Seq<char>,
    query: Seq<Seq<char>>,
    body: Option<Result<JsonView, Seq<char>>>,
) -> Result<RequestView, Seq<char>> {
    let upper = spec_to_ascii_uppercase(method);
    match method_named(upper) {
        None => Err("unsupported HTTP method: "@ + upper),
        Some(m) => match query_pairs(query) {
            Err(bad) => Err("query must be KEY=VALUE: "@ + bad),
            Ok(pairs) => match body {
                Some(Err(e)) => Err("invalid JSON body: "@ + e),
                Some(Ok(j)) => Ok(
                    RequestView { method: m, path: absolute_path(path), query: pairs, body: Some(j) },
                ),
                None => Ok(
                    RequestView { method: m, path: absolute_path(path), query: pairs, body: None },
                ),
            },
        },
    }
}

/// The texts of a list of texts.
pub open spec fn texts_view(v: Seq<String>) -> Seq<Seq<char>> {
    Seq::new(v.len(), |i: int| v[i]@)
}

/// The request of `api-call`. `body` is the outcome of reading the `--body`
/// text as JSON (the value, or the parser's error text), `None` without one.
pub fn api_call(args: &ApiCallArgs, body: Option<Result<Json, String>>) -> (r: Result<
    RequestPlan,
    CliError,
>)
    ensures
        match (r, api_call_request(args.method@, args.path@, texts_view(args.query@), body_view(body))) {
            (Ok(plan), Ok(v)) => plan@ == v,
            (Err(CliError::Input(m)), Err(v)) => m@ == v,
            _ => false,
        },
{
    let upper = to_ascii_uppercase(args.method.as_str());
    let method = if str_eq(upper.as_str(), "GET") {
        Method::Get
    } else if str_eq(upper.as_str(), "POST") {
        Method::Post
    } else if str_eq(upper.as_str(), "PUT") {
        Method::Put
    } else if str_eq(upper.as_str(), "PATCH") {
        Method::Patch
    } else if str_eq(upper.as_str(), "DELETE") {
        Method::Delete
    } else {
        return Err(input_error("unsupported HTTP method: ", upper.as_str()));
    };
    let path = if starts_with_char(args.path.as_str(), '/') {
        args.path.clone()
    } else {
        concat("/", args.path.as_str())
    };
    let ghost qs = texts_view(args.query@);
    let mut pairs: Vec<(String, String)> = Vec::new();
    assert(pairs_view(pairs@) =~= Seq::<(Seq<char>, Seq<char>)>::empty());
    assert(qs.subrange(0, 0) =~= Seq::<Seq<char>>::empty());
    let mut i: usize = 0;
    while i < args.query.len()
        invariant
            qs == texts_view(args.query@),
            method_named(spec_to_ascii_uppercase(args.method@)) == Some(method),
            path@ == absolute_path(args.path@),
            i <= args.query@.len(),
            query_pairs(qs.subrange(0, i as int)) == Ok::<
                Seq<(Seq<char>, Seq<char>)>,
                Seq<char>,
            >(pairs_view(pairs@)),
        decreases args.query@.len() - i,
    {
        let ghost prefix = qs.subrange(0, i + 1);
        assert(prefix.drop_last() =~= qs.subrange(0, i as int));
        assert(prefix.last() == args.query@[i as int]@);
        match split_once(args.query[i].as_str(), '=') {
            Some(p) => {
                let ghost before = pairs_view(pairs@);
                let ghost pv = (p.0@, p.1@);
                pairs.push(p);
                assert(pairs_view(pairs@) =~= before.push(pv));
            },
            None => {
                let e = input_error("query must be KEY=VALUE: ", args.query[i].as_str());
                assert(query_pairs(qs.subrange(0, i + 1)) == Err::<
                    Seq<(Seq<char>, Seq<char>)>,
                    Seq<char>,
                >(args.query@[i as int]@));
                proof {
                    lemma_query_pairs_prefix_err(qs, i as int + 1);
                }
                return Err(e);
            },
        }
        i = i + 1;
    }
    assert(qs.subrange(0, args.query@.len() as int) =~= qs);
    let body_json = match body {
        None => None,
        Some(Ok(j)) => Some(j),
        Some(Err(e)) => {
            return Err(input_error("invalid JSON body: ", e.as_str()));
        },
    };
    Ok(RequestPlan { method, path, query: pairs, body: body_json })
}

proof fn lemma_query_pairs_prefix_err(qs: Seq<Seq<char>>, n: int)
    requires
        0 <= n <= qs.len(),
        query_pairs(qs.subrange(0, n)) is Err,
    ensures
        query_pairs(qs) == query_pairs(qs.subrange(0, n)),
    decreases qs.len() - n,
{
    if n < qs.len() {
        let next = qs.subrange(0, n + 1);
        assert(next.drop_last() =~= qs.subrange(0, n));
        lemma_query_pairs_prefix_err(qs, n + 1);
    } else {
        assert(qs.subrange(0, n) =~= qs);
    }
}

/// The outcome of reading an optional `--body` text as JSON.
pub open spec fn parsed_body(body: Option<Seq<char>>) -> Option<Result<JsonView, Seq<char>>> {
    match body {
        Some(b) => Some(spec_parse_json(b)),
        None => None,
    }
}

/// The request of `api-call`, reading its `--body` text as JSON.
pub fn api_call_reading_body(args: &ApiCallArgs) -> (r: Result<RequestPlan, CliError>)
    ensures
        match (r, api_call_request(
            args.method@,
            args.path@,
            texts_view(args.query@),
            parsed_body(opt_view(args.body)),
        )) {
            (Ok(plan), Ok(v)) => plan@ == v,
            (Err(CliError::Input(m)), Err(v)) => m@ == v,
            _ => false,
        },
{
    let body = match &args.body {
        Some(text) => Some(parse_json(text.as_str())),
        None => None,
    };
    api_call(args, body)
}

/// `api-call` sends the method its name spells, whatever the letter case:
/// GET, POST, PUT, PATCH and DELETE, each as the method of that name, and
/// refuses every other name.
pub proof fn lemma_api_call_method_names(
    method: Seq<char>,
    path: Seq<char>,
    query: Seq<Seq<char>>,
    body: Option<Result<JsonView, Seq<char>>>,
)
    ensures
        api_call_request(method, path, query, body) matches Ok(r) ==> {
            let upper = spec_to_ascii_uppercase(method);
            &&& r.method == Method::Get <==> upper == "GET"@
            &&& r.method == Method::Post <==> upper == "POST"@
            &&& r.method == Method::Put <==> upper == "PUT"@
            &&& r.method == Method::Patch <==> upper == "PATCH"@
            &&& r.method == Method::Delete <==> upper == "DELETE"@
        },
        !({
            let upper = spec_to_ascii_uppercase(method);
            upper == "GET"@ || upper == "POST"@ || upper == "PUT"@ || upper == "PATCH"@ || upper
                == "DELETE"@
        }) ==> api_call_request(method, path, query, body) is Err,
{
    reveal_strlit("GET");
    reveal_strlit("POST");
    reveal_strlit("PUT");
    reveal_strlit("PATCH");
    reveal_strlit("DELETE");
    assert("GET"@[0] != "POST"@[0] && "GET"@[0] != "PUT"@[0] && "GET"@[0] != "PATCH"@[0]);
    assert("DELETE"@[0] != "GET"@[0] && "DELETE"@[0] != "POST"@[0] && "DELETE"@[0] != "PUT"@[0]);
    assert("DELETE"@[0] != "PATCH"@[0]);
    assert("POST"@[1] != "PUT"@[1] && "POST"@[1] != "PATCH"@[1] && "PUT"@[1] != "PATCH"@[1]);
}

/// The account and the server list have fixed endpoints.
pub proof fn lemma_account_endpoints()
    ensures
        command_request(Command::Account) == Some(get_request("/api/client/account"@)),
        command_request(Command::Servers) == Some(get_request("/api/client"@)),
{
}

/// Each read-only server command asks the documented endpoint of the
/// server it names.
pub proof fn lemma_server_endpoints(id: ServerId)
    ensures
        command_request(Command::Server(id)) == Some(
            get_request("/api/client/servers/"@ + id.server_id@),
        ),
        command_request(Command::Resources(id)) == Some(
            get_request("/api/client/servers/"@ + id.server_id@ + "/resources"@),
        ),
        command_request(Command::Activity(id)) == Some(
            get_request("/api/client/servers/"@ + id.server_id@ + "/activity"@),
        ),
        command_request(Command::Backups(id)) == Some(
            get_request("/api/client/servers/"@ + id.server_id@ + "/backups"@),
        ),
        command_request(Command::Databases(id)) == Some(
            get_request("/api/client/servers/"@ + id.server_id@ + "/databases"@),
        ),
        command_request(Command::Allocations(id)) == Some(
            get_request("/api/client/servers/"@ + id.server_id@ + "/network/allocations"@),
        ),
        command_request(Command::Schedules(id)) == Some(
            get_request("/api/client/servers/"@ + id.server_id@ + "/schedules"@),
        ),
        command_request(Command::Players(id)) == Some(
            get_request("/api/client/servers/"@ + id.server_id@ + "/minecraft/players"@),
        ),
{
    reveal_strlit("");
    assert("/api/client/servers/"@ + id.server_id@ + ""@ =~= "/api/client/servers/"@ + id.server_id@);
}

/// `power` and `command` post their JSON body to the documented endpoint.
pub proof fn lemma_console_endpoints(power: PowerArgs, command: CommandArgs)
    ensures
        command_request(Command::Power(power)) == Some(
            RequestView {
                method: Method::Post,
                path: "/api/client/servers/"@ + power.server_id@ + "/power"@,
                query: Seq::empty(),
                body: Some(JsonView::Object(seq![("signal"@, JsonView::String(power.action@))])),
            },
        ),
        command_request(Command::Command(command)) == Some(
            RequestView {
                method: Method::Post,
                path: "/api/client/servers/"@ + command.server_id@ + "/command"@,
                query: Seq::empty(),
                body: Some(
                    JsonView::Object(seq![("command"@, JsonView::String(command.command@))]),
                ),
            },
        ),
{
}

/// The file commands ask the documented endpoints with the documented
/// query parameters.
pub proof fn lemma_file_endpoints(files: FilesArgs, search: FileSearchArgs, file: FileArgs)
    ensures
        command_request(Command::Files(files)) == Some(
            RequestView {
                method: Method::Get,
                path: "/api/client/servers/"@ + files.server_id@ + "/files/list"@,
                query: seq![("directory"@, files.directory@)],
                body: None,
            },
        ),
        command_request(Command::FileSearch(search)) == Some(
            RequestView {
                method: Method::Get,
                path: "/api/client/servers/"@ + search.server_id@ + "/files/search"@,
                query: seq![("root"@, search.root@), ("query"@, search.query@)],
                body: None,
            },
        ),
        command_request(Command::File(file)) == Some(
            RequestView {
                method: Method::Get,
                path: "/api/client/servers/"@ + file.server_id@ + "/files/contents"@,
                query: seq![("file"@, file.path@)],
                body: None,
            },
        ),
{
}

/// `plugins` and `modpacks` ask the documented search endpoint of their
/// server with `provider`, `page` and `page_size` (in decimal), then
/// `search_query` where given, then, for plugins only, `minecraft_version`
/// where given.
pub proof fn lemma_search_endpoints(p: PluginArgs, m: ModpackArgs)
    ensures
        command_request(Command::Plugins(p)) == Some(
            RequestView {
                method: Method::Get,
                path: "/api/client/servers/"@ + p.server_id@ + "/minecraft/plugins"@,
                query: seq![
                    ("provider"@, p.provider@),
                    ("page"@, spec_decimal(p.page as nat)),
                    ("page_size"@, spec_decimal(p.page_size as nat)),
                ] + match p.search_query {
                    Some(q) => seq![("search_query"@, q@)],
                    None => Seq::empty(),
                } + match p.minecraft_version {
                    Some(v) => seq![("minecraft_version"@, v@)],
                    None => Seq::empty(),
                },
                body: None,
            },
        ),
        command_request(Command::Modpacks(m)) == Some(
            RequestView {
                method: Method::Get,
                path: "/api/client/servers/"@ + m.server_id@ + "/minecraft/modpacks"@,
                query: seq![
                    ("provider"@, m.provider@),
                    ("page"@, spec_decimal(m.page as nat)),
                    ("page_size"@, spec_decimal(m.page_size as nat)),
                ] + match m.search_query {
                    Some(q) => seq![("search_query"@, q@)],
                    None => Seq::empty(),
                },
                body: None,
            },
        ),
{
    reveal_strlit("/minecraft/");
    reveal_strlit("plugins");
    reveal_strlit("modpacks");
    reveal_strlit("/minecraft/plugins");
    reveal_strlit("/minecraft/modpacks");
    let base = seq![
        ("provider"@, p.provider@),
        ("page"@, spec_decimal(p.page as nat)),
        ("page_size"@, spec_decimal(p.page_size as nat)),
    ];
    let q1: Seq<(Seq<char>, Seq<char>)> = match p.search_query {
        Some(q) => seq![("search_query"@, q@)],
        None => Seq::empty(),
    };
    let q2: Seq<(Seq<char>, Seq<char>)> = match p.minecraft_version {
        Some(v) => seq![("minecraft_version"@, v@)],
        None => Seq::empty(),
    };
    assert(search_params(p.provider@, p.page, p.page_size, opt_view(p.search_query), opt_view(p.minecraft_version)) =~= base + q1 + q2);
    assert("/api/client/servers/"@ + p.server_id@ + ("/minecraft/"@ + "plugins"@) =~= "/api/client/servers/"@ + p.server_id@ + "/minecraft/plugins"@);
    let mbase = seq![
        ("provider"@, m.provider@),
        ("page"@, spec_decimal(m.page as nat)),
        ("page_size"@, spec_decimal(m.page_size as nat)),
    ];
    let m1: Seq<(Seq<char>, Seq<char>)> = match m.search_query {
        Some(q) => seq![("search_query"@, q@)],
        None => Seq::empty(),
    };
    assert(search_params(m.provider@, m.page, m.page_size, opt_view(m.search_query), None) =~= mbase + m1);
    assert("/api/client/servers/"@ + m.server_id@ + ("/minecraft/"@ + "modpacks"@) =~= "/api/client/servers/"@ + m.server_id@ + "/minecraft/modpacks"@);
}

/// A reply succeeds exactly when its status is 200 to 299.
pub proof fn lemma_success_statuses(status: u16)
    ensures
        is_success(status) <==> 200 <= status && status < 300,
{
}

/// The letter case of the method does not matter to `api-call`.
pub proof fn lemma_api_call_method_case(
    m1: Seq<char>,
    m2: Seq<char>,
    path: Seq<char>,
    query: Seq<Seq<char>>,
    body: Option<Result<JsonView, Seq<char>>>,
)
    requires
        spec_to_ascii_uppercase(m1) == spec_to_ascii_uppercase(m2),
    ensures
        api_call_request(m1, path, query, body) == api_call_request(m2, path, query, body),
{
}

/// `api-call` adds one leading slash to a path without one, and uses a path
/// that has one as it is.
pub proof fn lemma_api_call_leading_slash(
    method: Seq<char>,
    path: Seq<char>,
    query: Seq<Seq<char>>,
    body: Option<Result<JsonView, Seq<char>>>,
)
    ensures
        !(path.len() > 0 && path[0] == '/') ==> api_call_request(method, path, query, body)
            == api_call_request(method, "/"@ + path, query, body),
        path.len() > 0 && path[0] == '/' ==> absolute_path(path) == path,
{
    reveal_strlit("/");
    let p = "/"@ + path;
    assert(p[0] == '/');
    assert(absolute_path(p) == p);
}

// ---------------------------------------------------------------------------
// Replies
/// Whether a status is a success (`StatusCode::is_success`: 200 to 299).
pub open spec fn is_success(status: u16) -> bool {
    200 <= status <= 299
}

/// What a reply means. A status outside 200..=299 is an API error carrying
/// the body text, or the status text when the body is empty. A successful
/// empty body is JSON `null`; otherwise the body is JSON when `parsed` holds
/// the value it reads as (`None` when it is not JSON), and text otherwise.
pub fn classify_response(status: u16, text: String, parsed: Option<Json>) -> (r: Result<
    Response,
    CliError,
>)
    ensures
        !is_success(status) ==> (r matches Err(CliError::Api { status: s, message: m }) && s
            == status && m@ == (if text@.len() == 0 {
            spec_status_text(status)
        } else {
            text@
        })),
        is_success(status) && text@.len() == 0 ==> (r matches Ok(resp) && resp@ == ResponseView::Json(
            JsonView::Null,
        )),
        is_success(status) && text@.len() > 0 ==> (r matches Ok(resp) && resp@ == match parsed {
            Some(v) => ResponseView::Json(v@),
            None => ResponseView::Text(text@),
        }),
{
    let empty = text.as_str().unicode_len() == 0;
    if !(200 <= status && status <= 299) {
        let message = if empty {
            status_text(status)
        } else {
            text
        };
        return Err(CliError::Api { status, message });
    }
    if empty {
        return Ok(Response::Json(Json::Null));
    }
    match parsed {
        Some(v) => Ok(Response::Json(v)),
        None => Ok(Response::Text(text)),
    }
}

/// What a reply means, reading a successful non-empty body as JSON: the
/// value it reads as, or the text itself when it is not JSON.
pub fn classify_reply(status: u16, text: String) -> (r: Result<Response, CliError>)
    ensures
        !is_success(status) ==> (r matches Err(CliError::Api { status: s, message: m }) && s
            == status && m@ == (if text@.len() == 0 {
            spec_status_text(status)
        } else {
            text@
        })),
        is_success(status) && text@.len() == 0 ==> (r matches Ok(resp) && resp@ == ResponseView::Json(
            JsonView::Null,
        )),
        is_success(status) && text@.len() > 0 ==> (r matches Ok(resp) && resp@ == match spec_parse_json(
            text@,
        ) {
            Ok(v) => ResponseView::Json(v),
            Err(_) => ResponseView::Text(text@),
        }),
        r matches Ok(Response::Json(v)) ==> numerals(v@),
{
    let parsed = if 200 <= status && status <= 299 && text.as_str().unicode_len() > 0 {
        match parse_json(text.as_str()) {
            Ok(v) => Some(v),
            Err(_) => None,
        }
    } else {
        None
    };
    classify_response(status, text, parsed)
}

} // verus!
