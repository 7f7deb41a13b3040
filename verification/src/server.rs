//! The transfer server: what it owns, what it tells about itself, and its
//! start/stop lifecycle.
//!
//! The server here is the state and the decisions. Binding the socket,
//! serving requests and touching the storage directory are the caller's part:
//! [`FileServer::start`] and [`FileServer::stop`] say what is to be done, and
//! the caller reports back whether a start succeeded.

use vstd::prelude::*;
use vstd::string::StringExecFns;
use crate::config::{bind_address, bind_address_of, body_limit, body_limit_of, ConfigData, ConfigView};
use crate::download::{plan_download, plan_for, DownloadPlan};
use crate::error::TransferError;
use crate::models::{has_id, is_first_with_id, FileInfo, FileInfoView, FileList};
use crate::text::{decimal_text, inside, is_inside, push_decimal, text_view};
use crate::upload::{
    first_action, initial_session, registry_after, reply_of, reply_view, StorageAction, UploadOutcome,
    UploadRequest, UploadSession,
};

verus! {

/// What the request handlers share: the registry and the storage directory.
#[derive(Debug)]
pub struct AppState {
    pub file_list: FileList,
    pub temp_dir: String,
}

/// The server's externally observable status.
#[derive(Debug)]
pub struct ServerInfo {
    pub url: String,
    pub ip: String,
    pub port: u16,
    pub running: bool,
}

/// What a [`ServerInfo`] holds, as plain mathematical values.
pub struct ServerInfoView {
    pub url: Seq<char>,
    pub ip: Seq<char>,
    pub port: u16,
    pub running: bool,
}

impl View for ServerInfo {
    type V = ServerInfoView;

    open spec fn view(&self) -> ServerInfoView {
        ServerInfoView { url: self.url@, ip: self.ip@, port: self.port, running: self.running }
    }
}

impl Clone for ServerInfo {
    fn clone(&self) -> (copy: Self)
        ensures
            copy@ == self@,
    {
        ServerInfo {
            url: self.url.clone(),
            ip: self.ip.clone(),
            port: self.port,
            running: self.running,
        }
    }
}

/// The address that clients are told: the one found on the local network,
/// or the loopback address when none was found.
pub open spec fn address_or_loopback(ip: Option<Seq<char>>) -> Seq<char> {
    match ip {
        Some(address) => address,
        None => "127.0.0.1"@,
    }
}

/// The URL of a server at `ip`, listening on `port`.
pub open spec fn server_url(ip: Seq<char>, port: u16) -> Seq<char> {
    "http://"@ + ip + ":"@ + decimal_text(port as nat)
}

/// The status of a server configured by `config`, on a host where the
/// discovery of the local address gave `ip`.
pub open spec fn info_for(config: ConfigView, ip: Option<Seq<char>>, running: bool) -> ServerInfoView {
    ServerInfoView {
        url: server_url(address_or_loopback(ip), config.port),
        ip: address_or_loopback(ip),
        port: config.port,
        running,
    }
}

impl ServerInfo {
    /// The status of a server configured by `config`, on a host where the
    /// discovery of the local address gave `ip`.
    pub fn describe(config: &ConfigData, ip: Option<String>, running: bool) -> (info: ServerInfo)
        ensures
            info@ == info_for(config@, text_view(ip), running),
    {
        let address: String = match ip {
            Some(found) => found,
            None => String::from_str("127.0.0.1"),
        };
        let mut url: String = String::from_str("http://");
        url.append(address.as_str());
        url.append(":");
        push_decimal(&mut url, config.server.port as u128);
        ServerInfo { url, ip: address, port: config.server.port, running }
    }
}

/// What is needed to serve: where to listen, how large an upload request may
/// be, and the storage directory that has to exist.
#[derive(Debug)]
pub struct LaunchPlan {
    pub bind_address: String,
    pub port: u16,
    pub body_limit: usize,
    pub storage_dir: String,
}

/// What a [`LaunchPlan`] holds, as plain mathematical values.
pub struct LaunchPlanView {
    pub bind_address: Seq<char>,
    pub port: u16,
    pub body_limit: usize,
    pub storage_dir: Seq<char>,
}

impl View for LaunchPlan {
    type V = LaunchPlanView;

    open spec fn view(&self) -> LaunchPlanView {
        LaunchPlanView {
            bind_address: self.bind_address@,
            port: self.port,
            body_limit: self.body_limit,
            storage_dir: self.storage_dir@,
        }
    }
}

/// What serving under `config` needs.
pub open spec fn launch_plan(config: ConfigView) -> LaunchPlanView {
    LaunchPlanView {
        bind_address: bind_address(config.bind_all_interfaces),
        port: config.port,
        body_limit: body_limit(config.upload_chunk_size_mb),
        storage_dir: config.storage_dir,
    }
}

/// What [`FileServer::start`] asks of its caller.
#[derive(Debug)]
pub enum StartPlan {
    /// The server is serving already: there is nothing to do.
    AlreadyRunning,
    /// Create the storage directory, bind the socket and serve.
    Launch(LaunchPlan),
}

/// What a [`StartPlan`] holds, as plain mathematical values.
pub enum StartPlanView {
    AlreadyRunning,
    Launch(LaunchPlanView),
}

impl View for StartPlan {
    type V = StartPlanView;

    open spec fn view(&self) -> StartPlanView {
        match self {
            StartPlan::AlreadyRunning => StartPlanView::AlreadyRunning,
            StartPlan::Launch(plan) => StartPlanView::Launch(plan@),
        }
    }
}

/// The views of the strings of a vector.
pub open spec fn texts(paths: Seq<String>) -> Seq<Seq<char>> {
    paths.map_values(|path: String| path@)
}

/// What [`FileServer::stop`] asks of its caller.
#[derive(Debug)]
pub enum StopPlan {
    /// The server was not serving: there is nothing to do.
    NotRunning,
    /// Signal the serving task to shut down gracefully, remove the files at
    /// `remove`, and remove the storage directory if it is empty.
    Shutdown { remove: Vec<String>, storage_dir: String },
}

/// What a [`StopPlan`] holds, as plain mathematical values.
pub enum StopPlanView {
    NotRunning,
    Shutdown { remove: Seq<Seq<char>>, storage_dir: Seq<char> },
}

impl View for StopPlan {
    type V = StopPlanView;

    open spec fn view(&self) -> StopPlanView {
        match self {
            StopPlan::NotRunning => StopPlanView::NotRunning,
            StopPlan::Shutdown { remove, storage_dir } => StopPlanView::Shutdown {
                remove: texts(remove@),
                storage_dir: storage_dir@,
            },
        }
    }
}

/// The paths of the records whose files lie below the directory `dir`, in
/// the order of the records: the files that uploads have left there.
pub open spec fn upload_paths(records: Seq<FileInfoView>, dir: Seq<char>) -> Seq<Seq<char>>
    decreases records.len(),
{
    if records.len() == 0 {
        Seq::empty()
    } else if inside(dir, records.last().path) {
        upload_paths(records.drop_last(), dir).push(records.last().path)
    } else {
        upload_paths(records.drop_last(), dir)
    }
}

/// The paths of the records whose files lie below the directory `dir`.
pub fn upload_paths_of(registry: &FileList, dir: &str) -> (paths: Vec<String>)
    ensures
        texts(paths@) == upload_paths(registry@, dir@),
{
    let mut paths: Vec<String> = Vec::new();
    let mut i: usize = 0;
    assert(registry@.take(0) =~= Seq::<FileInfoView>::empty());
    assert(texts(paths@) =~= Seq::<Seq<char>>::empty());
    while i < registry.files.len()
        invariant
            i <= registry.files.len(),
            texts(paths@) == upload_paths(registry@.take(i as int), dir@),
        decreases registry.files.len() - i,
    {
        let ghost before = texts(paths@);
        assert(registry@.take(i + 1).drop_last() =~= registry@.take(i as int));
        assert(registry@.take(i + 1).last() == registry.files[i as int]@);
        if is_inside(dir, registry.files[i].path.as_str()) {
            paths.push(registry.files[i].path.clone());
            assert(texts(paths@) =~= before.push(registry.files[i as int].path@));
        }
        i = i + 1;
    }
    assert(registry@.take(i as int) =~= registry@);
    paths
}

/// The transfer server: the registry, the storage directory, the status, and
/// whether it holds the handle that cancels its serving task.
#[derive(Debug)]
pub struct FileServer {
    state: AppState,
    server_info: ServerInfo,
    serving: bool,
    starting: bool,
}

/// What a [`FileServer`] holds, as plain mathematical values.
pub struct ServerView {
    pub registry: Seq<FileInfoView>,
    pub storage_dir: Seq<char>,
    pub info: ServerInfoView,
    /// Whether the server holds the handle that cancels its serving task.
    pub serving: bool,
    /// Whether a start is under way: the handle is held, and whether the
    /// socket could be bound is not known yet.
    pub starting: bool,
}

/// A new server: stopped, with an empty registry.
pub open spec fn initial_server(config: ConfigView, ip: Option<Seq<char>>) -> ServerView {
    ServerView {
        registry: Seq::empty(),
        storage_dir: config.storage_dir,
        info: info_for(config, ip, false),
        serving: false,
        starting: false,
    }
}

/// The server after `start`: it holds the handle that cancels its serving
/// task. Nothing else changes: the status and the storage directory stay as
/// they were until the start has succeeded.
/// A server that holds the handle already stays as it is.
pub open spec fn starting(server: ServerView) -> ServerView {
    if server.serving {
        server
    } else {
        ServerView { serving: true, starting: true, ..server }
    }
}

/// The server after a start has succeeded: it is running, with the storage
/// directory, address and port of the configuration. Where no start is under
/// way nothing changes.
pub open spec fn start_confirmed(
    server: ServerView,
    config: ConfigView,
    ip: Option<Seq<char>>,
) -> ServerView {
    if server.starting {
        ServerView {
            storage_dir: config.storage_dir,
            info: info_for(config, ip, true),
            starting: false,
            ..server
        }
    } else {
        server
    }
}

/// The server after a start has failed: the handle is given up, and the
/// server is as it was before the start. Where no start is under way nothing
/// changes.
pub open spec fn start_undone(server: ServerView) -> ServerView {
    if server.starting {
        ServerView { serving: false, starting: false, ..server }
    } else {
        server
    }
}

/// What `start` asks of its caller.
pub open spec fn start_plan(server: ServerView, config: ConfigView) -> StartPlanView {
    if server.serving {
        StartPlanView::AlreadyRunning
    } else {
        StartPlanView::Launch(launch_plan(config))
    }
}

/// The server with its status no longer running.
pub open spec fn not_running(server: ServerView) -> ServerView {
    ServerView { info: ServerInfoView { running: false, ..server.info }, ..server }
}

/// The server after `stop`: a server that is not serving stays as it is;
/// a serving one is stopped, and its registry is emptied.
pub open spec fn stopped(server: ServerView) -> ServerView {
    if server.serving {
        ServerView { registry: Seq::empty(), serving: false, starting: false, ..not_running(server) }
    } else {
        server
    }
}

/// What `stop` asks of its caller.
pub open spec fn stop_plan(server: ServerView) -> StopPlanView {
    if server.serving {
        StopPlanView::Shutdown {
            remove: upload_paths(server.registry, server.storage_dir),
            storage_dir: server.storage_dir,
        }
    } else {
        StopPlanView::NotRunning
    }
}

/// Whether a server that is running, or starting, holds its cancellation
/// handle, and a server that is starting is not running yet.
pub open spec fn consistent(server: ServerView) -> bool {
    &&& server.info.running ==> server.serving
    &&& server.starting ==> server.serving && !server.info.running
}

/// Stopping. A stopped server is not running; stopping it again changes
/// nothing and asks nothing of the caller.
pub proof fn lemma_stop_is_final(server: ServerView)
    requires
        consistent(server),
    ensures
        !stopped(server).info.running,
        !stopped(server).serving,
        !stopped(server).starting,
        stopped(stopped(server)) == stopped(server),
        stop_plan(stopped(server)) == StopPlanView::NotRunning,
        !server.serving ==> stopped(server) == server && stop_plan(server) == StopPlanView::NotRunning,
{
}

/// A failed start. A stopped server that starts and then learns that the
/// storage directory could not be created, or the socket not be bound, is
/// as it was before the start: stopped, with the status and the storage
/// directory it had, whatever the configuration of the attempt said.
pub proof fn lemma_failed_start_changes_nothing(server: ServerView, config: ConfigView)
    requires
        consistent(server),
        !server.serving,
    ensures
        start_plan(server, config) == StartPlanView::Launch(launch_plan(config)),
        starting(server).starting,
        starting(server).info == server.info,
        starting(server).storage_dir == server.storage_dir,
        start_undone(starting(server)) == server,
        !start_undone(starting(server)).info.running,
{
}

/// Starting. A server whose start has succeeded is running, with the
/// address and port of the configuration; starting it again changes nothing
/// and asks nothing of the caller, whatever the configuration says by then.
pub proof fn lemma_start_twice(
    server: ServerView,
    config: ConfigView,
    ip: Option<Seq<char>>,
    later_config: ConfigView,
)
    requires
        consistent(server),
        !server.serving,
    ensures
        start_confirmed(starting(server), config, ip).info == info_for(config, ip, true),
        start_confirmed(starting(server), config, ip).storage_dir == config.storage_dir,
        start_confirmed(starting(server), config, ip).registry == server.registry,
        starting(start_confirmed(starting(server), config, ip)) == start_confirmed(
            starting(server),
            config,
            ip,
        ),
        start_plan(start_confirmed(starting(server), config, ip), later_config)
            == StartPlanView::AlreadyRunning,
        start_plan(starting(server), later_config) == StartPlanView::AlreadyRunning,
{
}

/// Asks `local_ip_address::local_ip` for this host's IPv4 address on the
/// local network and renders it as text; `None` when the lookup fails. The
/// answer depends on the host's network interfaces, so nothing is claimed of it.
#[verifier::external_body]
fn detect_local_ip() -> (ip: Option<String>) {
    match local_ip_address::local_ip() {
        Ok(address) => Some(address.to_string()),
        Err(_) => None,
    }
}

impl View for FileServer {
    type V = ServerView;

    closed spec fn view(&self) -> ServerView {
        ServerView {
            registry: self.state.file_list@,
            storage_dir: self.state.temp_dir@,
            info: self.server_info@,
            serving: self.serving || self.starting || self.server_info.running,
            starting: self.starting && !self.server_info.running,
        }
    }
}

impl FileServer {
    /// A new server for `config`, on a host where the discovery of the local
    /// address gave `ip`.
    pub fn with_address(config: &ConfigData, ip: Option<String>) -> (server: Self)
        ensures
            server@ == initial_server(config@, text_view(ip)),
    {
        FileServer {
            state: AppState { file_list: FileList::new(), temp_dir: config.storage.storage_dir.clone() },
            server_info: ServerInfo::describe(config, ip, false),
            serving: false,
            starting: false,
        }
    }

    /// A new server for `config`. The address that clients are told is looked
    /// up on this host; whatever the lookup gives, the server is stopped, its
    /// registry is empty, and its URL names that address and the configured port.
    pub fn new(config: &ConfigData) -> (server: Self)
        ensures
            exists|ip: Option<Seq<char>>| server@ == initial_server(config@, ip),
    {
        let ip: Option<String> = detect_local_ip();
        let server = FileServer::with_address(config, ip);
        assert(server@ == initial_server(config@, text_view(ip)));
        server
    }

    /// Every server is consistent: while its status says running, it holds
    /// the handle that cancels its serving task.
    pub proof fn lemma_consistent(&self)
        ensures
            consistent(self@),
    {
    }

    /// A copy of the status.
    pub fn get_server_info(&self) -> (info: ServerInfo)
        ensures
            info@ == self@.info,
    {
        self.server_info.clone()
    }

    /// Whether the server holds the handle that cancels its serving task.
    pub fn is_serving(&self) -> (serving: bool)
        ensures
            serving == self@.serving,
            self@.info.running ==> serving,
    {
        self.serving || self.starting || self.server_info.running
    }

    /// Whether a start is under way.
    pub fn is_starting(&self) -> (starting: bool)
        ensures
            starting == self@.starting,
            starting ==> self@.serving && !self@.info.running,
    {
        self.starting && !self.server_info.running
    }

    /// The storage directory.
    pub fn storage_dir(&self) -> (dir: &str)
        ensures
            dir@ == self@.storage_dir,
    {
        self.state.temp_dir.as_str()
    }

    /// Starts the server: takes the handle that cancels the serving task and
    /// says what serving needs. The status and the storage directory stay as
    /// they are until [`FileServer::start_succeeded`] is told that the plan
    /// has been carried out; [`FileServer::start_failed`] gives the handle
    /// up again. Starting a serving server changes nothing.
    pub fn start(&mut self, config: &ConfigData) -> (plan: StartPlan)
        ensures
            final(self)@ == starting(old(self)@),
            plan@ == start_plan(old(self)@, config@),
    {
        if self.is_serving() {
            return StartPlan::AlreadyRunning;
        }
        self.starting = true;
        StartPlan::Launch(
            LaunchPlan {
                bind_address: bind_address_of(config.server.bind_all_interfaces),
                port: config.server.port,
                body_limit: body_limit_of(config.server.upload_chunk_size_mb),
                storage_dir: config.storage.storage_dir.clone(),
            },
        )
    }

    /// Notes that the plan of a start has been carried out, on a host where
    /// the discovery of the local address gave `ip`: the server is running,
    /// with the storage directory, address and port of `config`. Where no
    /// start is under way nothing changes.
    pub fn start_succeeded_with_address(&mut self, config: &ConfigData, ip: Option<String>)
        ensures
            final(self)@ == start_confirmed(old(self)@, config@, text_view(ip)),
    {
        if self.is_starting() {
            self.starting = false;
            self.serving = true;
            self.state.temp_dir = config.storage.storage_dir.clone();
            self.server_info = ServerInfo::describe(config, ip, true);
        }
    }

    /// Notes that the plan of a start has been carried out. The address that
    /// clients are told is looked up on this host; whatever the lookup
    /// gives, the server is running, with the storage directory and port of
    /// `config`. Where no start is under way nothing changes.
    pub fn start_succeeded(&mut self, config: &ConfigData)
        ensures
            exists|ip: Option<Seq<char>>| final(self)@ == start_confirmed(old(self)@, config@, ip),
    {
        let ip: Option<String> = detect_local_ip();
        self.start_succeeded_with_address(config, ip);
        assert(self@ == start_confirmed(old(self)@, config@, text_view(ip)));
    }

    /// Takes back a start whose plan could not be carried out: the storage
    /// directory could not be created or the socket could not be bound. The
    /// handle is given up and the server is as it was before the start.
    /// Where no start is under way nothing changes.
    pub fn start_failed(&mut self)
        ensures
            final(self)@ == start_undone(old(self)@),
    {
        if self.is_starting() {
            self.starting = false;
            self.serving = false;
        }
    }

    /// Notes that the serving task has failed: the status is no longer
    /// running. The cancellation handle is kept until the server is stopped.
    pub fn server_failed(&mut self)
        ensures
            final(self)@ == not_running(old(self)@),
    {
        self.serving = self.is_serving();
        self.starting = self.is_starting();
        self.server_info.running = false;
    }

    /// Stops the server. A server that is not serving stays as it is. A
    /// serving one is no longer running, its registry is emptied, and the
    /// plan names the uploaded files to remove.
    pub fn stop(&mut self) -> (plan: StopPlan)
        ensures
            final(self)@ == stopped(old(self)@),
            plan@ == stop_plan(old(self)@),
            !final(self)@.info.running,
    {
        if !self.is_serving() {
            return StopPlan::NotRunning;
        }
        self.server_info.running = false;
        self.serving = false;
        self.starting = false;
        let remove: Vec<String> = upload_paths_of(&self.state.file_list, self.state.temp_dir.as_str());
        self.state.file_list.clear();
        StopPlan::Shutdown { remove, storage_dir: self.state.temp_dir.clone() }
    }

    /// A copy of the registry.
    pub fn get_file_list(&self) -> (list: FileList)
        ensures
            list@ == self@.registry,
    {
        self.state.file_list.snapshot()
    }

    /// Replaces the registry.
    pub fn set_file_list(&mut self, list: FileList)
        ensures
            final(self)@ == (ServerView { registry: list@, ..old(self)@ }),
    {
        self.state.file_list = list;
    }

    /// Starts handling an upload request in this server's storage directory.
    pub fn begin_upload(&self, request: UploadRequest) -> (begun: (UploadSession, StorageAction))
        ensures
            begun.0@ == initial_session(self@.storage_dir, request@),
            begun.1@ == first_action(begun.0@),
    {
        UploadSession::begin(self.state.temp_dir.as_str(), request)
    }

    /// Brings the outcome of an upload session to the registry and gives the
    /// reply to the client.
    pub fn complete_upload(&mut self, outcome: UploadOutcome) -> (reply: Result<FileInfo, TransferError>)
        ensures
            final(self)@ == (ServerView {
                registry: registry_after(old(self)@.registry, outcome@),
                ..old(self)@
            }),
            reply_view(reply) == reply_of(outcome@),
    {
        outcome.commit(&mut self.state.file_list)
    }

    /// The plan to download the file `id`.
    pub fn download(&self, id: &str) -> (plan: Result<DownloadPlan, TransferError>)
        ensures
            match plan {
                Ok(p) => exists|i: int|
                    is_first_with_id(self@.registry, id@, i) && p@ == plan_for(self@.registry[i]),
                Err(e) => e == TransferError::NotFound && !has_id(self@.registry, id@),
            },
    {
        let plan = plan_download(&self.state.file_list, id);
        proof {
            if plan is Ok {
                let p = plan->Ok_0;
                let i = choose|i: int|
                    is_first_with_id(self.state.file_list@, id@, i) && p@ == plan_for(
                        self.state.file_list@[i],
                    );
                assert(is_first_with_id(self@.registry, id@, i) && p@ == plan_for(self@.registry[i]));
            }
        }
        plan
    }
}

} // verus!
