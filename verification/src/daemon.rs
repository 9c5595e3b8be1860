use crate::error::{pretty_text, PrettyErr};
use crate::text::{appended, texts};
use crate::tls::{
    configure, generate_certificate, generated, generation_failed, reading_error, set_up,
    set_up_failed, unusable_key_text, Format,
};
use vstd::pervasive::unreached;
use vstd::prelude::*;
use vstd::slice::slice_to_vec;

verus! {

/// Where the daemon leaves the number of its process.
pub const SAFE_AUTHD_PID_FILE: &'static str = "/tmp/safe-authd.pid";

/// Where the standard output of the daemon goes.
pub const SAFE_AUTHD_STDOUT_FILE: &'static str = "/tmp/safe-authd.out";

/// Where the standard error of the daemon goes.
pub const SAFE_AUTHD_STDERR_FILE: &'static str = "/tmp/safe-authd.err";

/// The working directory of the daemon.
pub const WORKING_DIRECTORY: &'static str = "/tmp";

/// The permissions that files made by the daemon lack: all.
pub const UMASK: u32 = 0o777;

/// How the daemon is to be started. `S` is the type of texts: `String`, or `Seq<char>` where
/// contracts speak of it.
pub struct StartOptions<S> {
    /// Whether the TLS keys of connections are logged.
    pub keylog: bool,
    /// Whether clients must prove that they can receive packets before they are served.
    pub stateless_retry: bool,
    /// The paths of a private key and of its chain of certificates, both in PEM. Where there are
    /// none, the daemon uses credentials of its own.
    pub credentials: Option<(S, S)>,
    /// The address to listen on.
    pub listen: S,
}

/// What the program can be told to do.
pub enum Command<S> {
    Start { options: StartOptions<S> },
    Stop,
    Restart { listen: S },
    Update,
}

/// The files in which the daemon keeps its credentials.
#[derive(Clone, Copy, PartialEq, Eq, Structural)]
pub enum DataFile {
    Certificate,
    Key,
}

impl DataFile {
    /// The name of the file.
    pub open spec fn text(self) -> Seq<char> {
        match self {
            DataFile::Certificate => "cert.der"@,
            DataFile::Key => "key.der"@,
        }
    }

    /// The name of the file, in the directory for local data.
    pub fn name(self) -> (name: &'static str)
        ensures
            name@ == self.text(),
    {
        match self {
            DataFile::Certificate => "cert.der",
            DataFile::Key => "key.der",
        }
    }
}

/// What is still to be known of a start while it is under way.
pub struct Plan<S> {
    /// Whether the daemon is being restarted.
    pub restart: bool,
    pub keylog: bool,
    pub stateless_retry: bool,
    pub listen: S,
}

/// How far a command has come. While the daemon is being stopped, `restart` holds the address on
/// which it is to be started again, if it is; `B` is the type of byte strings.
pub enum Phase<S, B> {
    Updating,
    ReadingPid { restart: Option<S> },
    Killing { restart: Option<S> },
    /// The output of the program that kills is being printed; `killed` tells whether it succeeded.
    Relaying { restart: Option<S>, killed: bool },
    /// The private key that was given is being read.
    ReadingGivenKey { plan: Plan<S>, chain_path: S },
    /// The chain of certificates that was given is being read.
    ReadingGivenChain { plan: Plan<S>, key: B },
    ReadingCertificate { plan: Plan<S> },
    ReadingKey { plan: Plan<S>, cert: B },
    Generating { plan: Plan<S> },
    CreatingDirectory { plan: Plan<S>, cert: B, key: B },
    WritingCertificate { plan: Plan<S>, cert: B, key: B },
    WritingKey { plan: Plan<S>, cert: B, key: B },
    Configuring { plan: Plan<S> },
    Daemonising { plan: Plan<S> },
    Serving { plan: Plan<S> },
    Finished,
}

/// What is to be done next. `L` is the type of lists of texts.
pub enum Task<S, B, L> {
    /// Update the program.
    Update,
    /// Read the file with the number of the process.
    ReadPid { file: S },
    /// Run a program and wait for it.
    Execute { program: S, arguments: L },
    /// Write bytes to the standard output.
    Print { bytes: B },
    /// Read the file at a path.
    ReadPath { path: S },
    /// Read a file with credentials in the directory for local data.
    ReadFile { file: DataFile },
    /// Make a certificate and a key.
    Generate,
    /// Create the directory for local data.
    CreateDirectory,
    /// Write a file with credentials to the directory for local data.
    WriteFile { file: DataFile, bytes: B },
    /// Set up an endpoint with these credentials and options.
    Configure { cert: B, key: B, format: Format, keylog: bool, stateless_retry: bool },
    /// Go into the background: leave the number of the process in `pid_file`, change to
    /// `working_directory`, set the file mode mask, and let the standard output and the standard
    /// error go to files, which are emptied first.
    Daemonise { pid_file: S, working_directory: S, umask: u32, stdout: S, stderr: S },
    /// Bind the endpoint to an address and serve connections.
    Serve { listen: S },
    /// Nothing: the command has ended.
    Finish { result: Result<(), S> },
}

/// What came of the last task.
pub enum Report<S, B> {
    Done,
    Failed { reason: S },
    /// The file is not there.
    Missing,
    Text { text: S },
    Bytes { bytes: B },
    /// The program that was run has ended.
    Exited { success: bool, output: B, errors: B },
    Generated { cert: B, key: B },
}

/// One turn of a command: what is printed on the standard error, then what is printed on the
/// standard output, then where the command is, and what is to be done.
pub struct Turn<S, B, L> {
    pub errors: L,
    pub lines: L,
    pub phase: Phase<S, B>,
    pub task: Task<S, B, L>,
}

// What contracts speak of.

/// A text that may be missing.
pub open spec fn maybe_text(text: Option<String>) -> Option<Seq<char>> {
    match text {
        None => None,
        Some(text) => Some(text@),
    }
}

impl View for StartOptions<String> {
    type V = StartOptions<Seq<char>>;

    open spec fn view(&self) -> StartOptions<Seq<char>> {
        StartOptions {
            keylog: self.keylog,
            stateless_retry: self.stateless_retry,
            credentials: match self.credentials {
                None => None,
                Some((key_path, chain_path)) => Some((key_path@, chain_path@)),
            },
            listen: self.listen@,
        }
    }
}

impl View for Command<String> {
    type V = Command<Seq<char>>;

    open spec fn view(&self) -> Command<Seq<char>> {
        match *self {
            Command::Start { options } => Command::Start { options: options@ },
            Command::Stop => Command::Stop,
            Command::Restart { listen } => Command::Restart { listen: listen@ },
            Command::Update => Command::Update,
        }
    }
}

impl View for Plan<String> {
    type V = Plan<Seq<char>>;

    open spec fn view(&self) -> Plan<Seq<char>> {
        Plan {
            restart: self.restart,
            keylog: self.keylog,
            stateless_retry: self.stateless_retry,
            listen: self.listen@,
        }
    }
}

impl View for Phase<String, Vec<u8>> {
    type V = Phase<Seq<char>, Seq<u8>>;

    open spec fn view(&self) -> Phase<Seq<char>, Seq<u8>> {
        match *self {
            Phase::Updating => Phase::Updating,
            Phase::ReadingPid { restart } => Phase::ReadingPid { restart: maybe_text(restart) },
            Phase::Killing { restart } => Phase::Killing { restart: maybe_text(restart) },
            Phase::Relaying { restart, killed } => Phase::Relaying {
                restart: maybe_text(restart),
                killed,
            },
            Phase::ReadingGivenKey { plan, chain_path } => Phase::ReadingGivenKey {
                plan: plan@,
                chain_path: chain_path@,
            },
            Phase::ReadingGivenChain { plan, key } => Phase::ReadingGivenChain {
                plan: plan@,
                key: key@,
            },
            Phase::ReadingCertificate { plan } => Phase::ReadingCertificate { plan: plan@ },
            Phase::ReadingKey { plan, cert } => Phase::ReadingKey { plan: plan@, cert: cert@ },
            Phase::Generating { plan } => Phase::Generating { plan: plan@ },
            Phase::CreatingDirectory { plan, cert, key } => Phase::CreatingDirectory {
                plan: plan@,
                cert: cert@,
                key: key@,
            },
            Phase::WritingCertificate { plan, cert, key } => Phase::WritingCertificate {
                plan: plan@,
                cert: cert@,
                key: key@,
            },
            Phase::WritingKey { plan, cert, key } => Phase::WritingKey {
                plan: plan@,
                cert: cert@,
                key: key@,
            },
            Phase::Configuring { plan } => Phase::Configuring { plan: plan@ },
            Phase::Daemonising { plan } => Phase::Daemonising { plan: plan@ },
            Phase::Serving { plan } => Phase::Serving { plan: plan@ },
            Phase::Finished => Phase::Finished,
        }
    }
}

/// The result of a command, in texts as contracts speak of them.
pub open spec fn result_text(result: Result<(), String>) -> Result<(), Seq<char>> {
    match result {
        Ok(()) => Ok(()),
        Err(text) => Err(text@),
    }
}

impl View for Task<String, Vec<u8>, Vec<String>> {
    type V = Task<Seq<char>, Seq<u8>, Seq<Seq<char>>>;

    open spec fn view(&self) -> Task<Seq<char>, Seq<u8>, Seq<Seq<char>>> {
        match *self {
            Task::Update => Task::Update,
            Task::ReadPid { file } => Task::ReadPid { file: file@ },
            Task::Execute { program, arguments } => Task::Execute {
                program: program@,
                arguments: texts(arguments@),
            },
            Task::Print { bytes } => Task::Print { bytes: bytes@ },
            Task::ReadPath { path } => Task::ReadPath { path: path@ },
            Task::ReadFile { file } => Task::ReadFile { file },
            Task::Generate => Task::Generate,
            Task::CreateDirectory => Task::CreateDirectory,
            Task::WriteFile { file, bytes } => Task::WriteFile { file, bytes: bytes@ },
            Task::Configure { cert, key, format, keylog, stateless_retry } => Task::Configure {
                cert: cert@,
                key: key@,
                format,
                keylog,
                stateless_retry,
            },
            Task::Daemonise { pid_file, working_directory, umask, stdout, stderr } => {
                Task::Daemonise {
                    pid_file: pid_file@,
                    working_directory: working_directory@,
                    umask,
                    stdout: stdout@,
                    stderr: stderr@,
                }
            },
            Task::Serve { listen } => Task::Serve { listen: listen@ },
            Task::Finish { result } => Task::Finish { result: result_text(result) },
        }
    }
}

impl View for Report<String, Vec<u8>> {
    type V = Report<Seq<char>, Seq<u8>>;

    open spec fn view(&self) -> Report<Seq<char>, Seq<u8>> {
        match *self {
            Report::Done => Report::Done,
            Report::Failed { reason } => Report::Failed { reason: reason@ },
            Report::Missing => Report::Missing,
            Report::Text { text } => Report::Text { text: text@ },
            Report::Bytes { bytes } => Report::Bytes { bytes: bytes@ },
            Report::Exited { success, output, errors } => Report::Exited {
                success,
                output: output@,
                errors: errors@,
            },
            Report::Generated { cert, key } => Report::Generated { cert: cert@, key: key@ },
        }
    }
}

impl View for Turn<String, Vec<u8>, Vec<String>> {
    type V = Turn<Seq<char>, Seq<u8>, Seq<Seq<char>>>;

    open spec fn view(&self) -> Turn<Seq<char>, Seq<u8>, Seq<Seq<char>>> {
        Turn {
            errors: texts(self.errors@),
            lines: texts(self.lines@),
            phase: self.phase@,
            task: self.task@,
        }
    }
}

// The turns of a command.

/// A turn in which nothing is printed.
pub open spec fn silent(
    phase: Phase<Seq<char>, Seq<u8>>,
    task: Task<Seq<char>, Seq<u8>, Seq<Seq<char>>>,
) -> Turn<Seq<char>, Seq<u8>, Seq<Seq<char>>> {
    Turn { errors: seq![], lines: seq![], phase, task }
}

/// The end of a command that failed.
pub open spec fn failing(error: Seq<char>) -> Turn<Seq<char>, Seq<u8>, Seq<Seq<char>>> {
    silent(Phase::Finished, Task::Finish { result: Err(error) })
}

/// The end of a command that has nothing more to say.
pub open spec fn ending() -> Turn<Seq<char>, Seq<u8>, Seq<Seq<char>>> {
    silent(Phase::Finished, Task::Finish { result: Ok(()) })
}

/// The end of starting the daemon, with `errors` on the standard error.
pub open spec fn started(restart: bool, errors: Seq<Seq<char>>) -> Turn<Seq<char>, Seq<u8>, Seq<Seq<char>>> {
    Turn {
        errors,
        lines: if restart {
            seq!["Success, safe-authd restarted!"@]
        } else {
            seq![]
        },
        phase: Phase::Finished,
        task: Task::Finish { result: Ok(()) },
    }
}

/// The first turn of starting the daemon, where `before` is printed first. Credentials that are
/// given are read, the private key first; where there are none, the daemon reads its own.
pub open spec fn starting(
    plan: Plan<Seq<char>>,
    credentials: Option<(Seq<char>, Seq<char>)>,
    before: Seq<Seq<char>>,
) -> Turn<Seq<char>, Seq<u8>, Seq<Seq<char>>> {
    let lines = before.push("Starting SAFE Authenticator daemon..."@);
    match credentials {
        None => Turn {
            errors: seq![],
            lines,
            phase: Phase::ReadingCertificate { plan },
            task: Task::ReadFile { file: DataFile::Certificate },
        },
        Some((key_path, chain_path)) => Turn {
            errors: seq![],
            lines,
            phase: Phase::ReadingGivenKey { plan, chain_path },
            task: Task::ReadPath { path: key_path },
        },
    }
}

/// The first turn of stopping the daemon, which is to be started again on the address `restart`, if
/// there is one.
pub open spec fn stopping(restart: Option<Seq<char>>) -> Turn<Seq<char>, Seq<u8>, Seq<Seq<char>>> {
    Turn {
        errors: seq![],
        lines: seq!["Stopping SAFE Authenticator daemon..."@],
        phase: Phase::ReadingPid { restart },
        task: Task::ReadPid { file: SAFE_AUTHD_PID_FILE@ },
    }
}

/// How the daemon is started with these options.
pub open spec fn start_plan(options: StartOptions<Seq<char>>) -> Plan<Seq<char>> {
    Plan {
        restart: false,
        keylog: options.keylog,
        stateless_retry: options.stateless_retry,
        listen: options.listen,
    }
}

/// How the daemon is started again on an address.
pub open spec fn restart_plan(listen: Seq<char>) -> Plan<Seq<char>> {
    Plan { restart: true, keylog: false, stateless_retry: false, listen }
}

/// The first turn of a command.
pub open spec fn first(command: Command<Seq<char>>) -> Turn<Seq<char>, Seq<u8>, Seq<Seq<char>>> {
    match command {
        Command::Start { options } => starting(start_plan(options), options.credentials, seq![]),
        Command::Stop => stopping(None),
        Command::Restart { listen } => stopping(Some(listen)),
        Command::Update => silent(Phase::Updating, Task::Update),
    }
}

/// Setting up an endpoint.
pub open spec fn configuring(
    plan: Plan<Seq<char>>,
    cert: Seq<u8>,
    key: Seq<u8>,
    format: Format,
) -> Turn<Seq<char>, Seq<u8>, Seq<Seq<char>>> {
    silent(
        Phase::Configuring { plan },
        Task::Configure {
            cert,
            key,
            format,
            keylog: plan.keylog,
            stateless_retry: plan.stateless_retry,
        },
    )
}

/// Going into the background.
pub open spec fn daemonising(plan: Plan<Seq<char>>) -> Turn<Seq<char>, Seq<u8>, Seq<Seq<char>>> {
    silent(
        Phase::Daemonising { plan },
        Task::Daemonise {
            pid_file: SAFE_AUTHD_PID_FILE@,
            working_directory: WORKING_DIRECTORY@,
            umask: UMASK,
            stdout: SAFE_AUTHD_STDOUT_FILE@,
            stderr: SAFE_AUTHD_STDERR_FILE@,
        },
    )
}

/// Whether `report` can come of the task that was given on entering `phase`.
pub open spec fn accepts(
    phase: Phase<Seq<char>, Seq<u8>>,
    report: Report<Seq<char>, Seq<u8>>,
) -> bool {
    match phase {
        Phase::ReadingPid { .. } => report is Text || report is Failed,
        Phase::Killing { .. } => report is Exited || report is Failed,
        Phase::ReadingGivenKey { .. }
        | Phase::ReadingGivenChain { .. } => report is Bytes || report is Failed,
        Phase::ReadingCertificate { .. }
        | Phase::ReadingKey { .. } => report is Bytes || report is Missing || report is Failed,
        Phase::Generating { .. } => report is Generated || report is Failed,
        Phase::Finished => false,
        _ => report is Done || report is Failed,
    }
}

/// The turn that follows when the last task failed.
pub open spec fn after_failure(phase: Phase<Seq<char>, Seq<u8>>, reason: Seq<char>) -> Turn<Seq<char>, Seq<u8>, Seq<Seq<char>>> {
    match phase {
        Phase::Updating => failing("Error performing update: "@ + reason),
        Phase::ReadingGivenKey { .. } => failing(
            pretty_text(seq!["Failed to read private key"@, reason]),
        ),
        Phase::ReadingGivenChain { .. } => failing(
            pretty_text(seq!["Failed to read certificate chain"@, reason]),
        ),
        Phase::ReadingCertificate { .. } | Phase::ReadingKey { .. } => failing(
            "Failed to read certificate: "@ + reason,
        ),
        Phase::CreatingDirectory { .. } => failing(
            pretty_text(seq!["Failed to create certificate directory"@, reason]),
        ),
        Phase::WritingCertificate { .. } => failing(
            pretty_text(seq!["Failed to write certificate"@, reason]),
        ),
        Phase::WritingKey { .. } => failing(
            pretty_text(seq!["Failed to write private key"@, reason]),
        ),
        Phase::Daemonising { plan } => started(plan.restart, seq!["Error, "@ + reason]),
        _ => failing(reason),
    }
}

/// The turn that follows when the last task was done, where nothing more is to be said of it.
pub open spec fn after_success(phase: Phase<Seq<char>, Seq<u8>>) -> Turn<Seq<char>, Seq<u8>, Seq<Seq<char>>> {
    match phase {
        Phase::Relaying { restart, killed } => {
            if !killed {
                failing("Failed to stop safe-authd daemon"@)
            } else {
                match restart {
                    Some(listen) => starting(
                        restart_plan(listen),
                        None,
                        seq!["Success, safe-authd stopped!"@],
                    ),
                    None => Turn {
                        errors: seq![],
                        lines: seq!["Success, safe-authd stopped!"@],
                        phase: Phase::Finished,
                        task: Task::Finish { result: Ok(()) },
                    },
                }
            }
        },
        Phase::CreatingDirectory { plan, cert, key } => silent(
            Phase::WritingCertificate { plan, cert, key },
            Task::WriteFile { file: DataFile::Certificate, bytes: cert },
        ),
        Phase::WritingCertificate { plan, cert, key } => silent(
            Phase::WritingKey { plan, cert, key },
            Task::WriteFile { file: DataFile::Key, bytes: key },
        ),
        Phase::WritingKey { plan, cert, key } => configuring(plan, cert, key, Format::Der),
        Phase::Configuring { plan } => daemonising(plan),
        Phase::Daemonising { plan } => Turn {
            errors: seq![],
            lines: seq!["Success, SAFE Authenticator daemonised!"@],
            phase: Phase::Serving { plan },
            task: Task::Serve { listen: plan.listen },
        },
        Phase::Serving { plan } => started(plan.restart, seq![]),
        _ => ending(),
    }
}

/// The turn that follows when a file was read.
pub open spec fn after_reading(phase: Phase<Seq<char>, Seq<u8>>, bytes: Seq<u8>) -> Turn<Seq<char>, Seq<u8>, Seq<Seq<char>>> {
    match phase {
        Phase::ReadingGivenKey { plan, chain_path } => silent(
            Phase::ReadingGivenChain { plan, key: bytes },
            Task::ReadPath { path: chain_path },
        ),
        Phase::ReadingGivenChain { plan, key } => configuring(plan, bytes, key, Format::Pem),
        Phase::ReadingCertificate { plan } => silent(
            Phase::ReadingKey { plan, cert: bytes },
            Task::ReadFile { file: DataFile::Key },
        ),
        Phase::ReadingKey { plan, cert } => configuring(plan, cert, bytes, Format::Der),
        _ => ending(),
    }
}

/// The turn that follows on `report`.
pub open spec fn next(
    phase: Phase<Seq<char>, Seq<u8>>,
    report: Report<Seq<char>, Seq<u8>>,
) -> Turn<Seq<char>, Seq<u8>, Seq<Seq<char>>> {
    match report {
        Report::Done => after_success(phase),
        Report::Failed { reason } => after_failure(phase, reason),
        Report::Missing => match phase {
            Phase::ReadingCertificate { plan } => silent(
                Phase::Generating { plan },
                Task::Generate,
            ),
            Phase::ReadingKey { plan, .. } => silent(Phase::Generating { plan }, Task::Generate),
            _ => ending(),
        },
        Report::Text { text } => match phase {
            Phase::ReadingPid { restart } => silent(
                Phase::Killing { restart },
                Task::Execute { program: "kill"@, arguments: seq!["-9"@, text] },
            ),
            _ => ending(),
        },
        Report::Bytes { bytes } => after_reading(phase, bytes),
        Report::Exited { success, output, errors } => match phase {
            Phase::Killing { restart } => silent(
                Phase::Relaying { restart, killed: success },
                Task::Print {
                    bytes: if success {
                        output
                    } else {
                        errors
                    },
                },
            ),
            _ => ending(),
        },
        Report::Generated { cert, key } => match phase {
            Phase::Generating { plan } => silent(
                Phase::CreatingDirectory { plan, cert, key },
                Task::CreateDirectory,
            ),
            _ => ending(),
        },
    }
}

/// Whether `turn` and `endpoint` are what comes of `mid`, when a certificate that `mid` asks for is
/// made, or an endpoint that it asks for is set up.
pub open spec fn advanced(mid: Turn<Seq<char>, Seq<u8>, Seq<Seq<char>>>, turn: Turn<Seq<char>, Seq<u8>, Seq<Seq<char>>>, endpoint: Option<quinn::EndpointBuilder>) -> bool {
    match mid.task {
        Task::Generate => endpoint is None && {
            ||| exists|cert: Seq<u8>, key: Seq<u8>|
                #[trigger] generated(cert, key) && turn == next(
                    mid.phase,
                    Report::Generated { cert, key },
                )
            ||| exists|reason: Seq<char>|
                #[trigger] generation_failed(reason) && turn == next(
                    mid.phase,
                    Report::Failed { reason },
                )
        },
        Task::Configure { cert, key, format, keylog, stateless_retry } => match endpoint {
            Some(builder) => {
                &&& reading_error(cert, key, format) is None
                &&& set_up(builder, cert, key, format, keylog, stateless_retry)
                &&& turn == next(mid.phase, Report::Done)
            },
            None => match reading_error(cert, key, format) {
                Some(reason) => turn == next(mid.phase, Report::Failed { reason }),
                None => {
                    &&& set_up_failed(cert, key, format, keylog, stateless_retry)
                    &&& turn == next(mid.phase, Report::Failed { reason: unusable_key_text() })
                },
            },
        },
        _ => endpoint is None && turn == mid,
    }
}

/// A single text.
fn one(text: &str) -> (list: Vec<String>)
    ensures
        texts(list@) == seq![text@],
{
    let mut list: Vec<String> = Vec::new();
    list.push(text.to_string());
    assert(texts(list@) =~= seq![text@]);
    list
}

/// No text.
fn none() -> (list: Vec<String>)
    ensures
        texts(list@) == Seq::<Seq<char>>::empty(),
{
    let list: Vec<String> = Vec::new();
    assert(texts(list@) =~= Seq::<Seq<char>>::empty());
    list
}

fn silently(phase: Phase<String, Vec<u8>>, task: Task<String, Vec<u8>, Vec<String>>) -> (turn: Turn<String, Vec<u8>, Vec<String>>)
    ensures
        turn@ == silent(phase@, task@),
{
    Turn { errors: none(), lines: none(), phase, task }
}

fn fail(error: String) -> (turn: Turn<String, Vec<u8>, Vec<String>>)
    ensures
        turn@ == failing(error@),
{
    silently(Phase::Finished, Task::Finish { result: Err(error) })
}

fn end() -> (turn: Turn<String, Vec<u8>, Vec<String>>)
    ensures
        turn@ == ending(),
{
    silently(Phase::Finished, Task::Finish { result: Ok(()) })
}

/// The end of a command that failed for the reason `reason`, in the course of what `context` says.
fn fail_in(context: &str, reason: String) -> (turn: Turn<String, Vec<u8>, Vec<String>>)
    ensures
        turn@ == failing(pretty_text(seq![context@, reason@])),
{
    let error = PrettyErr::new(reason).context(context.to_string());
    assert(error@ =~= seq![context@, reason@]);
    fail(error.to_string())
}

fn start_ended(restart: bool, errors: Vec<String>) -> (turn: Turn<String, Vec<u8>, Vec<String>>)
    ensures
        turn@ == started(restart, texts(errors@)),
{
    let lines = if restart {
        one("Success, safe-authd restarted!")
    } else {
        none()
    };
    Turn { errors, lines, phase: Phase::Finished, task: Task::Finish { result: Ok(()) } }
}

fn start_after(
    plan: Plan<String>,
    credentials: Option<(String, String)>,
    before: Vec<String>,
) -> (turn: Turn<String, Vec<u8>, Vec<String>>)
    ensures
        turn@ == starting(
            plan@,
            match credentials {
                None => None,
                Some((key_path, chain_path)) => Some((key_path@, chain_path@)),
            },
            texts(before@),
        ),
{
    let mut lines = before;
    let line = "Starting SAFE Authenticator daemon...".to_string();
    lines.push(line);
    assert(texts(lines@) =~= texts(before@).push(line@));
    match credentials {
        None => Turn {
            errors: none(),
            lines,
            phase: Phase::ReadingCertificate { plan },
            task: Task::ReadFile { file: DataFile::Certificate },
        },
        Some((key_path, chain_path)) => Turn {
            errors: none(),
            lines,
            phase: Phase::ReadingGivenKey { plan, chain_path },
            task: Task::ReadPath { path: key_path },
        },
    }
}

fn stop(restart: Option<String>) -> (turn: Turn<String, Vec<u8>, Vec<String>>)
    ensures
        turn@ == stopping(maybe_text(restart)),
{
    Turn {
        errors: none(),
        lines: one("Stopping SAFE Authenticator daemon..."),
        phase: Phase::ReadingPid { restart },
        task: Task::ReadPid { file: SAFE_AUTHD_PID_FILE.to_string() },
    }
}

/// The first turn of starting the daemon.
pub fn start_authd(options: StartOptions<String>) -> (turn: Turn<String, Vec<u8>, Vec<String>>)
    ensures
        turn@ == first(Command::Start { options: options@ }),
{
    let plan = Plan {
        restart: false,
        keylog: options.keylog,
        stateless_retry: options.stateless_retry,
        listen: options.listen,
    };
    start_after(plan, options.credentials, none())
}

/// The first turn of stopping a running daemon.
pub fn stop_authd() -> (turn: Turn<String, Vec<u8>, Vec<String>>)
    ensures
        turn@ == first(Command::Stop),
{
    stop(None)
}

/// The first turn of stopping a running daemon and starting it again, on the address `listen`.
pub fn restart_authd(listen: String) -> (turn: Turn<String, Vec<u8>, Vec<String>>)
    ensures
        turn@ == first(Command::Restart { listen: listen@ }),
{
    stop(Some(listen))
}

/// The first turn of a command.
pub fn run(command: Command<String>) -> (turn: Turn<String, Vec<u8>, Vec<String>>)
    ensures
        turn@ == first(command@),
{
    match command {
        Command::Start { options } => start_authd(options),
        Command::Stop => stop_authd(),
        Command::Restart { listen } => restart_authd(listen),
        Command::Update => silently(Phase::Updating, Task::Update),
    }
}

fn set_up_with(plan: Plan<String>, cert: Vec<u8>, key: Vec<u8>, format: Format) -> (turn: Turn<String, Vec<u8>, Vec<String>>)
    ensures
        turn@ == configuring(plan@, cert@, key@, format),
{
    let keylog = plan.keylog;
    let stateless_retry = plan.stateless_retry;
    silently(
        Phase::Configuring { plan },
        Task::Configure { cert, key, format, keylog, stateless_retry },
    )
}

fn go_into_background(plan: Plan<String>) -> (turn: Turn<String, Vec<u8>, Vec<String>>)
    ensures
        turn@ == daemonising(plan@),
{
    silently(
        Phase::Daemonising { plan },
        Task::Daemonise {
            pid_file: SAFE_AUTHD_PID_FILE.to_string(),
            working_directory: WORKING_DIRECTORY.to_string(),
            umask: UMASK,
            stdout: SAFE_AUTHD_STDOUT_FILE.to_string(),
            stderr: SAFE_AUTHD_STDERR_FILE.to_string(),
        },
    )
}

fn failed(phase: Phase<String, Vec<u8>>, reason: String) -> (turn: Turn<String, Vec<u8>, Vec<String>>)
    ensures
        turn@ == after_failure(phase@, reason@),
{
    match phase {
        Phase::Updating => fail(appended("Error performing update: ", reason.as_str())),
        Phase::ReadingGivenKey { .. } => fail_in("Failed to read private key", reason),
        Phase::ReadingGivenChain { .. } => fail_in("Failed to read certificate chain", reason),
        Phase::ReadingCertificate { .. } | Phase::ReadingKey { .. } => fail(
            appended("Failed to read certificate: ", reason.as_str()),
        ),
        Phase::CreatingDirectory { .. } => fail_in(
            "Failed to create certificate directory",
            reason,
        ),
        Phase::WritingCertificate { .. } => fail_in("Failed to write certificate", reason),
        Phase::WritingKey { .. } => fail_in("Failed to write private key", reason),
        Phase::Daemonising { plan } => start_ended(
            plan.restart,
            one(appended("Error, ", reason.as_str()).as_str()),
        ),
        _ => fail(reason),
    }
}

fn done(phase: Phase<String, Vec<u8>>) -> (turn: Turn<String, Vec<u8>, Vec<String>>)
    ensures
        turn@ == after_success(phase@),
{
    match phase {
        Phase::Relaying { restart, killed } => {
            if !killed {
                fail("Failed to stop safe-authd daemon".to_string())
            } else {
                match restart {
                    Some(listen) => start_after(
                        Plan { restart: true, keylog: false, stateless_retry: false, listen },
                        None,
                        one("Success, safe-authd stopped!"),
                    ),
                    None => Turn {
                        errors: none(),
                        lines: one("Success, safe-authd stopped!"),
                        phase: Phase::Finished,
                        task: Task::Finish { result: Ok(()) },
                    },
                }
            }
        },
        Phase::CreatingDirectory { plan, cert, key } => {
            let bytes = slice_to_vec(cert.as_slice());
            silently(
                Phase::WritingCertificate { plan, cert, key },
                Task::WriteFile { file: DataFile::Certificate, bytes },
            )
        },
        Phase::WritingCertificate { plan, cert, key } => {
            let bytes = slice_to_vec(key.as_slice());
            silently(
                Phase::WritingKey { plan, cert, key },
                Task::WriteFile { file: DataFile::Key, bytes },
            )
        },
        Phase::WritingKey { plan, cert, key } => set_up_with(plan, cert, key, Format::Der),
        Phase::Configuring { plan } => go_into_background(plan),
        Phase::Daemonising { plan } => {
            let listen = plan.listen.clone();
            Turn {
                errors: none(),
                lines: one("Success, SAFE Authenticator daemonised!"),
                phase: Phase::Serving { plan },
                task: Task::Serve { listen },
            }
        },
        Phase::Serving { plan } => start_ended(plan.restart, none()),
        _ => end(),
    }
}

fn read(phase: Phase<String, Vec<u8>>, bytes: Vec<u8>) -> (turn: Turn<String, Vec<u8>, Vec<String>>)
    ensures
        turn@ == after_reading(phase@, bytes@),
{
    match phase {
        Phase::ReadingGivenKey { plan, chain_path } => silently(
            Phase::ReadingGivenChain { plan, key: bytes },
            Task::ReadPath { path: chain_path },
        ),
        Phase::ReadingGivenChain { plan, key } => set_up_with(plan, bytes, key, Format::Pem),
        Phase::ReadingCertificate { plan } => silently(
            Phase::ReadingKey { plan, cert: bytes },
            Task::ReadFile { file: DataFile::Key },
        ),
        Phase::ReadingKey { plan, cert } => set_up_with(plan, cert, bytes, Format::Der),
        _ => end(),
    }
}

/// The turn that follows on `report`, which came of the task that was given on entering `phase`.
pub fn follow(phase: Phase<String, Vec<u8>>, report: Report<String, Vec<u8>>) -> (turn: Turn<String, Vec<u8>, Vec<String>>)
    requires
        accepts(phase@, report@),
    ensures
        turn@ == next(phase@, report@),
{
    match report {
        Report::Done => done(phase),
        Report::Failed { reason } => failed(phase, reason),
        Report::Missing => match phase {
            Phase::ReadingCertificate { plan } => silently(
                Phase::Generating { plan },
                Task::Generate,
            ),
            Phase::ReadingKey { plan, .. } => silently(Phase::Generating { plan }, Task::Generate),
            _ => unreached(),
        },
        Report::Text { text } => match phase {
            Phase::ReadingPid { restart } => {
                let mut arguments = one("-9");
                let ghost option = texts(arguments@);
                arguments.push(text);
                assert(texts(arguments@) =~= option.push(text@));
                assert(option.push(text@) =~= seq!["-9"@, text@]);
                silently(
                    Phase::Killing { restart },
                    Task::Execute { program: "kill".to_string(), arguments },
                )
            },
            _ => unreached(),
        },
        Report::Bytes { bytes } => read(phase, bytes),
        Report::Exited { success, output, errors } => match phase {
            Phase::Killing { restart } => silently(
                Phase::Relaying { restart, killed: success },
                Task::Print {
                    bytes: if success {
                        output
                    } else {
                        errors
                    },
                },
            ),
            _ => unreached(),
        },
        Report::Generated { cert, key } => match phase {
            Phase::Generating { plan } => silently(
                Phase::CreatingDirectory { plan, cert, key },
                Task::CreateDirectory,
            ),
            _ => unreached(),
        },
    }
}

/// The turn that follows on `report`, as `follow` has it, but for the making of certificates and
/// the setting up of endpoints: these are carried out, and the turn is the one that follows on
/// them. The endpoint that was set up is given with it.
pub fn advance(phase: Phase<String, Vec<u8>>, report: Report<String, Vec<u8>>) -> (r: (
    Turn<String, Vec<u8>, Vec<String>>,
    Option<quinn::EndpointBuilder>,
))
    requires
        accepts(phase@, report@),
    ensures
        advanced(next(phase@, report@), r.0@, r.1),
{
    let turn = follow(phase, report);
    let ghost mid = turn@;
    match turn.task {
        Task::Generate => {
            match generate_certificate() {
                Ok((cert, key)) => {
                    let ghost (c, k) = (cert@, key@);
                    let after = follow(turn.phase, Report::Generated { cert, key });
                    assert(generated(c, k) && after@ == next(
                        mid.phase,
                        Report::Generated { cert: c, key: k },
                    ));
                    (after, None)
                },
                Err(reason) => {
                    let ghost why = reason@;
                    let after = follow(turn.phase, Report::Failed { reason });
                    assert(generation_failed(why) && after@ == next(
                        mid.phase,
                        Report::Failed { reason: why },
                    ));
                    (after, None)
                },
            }
        },
        Task::Configure { cert, key, format, keylog, stateless_retry } => {
            match configure(cert.as_slice(), key.as_slice(), format, keylog, stateless_retry) {
                Ok(endpoint) => (follow(turn.phase, Report::Done), Some(endpoint)),
                Err(reason) => (follow(turn.phase, Report::Failed { reason }), None),
            }
        },
        _ => (turn, None),
    }
}

} // verus!
