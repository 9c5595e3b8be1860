use crate::daemon::{
    accepts, advance, advanced, first, follow, maybe_text, next, restart_plan, result_text, run,
    start_plan, Command, DataFile, Phase, Plan, Report, StartOptions, Task, Turn,
};
use crate::error::{law_context_in_front, pretty_text};
use crate::tls::{
    admits, issued_for, law_generated_for_localhost, law_streams_and_protocol, malformed_chain,
    not_issued_for, pem_key_error, set_up, Format, ALPN,
};
use vstd::prelude::*;

verus! {

/// The turn that a command has come to after `reports`.
pub open spec fn after(command: Command<Seq<char>>, reports: Seq<Report<Seq<char>, Seq<u8>>>) -> Turn<
    Seq<char>,
    Seq<u8>,
    Seq<Seq<char>>,
>
    decreases reports.len(),
{
    if reports.len() == 0 {
        first(command)
    } else {
        next(after(command, reports.drop_last()).phase, reports.last())
    }
}

/// Whether each of `reports` can come of the task before it.
pub open spec fn accepted(command: Command<Seq<char>>, reports: Seq<Report<Seq<char>, Seq<u8>>>) -> bool
    decreases reports.len(),
{
    reports.len() > 0 ==> accepted(command, reports.drop_last()) && accepts(
        after(command, reports.drop_last()).phase,
        reports.last(),
    )
}

/// The lines that a command prints on the standard output in the course of `reports`.
pub open spec fn printed(
    command: Command<Seq<char>>,
    reports: Seq<Report<Seq<char>, Seq<u8>>>,
) -> Seq<Seq<char>>
    decreases reports.len(),
{
    if reports.len() == 0 {
        first(command).lines
    } else {
        printed(command, reports.drop_last()) + after(command, reports).lines
    }
}

/// Whether a command has ended well after `reports`.
pub open spec fn succeeded(command: Command<Seq<char>>, reports: Seq<Report<Seq<char>, Seq<u8>>>) -> bool {
    after(command, reports).task matches Task::Finish { result: Ok(()) }
}

// Termination.

/// How many turns are left at most.
pub open spec fn turns_left(phase: Phase<Seq<char>, Seq<u8>>) -> nat {
    match phase {
        Phase::ReadingPid { .. } => 12,
        Phase::Killing { .. } => 11,
        Phase::Relaying { .. } => 10,
        Phase::ReadingCertificate { .. } | Phase::ReadingGivenKey { .. } => 9,
        Phase::ReadingKey { .. } | Phase::ReadingGivenChain { .. } => 8,
        Phase::Generating { .. } => 7,
        Phase::CreatingDirectory { .. } => 6,
        Phase::WritingCertificate { .. } => 5,
        Phase::WritingKey { .. } => 4,
        Phase::Configuring { .. } => 3,
        Phase::Daemonising { .. } => 2,
        Phase::Serving { .. } | Phase::Updating => 1,
        Phase::Finished => 0,
    }
}

/// A command ends: every report brings its end nearer, after at most twelve nothing is left to do,
/// and nothing is left to do exactly when the result is known.
pub proof fn law_command_ends(command: Command<Seq<char>>, reports: Seq<Report<Seq<char>, Seq<u8>>>)
    requires
        accepted(command, reports),
    ensures
        reports.len() + turns_left(after(command, reports).phase) <= 12,
        after(command, reports).phase is Finished <==> after(command, reports).task is Finish,
    decreases reports.len(),
{
    if reports.len() > 0 {
        law_command_ends(command, reports.drop_last());
    }
}

// Restarting is stopping, then starting.

/// The options of a start that differ from the usual in the address only.
pub open spec fn on(listen: Seq<char>) -> StartOptions<Seq<char>> {
    StartOptions { keylog: false, stateless_retry: false, credentials: None, listen }
}

/// A plan without the restart.
spec fn once(plan: Plan<Seq<char>>) -> Plan<Seq<char>> {
    Plan { restart: false, ..plan }
}

/// The phase of stopping or starting that a phase of restarting corresponds to.
spec fn plain(phase: Phase<Seq<char>, Seq<u8>>) -> Phase<Seq<char>, Seq<u8>> {
    match phase {
        Phase::Updating => Phase::Updating,
        Phase::ReadingPid { .. } => Phase::ReadingPid { restart: None },
        Phase::Killing { .. } => Phase::Killing { restart: None },
        Phase::Relaying { killed, .. } => Phase::Relaying { restart: None, killed },
        Phase::ReadingGivenKey { plan, chain_path } => Phase::ReadingGivenKey {
            plan: once(plan),
            chain_path,
        },
        Phase::ReadingGivenChain { plan, key } => Phase::ReadingGivenChain {
            plan: once(plan),
            key,
        },
        Phase::ReadingCertificate { plan } => Phase::ReadingCertificate { plan: once(plan) },
        Phase::ReadingKey { plan, cert } => Phase::ReadingKey { plan: once(plan), cert },
        Phase::Generating { plan } => Phase::Generating { plan: once(plan) },
        Phase::CreatingDirectory { plan, cert, key } => Phase::CreatingDirectory {
            plan: once(plan),
            cert,
            key,
        },
        Phase::WritingCertificate { plan, cert, key } => Phase::WritingCertificate {
            plan: once(plan),
            cert,
            key,
        },
        Phase::WritingKey { plan, cert, key } => Phase::WritingKey { plan: once(plan), cert, key },
        Phase::Configuring { plan } => Phase::Configuring { plan: once(plan) },
        Phase::Daemonising { plan } => Phase::Daemonising { plan: once(plan) },
        Phase::Serving { plan } => Phase::Serving { plan: once(plan) },
        Phase::Finished => Phase::Finished,
    }
}

/// Whether the daemon is being stopped.
spec fn is_stopping(phase: Phase<Seq<char>, Seq<u8>>) -> bool {
    phase is ReadingPid || phase is Killing || phase is Relaying
}

/// Whether the daemon is being started.
spec fn is_starting(phase: Phase<Seq<char>, Seq<u8>>) -> bool {
    !is_stopping(phase) && !(phase is Updating) && !(phase is Finished)
}

/// The address on which a daemon that is being stopped is to be started again.
spec fn restart_of(phase: Phase<Seq<char>, Seq<u8>>) -> Option<Seq<char>> {
    match phase {
        Phase::ReadingPid { restart } => restart,
        Phase::Killing { restart } => restart,
        Phase::Relaying { restart, .. } => restart,
        _ => None,
    }
}

/// The plan by which the daemon is being started.
spec fn plan_of(phase: Phase<Seq<char>, Seq<u8>>) -> Option<Plan<Seq<char>>> {
    match phase {
        Phase::ReadingGivenKey { plan, .. } => Some(plan),
        Phase::ReadingGivenChain { plan, .. } => Some(plan),
        Phase::ReadingCertificate { plan } => Some(plan),
        Phase::ReadingKey { plan, .. } => Some(plan),
        Phase::Generating { plan } => Some(plan),
        Phase::CreatingDirectory { plan, .. } => Some(plan),
        Phase::WritingCertificate { plan, .. } => Some(plan),
        Phase::WritingKey { plan, .. } => Some(plan),
        Phase::Configuring { plan } => Some(plan),
        Phase::Daemonising { plan } => Some(plan),
        Phase::Serving { plan } => Some(plan),
        _ => None,
    }
}

/// While it stops the daemon, restarting does what stopping does.
proof fn lemma_restart_stops(listen: Seq<char>, reports: Seq<Report<Seq<char>, Seq<u8>>>)
    requires
        accepted(Command::Stop, reports),
    ensures
        accepted(Command::Restart { listen }, reports),
        is_stopping(after(Command::Stop, reports).phase) || after(
            Command::Stop,
            reports,
        ).phase is Finished,
        after(Command::Restart { listen }, reports).errors == Seq::<Seq<char>>::empty(),
        ({
            let restart = Command::Restart { listen };
            let start = Command::Start { options: on(listen) };
            let turn = after(restart, reports);
            if succeeded(Command::Stop, reports) {
                &&& turn.phase == (Phase::<Seq<char>, Seq<u8>>::ReadingCertificate {
                    plan: restart_plan(listen),
                })
                &&& turn.task == first(start).task
                &&& printed(restart, reports) == printed(Command::Stop, reports) + printed(
                    start,
                    seq![],
                )
            } else {
                &&& plain(turn.phase) == after(Command::Stop, reports).phase
                &&& turn.task == after(Command::Stop, reports).task
                &&& printed(restart, reports) == printed(Command::Stop, reports)
                &&& turn.phase is Finished || restart_of(turn.phase) == Some(listen)
            }
        }),
    decreases reports.len(),
{
    let restart = Command::Restart { listen };
    let start = Command::Start { options: on(listen) };
    if reports.len() > 0 {
        let before = reports.drop_last();
        lemma_restart_stops(listen, before);
        assert(first(start).lines =~= seq!["Starting SAFE Authenticator daemon..."@]);
        if succeeded(Command::Stop, reports) {
            assert(printed(restart, reports) =~= printed(Command::Stop, reports) + printed(
                start,
                seq![],
            ));
        }
    }
}

/// The line that restarting prints where starting prints nothing more.
pub open spec fn restarted_lines(
    listen: Seq<char>,
    reports: Seq<Report<Seq<char>, Seq<u8>>>,
) -> Seq<Seq<char>> {
    if succeeded(Command::Start { options: on(listen) }, reports) {
        seq!["Success, safe-authd restarted!"@]
    } else {
        seq![]
    }
}

/// Restarting the daemon is stopping it and then starting it on the same address, without other
/// options. Where stopping fails, restarting does all that stopping does, ends as it ends, and
/// starts nothing. Where stopping ends well, restarting goes on as starting does, from its first
/// task to its result; at a good end it prints one line more.
pub proof fn law_restart_is_stop_then_start(
    listen: Seq<char>,
    stop: Seq<Report<Seq<char>, Seq<u8>>>,
    start: Seq<Report<Seq<char>, Seq<u8>>>,
)
    requires
        accepted(Command::Stop, stop),
        accepted(Command::Start { options: on(listen) }, start),
    ensures
        accepted(Command::Restart { listen }, stop),
        !succeeded(Command::Stop, stop) ==> {
            &&& after(Command::Restart { listen }, stop).task == after(Command::Stop, stop).task
            &&& printed(Command::Restart { listen }, stop) == printed(Command::Stop, stop)
        },
        succeeded(Command::Stop, stop) ==> {
            let turn = after(Command::Restart { listen }, stop + start);
            let start_turn = after(Command::Start { options: on(listen) }, start);
            &&& accepted(Command::Restart { listen }, stop + start)
            &&& turn.task == start_turn.task
            &&& turn.errors == start_turn.errors
            &&& printed(Command::Restart { listen }, stop + start) == printed(Command::Stop, stop)
                + printed(Command::Start { options: on(listen) }, start) + restarted_lines(
                listen,
                start,
            )
        },
{
    lemma_restart_stops(listen, stop);
    if succeeded(Command::Stop, stop) {
        lemma_restart_starts(listen, stop, start);
    }
}

proof fn lemma_restart_starts(
    listen: Seq<char>,
    stop: Seq<Report<Seq<char>, Seq<u8>>>,
    start: Seq<Report<Seq<char>, Seq<u8>>>,
)
    requires
        accepted(Command::Stop, stop),
        succeeded(Command::Stop, stop),
        accepted(Command::Start { options: on(listen) }, start),
    ensures
        ({
            let turn = after(Command::Restart { listen }, stop + start);
            let start_turn = after(Command::Start { options: on(listen) }, start);
            &&& accepted(Command::Restart { listen }, stop + start)
            &&& plain(turn.phase) == start_turn.phase
            &&& turn.task == start_turn.task
            &&& turn.errors == start_turn.errors
            &&& start_turn.phase is Finished || (is_starting(start_turn.phase) && plan_of(
                turn.phase,
            ) == Some(restart_plan(listen)))
            &&& start_turn.phase is Finished || !succeeded(
                Command::Start { options: on(listen) },
                start,
            )
            &&& printed(Command::Restart { listen }, stop + start) == printed(Command::Stop, stop)
                + printed(Command::Start { options: on(listen) }, start) + restarted_lines(
                listen,
                start,
            )
        }),
    decreases start.len(),
{
    let restart = Command::Restart { listen };
    let begin = Command::Start { options: on(listen) };
    lemma_restart_stops(listen, stop);
    if start.len() == 0 {
        assert(stop + start =~= stop);
        assert(start =~= seq![]);
        assert(printed(restart, stop) =~= printed(Command::Stop, stop) + printed(begin, start)
            + restarted_lines(listen, start));
    } else {
        let before = start.drop_last();
        lemma_restart_starts(listen, stop, before);
        let whole = stop + start;
        assert(whole.drop_last() =~= stop + before);
        assert(whole.last() == start.last());
        assert(restarted_lines(listen, before) =~= seq![]);
        assert(after(restart, whole).lines =~= after(begin, start).lines + restarted_lines(
            listen,
            start,
        ));
        assert(printed(restart, whole) =~= printed(Command::Stop, stop) + printed(begin, start)
            + restarted_lines(listen, start));
    }
}

// Options.

/// The plan by which a command starts the daemon, if it does.
pub open spec fn plan_for(command: Command<Seq<char>>) -> Option<Plan<Seq<char>>> {
    match command {
        Command::Start { options } => Some(start_plan(options)),
        Command::Restart { listen } => Some(restart_plan(listen)),
        _ => None,
    }
}

/// The options of a command are honoured. An endpoint is set up with the logging of keys and with
/// stateless retries exactly where the command says so, which a restart never does, and it is bound
/// to the address of the command and to no other, once the daemon is in the background.
pub proof fn law_options_honoured(
    command: Command<Seq<char>>,
    reports: Seq<Report<Seq<char>, Seq<u8>>>,
)
    requires
        accepted(command, reports),
    ensures
        after(command, reports).task matches Task::Configure { keylog, stateless_retry, .. } ==> {
            &&& plan_for(command) matches Some(plan)
            &&& keylog == plan.keylog
            &&& stateless_retry == plan.stateless_retry
            &&& command matches Command::Start { options } ==> keylog == options.keylog
                && stateless_retry == options.stateless_retry
            &&& command is Restart ==> !keylog && !stateless_retry
        },
        after(command, reports).task matches Task::Serve { listen } ==> {
            &&& command is Start || command is Restart
            &&& command matches Command::Start { options } ==> listen == options.listen
            &&& command matches Command::Restart { listen: address } ==> listen == address
            &&& plan_for(command) matches Some(plan)
            &&& listen == plan.listen
            &&& reports.len() > 0
            &&& reports.last() is Done
            &&& after(command, reports.drop_last()).task is Daemonise
        },
{
    lemma_plan(command, reports);
    if reports.len() > 0 {
        lemma_plan(command, reports.drop_last());
    }
}

proof fn lemma_plan(command: Command<Seq<char>>, reports: Seq<Report<Seq<char>, Seq<u8>>>)
    requires
        accepted(command, reports),
    ensures
        ({
            let turn = after(command, reports);
            &&& is_starting(turn.phase) ==> plan_of(turn.phase) == plan_for(command)
                && plan_for(command) is Some
            &&& is_stopping(turn.phase) ==> restart_of(turn.phase) == match command {
                Command::Restart { listen } => Some(listen),
                _ => None,
            }
            &&& turn.phase is Configuring <==> turn.task is Configure
            &&& turn.phase is Daemonising <==> turn.task is Daemonise
            &&& turn.phase is Serving <==> turn.task is Serve
            &&& turn.task matches Task::Serve { listen } ==> listen == plan_of(
                turn.phase,
            )->Some_0.listen
            &&& turn.task matches Task::Configure { keylog, stateless_retry, .. } ==> {
                &&& keylog == plan_of(turn.phase)->Some_0.keylog
                &&& stateless_retry == plan_of(turn.phase)->Some_0.stateless_retry
            }
        }),
    decreases reports.len(),
{
    if reports.len() > 0 {
        lemma_plan(command, reports.drop_last());
    }
}

// What is carried out within.

/// The tasks of making certificates and of setting up endpoints are never handed out: not by the
/// first turn of a command, and not by a turn in which such tasks are carried out.
pub proof fn law_carried_out_within(
    command: Command<Seq<char>>,
    phase: Phase<Seq<char>, Seq<u8>>,
    report: Report<Seq<char>, Seq<u8>>,
    turn: Turn<Seq<char>, Seq<u8>, Seq<Seq<char>>>,
    endpoint: Option<quinn::EndpointBuilder>,
)
    requires
        accepts(phase, report),
        advanced(next(phase, report), turn, endpoint),
    ensures
        !(first(command).task is Generate),
        !(first(command).task is Configure),
        !(turn.task is Generate),
        !(turn.task is Configure),
{
}

/// Whether `turns[i + 1]`, and the endpoint that comes with it, follow on `turns[i]` and `reports[i]`.
pub open spec fn taken(
    turns: Seq<Turn<Seq<char>, Seq<u8>, Seq<Seq<char>>>>,
    reports: Seq<Report<Seq<char>, Seq<u8>>>,
    endpoints: Seq<Option<quinn::EndpointBuilder>>,
    i: int,
) -> bool {
    &&& accepts(turns[i].phase, reports[i])
    &&& advanced(next(turns[i].phase, reports[i]), turns[i + 1], endpoints[i])
}

/// Whether a command can take these turns on these reports, where certificates are made and
/// endpoints are set up within.
pub open spec fn course(
    command: Command<Seq<char>>,
    turns: Seq<Turn<Seq<char>, Seq<u8>, Seq<Seq<char>>>>,
    reports: Seq<Report<Seq<char>, Seq<u8>>>,
    endpoints: Seq<Option<quinn::EndpointBuilder>>,
) -> bool {
    &&& turns.len() == reports.len() + 1
    &&& endpoints.len() == reports.len()
    &&& turns[0] == first(command)
    &&& forall|i: int| 0 <= i < reports.len() ==> #[trigger] taken(turns, reports, endpoints, i)
}

/// Whether `endpoint` is set up as the task says, and with the options of `plan`.
pub open spec fn set_up_as_asked(
    endpoint: quinn::EndpointBuilder,
    task: Task<Seq<char>, Seq<u8>, Seq<Seq<char>>>,
    plan: Plan<Seq<char>>,
) -> bool {
    &&& task matches Task::Configure { cert, key, format, keylog, stateless_retry }
    &&& set_up(endpoint, cert, key, format, keylog, stateless_retry)
    &&& keylog == plan.keylog
    &&& stateless_retry == plan.stateless_retry
}

/// A daemon that serves has an endpoint to serve on. It was set up right before the daemon went into
/// the background, with the options of the command and the credentials that were come by; none came
/// after it. It is to be bound to the address of the command. It lets clients open no stream that
/// carries data in one direction only, and speaks the protocol of the daemon and no other.
pub proof fn law_served_endpoint(
    command: Command<Seq<char>>,
    turns: Seq<Turn<Seq<char>, Seq<u8>, Seq<Seq<char>>>>,
    reports: Seq<Report<Seq<char>, Seq<u8>>>,
    endpoints: Seq<Option<quinn::EndpointBuilder>>,
    i: int,
)
    requires
        course(command, turns, reports, endpoints),
        0 <= i < turns.len(),
        turns[i].task is Serve,
    ensures
        i >= 2,
        turns[i - 1].task is Daemonise,
        endpoints[i - 1] is None,
        command is Start || command is Restart,
        command matches Command::Start { options } ==> turns[i].task->Serve_listen == options.listen,
        command matches Command::Restart { listen } ==> turns[i].task->Serve_listen == listen,
        plan_for(command) matches Some(plan) && {
            &&& turns[i].task->Serve_listen == plan.listen
            &&& endpoints[i - 2] matches Some(endpoint)
            &&& set_up_as_asked(endpoint, next(turns[i - 2].phase, reports[i - 2]).task, plan)
            &&& admits(endpoint, 0, ALPN@)
        },
{
    lemma_course(command, turns, reports, endpoints, i);
    lemma_course(command, turns, reports, endpoints, i - 1);
    if let Task::Configure { cert, key, format, keylog, stateless_retry } = next(
        turns[i - 2].phase,
        reports[i - 2],
    ).task {
        law_streams_and_protocol(
            endpoints[i - 2]->Some_0,
            cert,
            key,
            format,
            keylog,
            stateless_retry,
        );
    }
}

proof fn lemma_course(
    command: Command<Seq<char>>,
    turns: Seq<Turn<Seq<char>, Seq<u8>, Seq<Seq<char>>>>,
    reports: Seq<Report<Seq<char>, Seq<u8>>>,
    endpoints: Seq<Option<quinn::EndpointBuilder>>,
    i: int,
)
    requires
        course(command, turns, reports, endpoints),
        0 <= i < turns.len(),
    ensures
        ({
            let turn = turns[i];
            &&& !(turn.phase is Generating)
            &&& !(turn.phase is Configuring)
            &&& is_starting(turn.phase) ==> plan_of(turn.phase) == plan_for(command)
                && plan_for(command) is Some
            &&& is_stopping(turn.phase) ==> restart_of(turn.phase) == match command {
                Command::Restart { listen } => Some(listen),
                _ => None,
            }
            &&& turn.phase is Daemonising <==> turn.task is Daemonise
            &&& turn.phase is Serving <==> turn.task is Serve
            &&& turn.phase is Serving ==> {
                &&& i >= 1
                &&& turns[i - 1].phase is Daemonising
                &&& turn.task->Serve_listen == plan_of(turn.phase)->Some_0.listen
            }
            &&& turn.phase is Daemonising ==> {
                &&& i >= 1
                &&& endpoints[i - 1] matches Some(endpoint)
                &&& set_up_as_asked(
                    endpoint,
                    next(turns[i - 1].phase, reports[i - 1]).task,
                    plan_for(command)->Some_0,
                )
            }
            &&& i >= 1 && !(turn.phase is Daemonising) ==> endpoints[i - 1] is None
        }),
    decreases i,
{
    if i > 0 {
        lemma_course(command, turns, reports, endpoints, i - 1);
        assert(taken(turns, reports, endpoints, i - 1));
    }
}

/// Stopping finds the daemon: it reads the number of the process in the file in which starting had
/// it left.
pub proof fn law_pid_file_shared(
    starter: Command<Seq<char>>,
    start: Seq<Report<Seq<char>, Seq<u8>>>,
    stopper: Command<Seq<char>>,
    stop: Seq<Report<Seq<char>, Seq<u8>>>,
)
    requires
        accepted(starter, start),
        accepted(stopper, stop),
        after(starter, start).task is Daemonise,
        after(stopper, stop).task is ReadPid,
    ensures
        after(stopper, stop).task->ReadPid_file == after(starter, start).task->pid_file,
{
}

// Credentials.

/// Whether `reports` end with the two files of credentials being read.
pub open spec fn read_last(
    reports: Seq<Report<Seq<char>, Seq<u8>>>,
    cert: Seq<u8>,
    key: Seq<u8>,
) -> bool {
    let n = reports.len();
    &&& n >= 2
    &&& reports[n - 2] == (Report::<Seq<char>, Seq<u8>>::Bytes { bytes: cert })
    &&& reports[n - 1] == (Report::<Seq<char>, Seq<u8>>::Bytes { bytes: key })
}

/// Whether `reports` end with a file of credentials being missing, and with a certificate and a key
/// being made and written to the two files.
pub open spec fn made_last(
    command: Command<Seq<char>>,
    reports: Seq<Report<Seq<char>, Seq<u8>>>,
    cert: Seq<u8>,
    key: Seq<u8>,
) -> bool {
    let n = reports.len();
    &&& n >= 5
    &&& reports[n - 5] is Missing
    &&& reports[n - 4] == (Report::<Seq<char>, Seq<u8>>::Generated { cert, key })
    &&& after(command, reports.take(n - 3)).task is CreateDirectory
    &&& after(command, reports.take(n - 2)).task == (Task::<
        Seq<char>,
        Seq<u8>,
        Seq<Seq<char>>,
    >::WriteFile { file: DataFile::Certificate, bytes: cert })
    &&& after(command, reports.take(n - 1)).task == (Task::<
        Seq<char>,
        Seq<u8>,
        Seq<Seq<char>>,
    >::WriteFile { file: DataFile::Key, bytes: key })
    &&& reports[n - 3] is Done
    &&& reports[n - 2] is Done
    &&& reports[n - 1] is Done
}

/// The paths of the private key and the chain of certificates that a command comes with, if it does.
pub open spec fn given(command: Command<Seq<char>>) -> Option<(Seq<char>, Seq<char>)> {
    match command {
        Command::Start { options } => options.credentials,
        _ => None,
    }
}

/// Without given credentials, those that are used belong together: an endpoint is set up either with
/// what both files of the daemon hold, or, where a file was missing, with a certificate and a key
/// that were made together and are in the files now.
pub proof fn law_credentials_belong_together(
    command: Command<Seq<char>>,
    reports: Seq<Report<Seq<char>, Seq<u8>>>,
)
    requires
        accepted(command, reports),
        given(command) is None,
    ensures
        after(command, reports).task matches Task::Configure { cert, key, format, .. } ==> {
            &&& format == Format::Der
            &&& read_last(reports, cert, key) || made_last(command, reports, cert, key)
        },
        !(after(command, reports).task is ReadPath),
{
    lemma_not_given(command, reports);
    if let Task::Configure { cert, key, .. } = after(command, reports).task {
        let n = reports.len();
        let r1 = reports.drop_last();
        lemma_not_given(command, r1);
        assert(r1 =~= reports.take(n - 1));
        if reports.last() is Bytes {
            lemma_reading_key(command, r1);
            assert(r1.last() == reports[n - 2]);
        } else {
            lemma_writing(command, r1);
            let r2 = r1.drop_last();
            assert(r2 =~= reports.take(n - 2));
            assert(r1.last() == reports[n - 2]);
            lemma_writing(command, r2);
            let r3 = r2.drop_last();
            assert(r3 =~= reports.take(n - 3));
            assert(r2.last() == reports[n - 3]);
            lemma_writing(command, r3);
            let r4 = r3.drop_last();
            assert(r3.last() == reports[n - 4]);
            lemma_writing(command, r4);
            assert(r4.last() == reports[n - 5]);
        }
    }
}

/// Without given credentials no given file is read.
proof fn lemma_not_given(command: Command<Seq<char>>, reports: Seq<Report<Seq<char>, Seq<u8>>>)
    requires
        accepted(command, reports),
        given(command) is None,
    ensures
        !(after(command, reports).phase is ReadingGivenKey),
        !(after(command, reports).phase is ReadingGivenChain),
        !(after(command, reports).task is ReadPath),
        after(command, reports).task is Configure ==> reports.len() > 0,
    decreases reports.len(),
{
    if reports.len() > 0 {
        lemma_not_given(command, reports.drop_last());
    }
}

/// Given credentials are used, and no others. The private key is read at its path, then the chain of
/// certificates at its own; an endpoint is set up with exactly what these two files hold, taken for
/// PEM. The directory for local data is not touched: nothing is read there, made or written.
pub proof fn law_given_credentials_used(
    options: StartOptions<Seq<char>>,
    key_path: Seq<char>,
    chain_path: Seq<char>,
    reports: Seq<Report<Seq<char>, Seq<u8>>>,
)
    requires
        options.credentials == Some((key_path, chain_path)),
        accepted(Command::Start { options }, reports),
    ensures
        first(Command::Start { options }).task == (Task::<
            Seq<char>,
            Seq<u8>,
            Seq<Seq<char>>,
        >::ReadPath { path: key_path }),
        after(Command::Start { options }, reports).task matches Task::ReadPath { path } ==> {
            ||| reports.len() == 0 && path == key_path
            ||| reports.len() == 1 && path == chain_path && reports[0] is Bytes
        },
        after(Command::Start { options }, reports).task matches Task::Configure {
            cert,
            key,
            format,
            keylog,
            stateless_retry,
        } ==> {
            &&& format == Format::Pem
            &&& keylog == options.keylog
            &&& stateless_retry == options.stateless_retry
            &&& reports.len() == 2
            &&& reports[0] == (Report::<Seq<char>, Seq<u8>>::Bytes { bytes: key })
            &&& reports[1] == (Report::<Seq<char>, Seq<u8>>::Bytes { bytes: cert })
        },
        match after(Command::Start { options }, reports).task {
            Task::ReadFile { .. }
            | Task::Generate
            | Task::CreateDirectory
            | Task::WriteFile { .. } => false,
            _ => true,
        },
{
    lemma_given(options, key_path, chain_path, reports);
}

proof fn lemma_given(
    options: StartOptions<Seq<char>>,
    key_path: Seq<char>,
    chain_path: Seq<char>,
    reports: Seq<Report<Seq<char>, Seq<u8>>>,
)
    requires
        options.credentials == Some((key_path, chain_path)),
        accepted(Command::Start { options }, reports),
    ensures
        ({
            let turn = after(Command::Start { options }, reports);
            match turn.phase {
                Phase::ReadingGivenKey { plan, chain_path: path } => {
                    &&& reports.len() == 0
                    &&& plan == start_plan(options)
                    &&& path == chain_path
                    &&& turn.task == (Task::<Seq<char>, Seq<u8>, Seq<Seq<char>>>::ReadPath {
                        path: key_path,
                    })
                },
                Phase::ReadingGivenChain { plan, key } => {
                    &&& reports.len() == 1
                    &&& plan == start_plan(options)
                    &&& reports[0] == (Report::<Seq<char>, Seq<u8>>::Bytes { bytes: key })
                    &&& turn.task == (Task::<Seq<char>, Seq<u8>, Seq<Seq<char>>>::ReadPath {
                        path: chain_path,
                    })
                },
                Phase::Configuring { plan } => {
                    &&& reports.len() == 2
                    &&& turn.task matches Task::Configure {
                        cert,
                        key,
                        format,
                        keylog,
                        stateless_retry,
                    }
                    &&& reports[0] == (Report::<Seq<char>, Seq<u8>>::Bytes { bytes: key })
                    &&& reports[1] == (Report::<Seq<char>, Seq<u8>>::Bytes { bytes: cert })
                    &&& format == Format::Pem
                    &&& keylog == options.keylog
                    &&& stateless_retry == options.stateless_retry
                },
                Phase::Daemonising { .. } => turn.task is Daemonise,
                Phase::Serving { .. } => turn.task is Serve,
                Phase::Finished => turn.task is Finish,
                _ => false,
            }
        }),
    decreases reports.len(),
{
    if reports.len() > 0 {
        let before = reports.drop_last();
        lemma_given(options, key_path, chain_path, before);
        if before.len() > 0 {
            assert(before[0] == reports[0]);
        }
    }
}

/// The key is being read where the certificate was.
proof fn lemma_reading_key(command: Command<Seq<char>>, reports: Seq<Report<Seq<char>, Seq<u8>>>)
    requires
        accepted(command, reports),
        after(command, reports).phase is ReadingKey,
    ensures
        reports.len() > 0,
        reports.last() == (Report::<Seq<char>, Seq<u8>>::Bytes {
            bytes: after(command, reports).phase->ReadingKey_cert,
        }),
{
}

/// How credentials that are being written came to be there.
proof fn lemma_writing(command: Command<Seq<char>>, reports: Seq<Report<Seq<char>, Seq<u8>>>)
    requires
        accepted(command, reports),
    ensures
        reports.len() > 0 ==> accepted(command, reports.drop_last()),
        match after(command, reports).phase {
            Phase::Generating { .. } => reports.len() > 0 && reports.last() is Missing,
            Phase::CreatingDirectory { cert, key, .. } => {
                &&& reports.len() > 0
                &&& reports.last() == (Report::<Seq<char>, Seq<u8>>::Generated { cert, key })
                &&& after(command, reports).task is CreateDirectory
                &&& after(command, reports.drop_last()).phase is Generating
            },
            Phase::WritingCertificate { plan, cert, key } => {
                &&& reports.len() > 0
                &&& reports.last() is Done
                &&& after(command, reports).task == (Task::<
                    Seq<char>,
                    Seq<u8>,
                    Seq<Seq<char>>,
                >::WriteFile { file: DataFile::Certificate, bytes: cert })
                &&& after(command, reports.drop_last()).phase == (Phase::CreatingDirectory {
                    plan,
                    cert,
                    key,
                })
            },
            Phase::WritingKey { plan, cert, key } => {
                &&& reports.len() > 0
                &&& reports.last() is Done
                &&& after(command, reports).task == (Task::<
                    Seq<char>,
                    Seq<u8>,
                    Seq<Seq<char>>,
                >::WriteFile { file: DataFile::Key, bytes: key })
                &&& after(command, reports.drop_last()).phase == (Phase::WritingCertificate {
                    plan,
                    cert,
                    key,
                })
            },
            _ => true,
        },
{
}

/// Credentials are kept: nothing is made or written unless one of the files was missing.
pub proof fn law_credentials_kept(command: Command<Seq<char>>, reports: Seq<Report<Seq<char>, Seq<u8>>>)
    requires
        accepted(command, reports),
        forall|i: int| 0 <= i < reports.len() ==> !(#[trigger] reports[i] is Missing),
    ensures
        !(after(command, reports).task is Generate),
        !(after(command, reports).task is CreateDirectory),
        !(after(command, reports).task is WriteFile),
{
    lemma_kept(command, reports);
}

proof fn lemma_kept(command: Command<Seq<char>>, reports: Seq<Report<Seq<char>, Seq<u8>>>)
    requires
        accepted(command, reports),
        forall|i: int| 0 <= i < reports.len() ==> !(#[trigger] reports[i] is Missing),
    ensures
        !(after(command, reports).task is Generate),
        !(after(command, reports).task is CreateDirectory),
        !(after(command, reports).task is WriteFile),
        !(after(command, reports).phase is Generating),
        !(after(command, reports).phase is CreatingDirectory),
        !(after(command, reports).phase is WritingCertificate),
        !(after(command, reports).phase is WritingKey),
    decreases reports.len(),
{
    if reports.len() > 0 {
        let before = reports.drop_last();
        assert forall|i: int| 0 <= i < before.len() implies !(#[trigger] before[i] is Missing) by {
            assert(before[i] == reports[i]);
        }
        lemma_kept(command, before);
        assert(!(reports[reports.len() - 1] is Missing));
    }
}

/// Each command keeps to its own: updating does nothing else, stopping never starts, and starting
/// never stops.
pub proof fn law_commands_apart(command: Command<Seq<char>>, reports: Seq<Report<Seq<char>, Seq<u8>>>)
    requires
        accepted(command, reports),
    ensures
        match command {
            Command::Update => after(command, reports).task is Update || after(
                command,
                reports,
            ).task is Finish,
            Command::Stop => match after(command, reports).task {
                Task::ReadPid { .. }
                | Task::Execute { .. }
                | Task::Print { .. }
                | Task::Finish { .. } => true,
                _ => false,
            },
            Command::Start { .. } => match after(command, reports).task {
                Task::Update
                | Task::ReadPid { .. }
                | Task::Execute { .. }
                | Task::Print { .. } => false,
                _ => true,
            },
            Command::Restart { .. } => !(after(command, reports).task is Update),
        },
{
    lemma_apart(command, reports);
}

proof fn lemma_apart(command: Command<Seq<char>>, reports: Seq<Report<Seq<char>, Seq<u8>>>)
    requires
        accepted(command, reports),
    ensures
        ({
            let phase = after(command, reports).phase;
            let task = after(command, reports).task;
            &&& phase is Finished || match command {
                Command::Update => phase is Updating,
                Command::Stop => is_stopping(phase) && restart_of(phase) is None,
                Command::Start { .. } => is_starting(phase),
                Command::Restart { .. } => is_stopping(phase) || is_starting(phase),
            }
            &&& match phase {
                Phase::Updating => task is Update,
                Phase::ReadingPid { .. } => task is ReadPid,
                Phase::Killing { .. } => task is Execute,
                Phase::Relaying { .. } => task is Print,
                Phase::Finished => task is Finish,
                _ => match task {
                    Task::Update
                    | Task::ReadPid { .. }
                    | Task::Execute { .. }
                    | Task::Print { .. } => false,
                    _ => true,
                },
            }
        }),
    decreases reports.len(),
{
    if reports.len() > 0 {
        lemma_apart(command, reports.drop_last());
    }
}

// The course of the commands, told by what is asked and what came of it.

/// Whether a turn prints `lines`, nothing on the standard error, and hands out `task`.
pub open spec fn hands_out(
    turn: Turn<Seq<char>, Seq<u8>, Seq<Seq<char>>>,
    lines: Seq<Seq<char>>,
    task: Task<Seq<char>, Seq<u8>, Seq<Seq<char>>>,
) -> bool {
    &&& turn.errors == Seq::<Seq<char>>::empty()
    &&& turn.lines == lines
    &&& turn.task == task
}

/// The address that a command names.
pub open spec fn address(command: Command<Seq<char>>) -> Seq<char> {
    match command {
        Command::Start { options } => options.listen,
        Command::Restart { listen } => listen,
        _ => seq![],
    }
}

/// Whether a command wants keys to be logged.
pub open spec fn logs_keys(command: Command<Seq<char>>) -> bool {
    command matches Command::Start { options } && options.keylog
}

/// Whether a command wants stateless retries.
pub open spec fn retries(command: Command<Seq<char>>) -> bool {
    command matches Command::Start { options } && options.stateless_retry
}

/// How many reports come before the first one about starting.
spec fn offset(command: Command<Seq<char>>) -> int {
    if command is Restart {
        3
    } else {
        0
    }
}

/// What each phase says of the task that was handed out and of the reports so far.
proof fn lemma_trace(command: Command<Seq<char>>, reports: Seq<Report<Seq<char>, Seq<u8>>>)
    requires
        accepted(command, reports),
    ensures
        ({
            let turn = after(command, reports);
            let n = reports.len() as int;
            let k = offset(command);
            &&& is_starting(turn.phase) && command is Restart ==> {
                &&& n >= 3
                &&& reports[1] is Exited
                &&& reports[1]->success
                &&& reports[2] is Done
            }
            &&& match turn.phase {
                Phase::Updating => n == 0 && command is Update && turn.task is Update,
                Phase::ReadingPid { .. } => n == 0 && turn.task is ReadPid,
                Phase::Killing { .. } => n == 1 && reports[0] is Text && turn.task is Execute,
                Phase::Relaying { killed, .. } => {
                    &&& n == 2
                    &&& reports[0] is Text
                    &&& reports[1] is Exited
                    &&& reports[1]->success == killed
                    &&& turn.task is Print
                },
                Phase::ReadingGivenKey { chain_path, .. } => {
                    &&& n == 0
                    &&& given(command) matches Some((_, path))
                    &&& path == chain_path
                    &&& turn.task is ReadPath
                },
                Phase::ReadingGivenChain { key, .. } => {
                    &&& n == 1
                    &&& given(command) is Some
                    &&& reports[0] == (Report::<Seq<char>, Seq<u8>>::Bytes { bytes: key })
                    &&& turn.task is ReadPath
                },
                Phase::ReadingCertificate { .. } => {
                    &&& n == k
                    &&& given(command) is None
                    &&& turn.task == (Task::<Seq<char>, Seq<u8>, Seq<Seq<char>>>::ReadFile {
                        file: DataFile::Certificate,
                    })
                },
                Phase::ReadingKey { cert, .. } => {
                    &&& n == k + 1
                    &&& reports[k] == (Report::<Seq<char>, Seq<u8>>::Bytes { bytes: cert })
                    &&& turn.task == (Task::<Seq<char>, Seq<u8>, Seq<Seq<char>>>::ReadFile {
                        file: DataFile::Key,
                    })
                },
                Phase::Generating { .. } => n >= 1 && turn.task is Generate,
                Phase::CreatingDirectory { cert, key, .. } => {
                    &&& n >= 2
                    &&& reports[n - 1] == (Report::<Seq<char>, Seq<u8>>::Generated { cert, key })
                    &&& turn.task is CreateDirectory
                },
                Phase::WritingCertificate { cert, key, .. } => {
                    &&& n >= 3
                    &&& reports[n - 2] == (Report::<Seq<char>, Seq<u8>>::Generated { cert, key })
                    &&& turn.task == (Task::<Seq<char>, Seq<u8>, Seq<Seq<char>>>::WriteFile {
                        file: DataFile::Certificate,
                        bytes: cert,
                    })
                },
                Phase::WritingKey { cert, key, .. } => {
                    &&& n >= 4
                    &&& reports[n - 3] == (Report::<Seq<char>, Seq<u8>>::Generated { cert, key })
                    &&& turn.task == (Task::<Seq<char>, Seq<u8>, Seq<Seq<char>>>::WriteFile {
                        file: DataFile::Key,
                        bytes: key,
                    })
                },
                Phase::Configuring { .. } => turn.task is Configure,
                Phase::Daemonising { .. } => turn.task is Daemonise,
                Phase::Serving { .. } => turn.task is Serve,
                Phase::Finished => turn.task is Finish,
            }
        }),
    decreases reports.len(),
{
    lemma_plan(command, reports);
    if reports.len() > 0 {
        let before = reports.drop_last();
        lemma_trace(command, before);
        lemma_plan(command, before);
        assert forall|i: int| 0 <= i < before.len() implies before[i] == reports[i] by {}
    }
}

/// What each command begins with. Starting reads the private key that was given, or else the
/// certificate of the daemon; stopping and restarting read the number of the process.
pub proof fn law_beginnings(options: StartOptions<Seq<char>>, listen: Seq<char>)
    ensures
        hands_out(first(Command::Update), seq![], Task::Update),
        hands_out(
            first(Command::Stop),
            seq!["Stopping SAFE Authenticator daemon..."@],
            Task::ReadPid { file: "/tmp/safe-authd.pid"@ },
        ),
        hands_out(
            first(Command::Restart { listen }),
            seq!["Stopping SAFE Authenticator daemon..."@],
            Task::ReadPid { file: "/tmp/safe-authd.pid"@ },
        ),
        hands_out(
            first(Command::Start { options }),
            seq!["Starting SAFE Authenticator daemon..."@],
            match options.credentials {
                None => Task::ReadFile { file: DataFile::Certificate },
                Some((key_path, _)) => Task::ReadPath { path: key_path },
            },
        ),
        DataFile::Certificate.text() == "cert.der"@,
        DataFile::Key.text() == "key.der"@,
{
    assert(first(Command::Start { options }).lines =~= seq![
        "Starting SAFE Authenticator daemon..."@,
    ]);
}

/// Stopping kills the process whose number is in the file, prints what the killing program printed,
/// and ends well if and only if this program succeeded, whatever it printed. A restart goes on to
/// start the daemon in the same case and in no other.
pub proof fn law_stopped_by_exit_status(
    command: Command<Seq<char>>,
    reports: Seq<Report<Seq<char>, Seq<u8>>>,
)
    requires
        accepted(command, reports),
        command is Stop || command is Restart,
    ensures
        reports.len() == 1 ==> (reports[0] matches Report::Text { text } ==> hands_out(
            after(command, reports),
            seq![],
            Task::Execute { program: "kill"@, arguments: seq!["-9"@, text] },
        )),
        reports.len() == 2 ==> (reports[1] matches Report::Exited { success, output, errors }
            ==> hands_out(
            after(command, reports),
            seq![],
            Task::Print {
                bytes: if success {
                    output
                } else {
                    errors
                },
            },
        )),
        reports.len() == 3 && reports[2] is Done ==> {
            &&& reports[0] is Text
            &&& reports[1] is Exited
            &&& !reports[1]->success ==> hands_out(
                after(command, reports),
                seq![],
                Task::Finish { result: Err("Failed to stop safe-authd daemon"@) },
            )
            &&& reports[1]->success && command is Stop ==> hands_out(
                after(command, reports),
                seq!["Success, safe-authd stopped!"@],
                Task::Finish { result: Ok(()) },
            )
            &&& reports[1]->success && command is Restart ==> hands_out(
                after(command, reports),
                seq!["Success, safe-authd stopped!"@, "Starting SAFE Authenticator daemon..."@],
                Task::ReadFile { file: DataFile::Certificate },
            )
        },
        command is Stop && reports.len() > 3 ==> false,
        command is Restart && reports.len() > 3 ==> reports[1] is Exited && reports[1]->success,
    decreases reports.len(),
{
    lemma_trace(command, reports);
    if reports.len() > 0 {
        let before = reports.drop_last();
        lemma_trace(command, before);
        lemma_plan(command, before);
        lemma_apart(command, before);
        assert forall|i: int| 0 <= i < before.len() implies before[i] == reports[i] by {}
        law_stopped_by_exit_status(command, before);
        if reports.len() == 3 && reports[2] is Done {
            assert(after(command, reports).lines =~= if !reports[1]->success {
                seq![]
            } else if command is Stop {
                seq!["Success, safe-authd stopped!"@]
            } else {
                seq!["Success, safe-authd stopped!"@, "Starting SAFE Authenticator daemon..."@]
            });
        }
    }
}

/// Without given credentials, the daemon uses what its two files hold, the certificate first, each
/// whole; with given ones, what the two given files hold, the private key first.
pub proof fn law_credentials_read(
    command: Command<Seq<char>>,
    reports: Seq<Report<Seq<char>, Seq<u8>>>,
    bytes: Seq<u8>,
)
    requires
        accepted(command, reports),
        reports.len() > 0,
        reports.last() == (Report::<Seq<char>, Seq<u8>>::Bytes { bytes }),
    ensures
        ({
            let before = after(command, reports.drop_last()).task;
            let turn = after(command, reports);
            let n = reports.len() as int;
            &&& before is ReadFile || before is ReadPath
            &&& before matches Task::ReadFile { file } ==> if file == DataFile::Certificate {
                hands_out(turn, seq![], Task::ReadFile { file: DataFile::Key })
            } else {
                &&& n >= 2
                &&& reports[n - 2] matches Report::Bytes { bytes: cert }
                &&& hands_out(
                    turn,
                    seq![],
                    Task::Configure {
                        cert,
                        key: bytes,
                        format: Format::Der,
                        keylog: logs_keys(command),
                        stateless_retry: retries(command),
                    },
                )
            }
            &&& before is ReadPath ==> {
                &&& given(command) matches Some((_, chain_path))
                &&& n == 1 ==> hands_out(turn, seq![], Task::ReadPath { path: chain_path })
                &&& n != 1 ==> {
                    &&& n == 2
                    &&& reports[0] matches Report::Bytes { bytes: key }
                    &&& hands_out(
                        turn,
                        seq![],
                        Task::Configure {
                            cert: bytes,
                            key,
                            format: Format::Pem,
                            keylog: logs_keys(command),
                            stateless_retry: retries(command),
                        },
                    )
                }
            }
        }),
{
    lemma_trace(command, reports.drop_last());
    lemma_plan(command, reports.drop_last());
}

/// Where one of the files is missing, a certificate and a key are made; the directory is created, the
/// certificate and the key are each written whole to their own file, and then used.
pub proof fn law_credentials_made(
    command: Command<Seq<char>>,
    reports: Seq<Report<Seq<char>, Seq<u8>>>,
)
    requires
        accepted(command, reports),
        reports.len() > 0,
    ensures
        ({
            let before = after(command, reports.drop_last()).task;
            let turn = after(command, reports);
            let n = reports.len() as int;
            &&& reports.last() is Missing ==> before is ReadFile && hands_out(
                turn,
                seq![],
                Task::Generate,
            )
            &&& reports.last() is Generated ==> before is Generate && hands_out(
                turn,
                seq![],
                Task::CreateDirectory,
            )
            &&& before is CreateDirectory && reports.last() is Done ==> {
                &&& n >= 2
                &&& reports[n - 2] matches Report::Generated { cert, .. }
                &&& hands_out(
                    turn,
                    seq![],
                    Task::WriteFile { file: DataFile::Certificate, bytes: cert },
                )
            }
            &&& before is WriteFile && reports.last() is Done ==> if before->WriteFile_file
                == DataFile::Certificate {
                &&& n >= 3
                &&& reports[n - 3] matches Report::Generated { cert, key }
                &&& before->WriteFile_bytes == cert
                &&& hands_out(turn, seq![], Task::WriteFile { file: DataFile::Key, bytes: key })
            } else {
                &&& n >= 4
                &&& reports[n - 4] matches Report::Generated { cert, key }
                &&& before->WriteFile_bytes == key
                &&& hands_out(
                    turn,
                    seq![],
                    Task::Configure {
                        cert,
                        key,
                        format: Format::Der,
                        keylog: logs_keys(command),
                        stateless_retry: retries(command),
                    },
                )
            }
        }),
{
    lemma_trace(command, reports.drop_last());
    lemma_plan(command, reports.drop_last());
}

/// When the endpoint is set up, the daemon goes into the background, with its own files and working
/// directory; then it says so and serves on the address of the command; and when it has served, the
/// command ends well. Only a restart says that it is one.
pub proof fn law_background_then_serve(
    command: Command<Seq<char>>,
    reports: Seq<Report<Seq<char>, Seq<u8>>>,
)
    requires
        accepted(command, reports),
        reports.len() > 0,
        reports.last() is Done,
    ensures
        ({
            let before = after(command, reports.drop_last()).task;
            let turn = after(command, reports);
            &&& before is Update ==> hands_out(turn, seq![], Task::Finish { result: Ok(()) })
            &&& before is Configure ==> hands_out(
                turn,
                seq![],
                Task::Daemonise {
                    pid_file: "/tmp/safe-authd.pid"@,
                    working_directory: "/tmp"@,
                    umask: 511,
                    stdout: "/tmp/safe-authd.out"@,
                    stderr: "/tmp/safe-authd.err"@,
                },
            )
            &&& before is Daemonise ==> hands_out(
                turn,
                seq!["Success, SAFE Authenticator daemonised!"@],
                Task::Serve { listen: address(command) },
            )
            &&& before is Serve ==> hands_out(
                turn,
                if command is Restart {
                    seq!["Success, safe-authd restarted!"@]
                } else {
                    seq![]
                },
                Task::Finish { result: Ok(()) },
            )
        }),
{
    lemma_trace(command, reports.drop_last());
    lemma_plan(command, reports.drop_last());
}

/// A task that fails ends the command with an error that says what failed, where this needs saying,
/// and the whole reason. The one exception is going into the background: where this fails, the
/// standard error says so, and the command ends well.
pub proof fn law_failures_told(
    command: Command<Seq<char>>,
    reports: Seq<Report<Seq<char>, Seq<u8>>>,
    reason: Seq<char>,
)
    requires
        accepted(command, reports),
        reports.len() > 0,
        reports.last() == (Report::<Seq<char>, Seq<u8>>::Failed { reason }),
    ensures
        ({
            let before = after(command, reports.drop_last()).task;
            let turn = after(command, reports);
            let prefix = match before {
                Task::Update => "Error performing update"@ + ": "@,
                Task::ReadPath { .. } => if reports.len() == 1 {
                    "Failed to read private key"@ + ": "@
                } else {
                    "Failed to read certificate chain"@ + ": "@
                },
                Task::ReadFile { .. } => "Failed to read certificate"@ + ": "@,
                Task::CreateDirectory => "Failed to create certificate directory"@ + ": "@,
                Task::WriteFile { file, .. } => if file == DataFile::Certificate {
                    "Failed to write certificate"@ + ": "@
                } else {
                    "Failed to write private key"@ + ": "@
                },
                _ => seq![],
            };
            if before is Daemonise {
                &&& turn.errors == seq!["Error, "@ + reason]
                &&& turn.lines == if command is Restart {
                    seq!["Success, safe-authd restarted!"@]
                } else {
                    seq![]
                }
                &&& turn.task == (Task::<Seq<char>, Seq<u8>, Seq<Seq<char>>>::Finish {
                    result: Ok(()),
                })
            } else {
                hands_out(turn, seq![], Task::Finish { result: Err(prefix + reason) })
            }
        }),
{
    lemma_trace(command, reports.drop_last());
    lemma_plan(command, reports.drop_last());
    lemma_colon("Failed to read private key"@, reason);
    lemma_colon("Failed to read certificate chain"@, reason);
    lemma_colon("Failed to create certificate directory"@, reason);
    lemma_colon("Failed to write certificate"@, reason);
    lemma_colon("Failed to write private key"@, reason);
    assert(Seq::<char>::empty() + reason =~= reason);
    assert("Error performing update: "@ =~= "Error performing update"@ + ": "@) by {
        reveal_strlit("Error performing update: ");
        reveal_strlit("Error performing update");
        reveal_strlit(": ");
    }
    assert("Failed to read certificate: "@ =~= "Failed to read certificate"@ + ": "@) by {
        reveal_strlit("Failed to read certificate: ");
        reveal_strlit("Failed to read certificate");
        reveal_strlit(": ");
    }
}

/// How an error with one cause is shown.
proof fn lemma_colon(context: Seq<char>, reason: Seq<char>)
    ensures
        pretty_text(seq![context, reason]) == context + ": "@ + reason,
{
    law_context_in_front(context, seq![reason]);
    law_context_in_front(reason, seq![reason]);
    assert(seq![context] + seq![reason] =~= seq![context, reason]);
}

/// Every task takes each report that can come of it, and no other: all can fail; reading gives text
/// or bytes, and a file of the daemon can be missing; of a program there is how it ended; of making
/// credentials, these; the others are done. A command that has ended takes none.
pub proof fn law_reports_expected(
    command: Command<Seq<char>>,
    reports: Seq<Report<Seq<char>, Seq<u8>>>,
    report: Report<Seq<char>, Seq<u8>>,
)
    requires
        accepted(command, reports),
    ensures
        accepted(command, reports.push(report)) <==> match after(command, reports).task {
            Task::Finish { .. } => false,
            Task::ReadPid { .. } => report is Text || report is Failed,
            Task::Execute { .. } => report is Exited || report is Failed,
            Task::ReadPath { .. } => report is Bytes || report is Failed,
            Task::ReadFile { .. } => report is Bytes || report is Missing || report is Failed,
            Task::Generate => report is Generated || report is Failed,
            _ => report is Done || report is Failed,
        },
        after(command, reports.push(report)) == next(after(command, reports).phase, report),
{
    lemma_trace(command, reports);
    assert(reports.push(report).drop_last() =~= reports);
}

/// What is carried out within ends as it does when it is told. A certificate that was made is one for
/// `localhost`, and its directory is created next; where none was made, the command ends with the
/// reason. An endpoint that was set up is handed out and the daemon goes into the background; where
/// none was, the command ends with the reason why the credentials cannot be read or used. On any
/// other task nothing is carried out.
pub proof fn law_carried_out_as_told(
    phase: Phase<Seq<char>, Seq<u8>>,
    report: Report<Seq<char>, Seq<u8>>,
    turn: Turn<Seq<char>, Seq<u8>, Seq<Seq<char>>>,
    endpoint: Option<quinn::EndpointBuilder>,
)
    requires
        accepts(phase, report),
        advanced(next(phase, report), turn, endpoint),
    ensures
        match next(phase, report).task {
            Task::Generate => {
                &&& endpoint is None
                &&& {
                    ||| {
                        &&& hands_out(turn, seq![], Task::CreateDirectory)
                        &&& turn.phase matches Phase::CreatingDirectory { cert, key, .. }
                        &&& issued_for(
                            seq![seq!['l', 'o', 'c', 'a', 'l', 'h', 'o', 's', 't']],
                            cert,
                            key,
                        )
                    }
                    ||| {
                        &&& turn.task matches Task::Finish { result: Err(reason) }
                        &&& hands_out(turn, seq![], Task::Finish { result: Err(reason) })
                        &&& not_issued_for(
                            seq![seq!['l', 'o', 'c', 'a', 'l', 'h', 'o', 's', 't']],
                            reason,
                        )
                    }
                }
            },
            Task::Configure { cert, key, format, keylog, stateless_retry } => match endpoint {
                Some(builder) => {
                    &&& set_up(builder, cert, key, format, keylog, stateless_retry)
                    &&& turn.task is Daemonise
                },
                None => hands_out(
                    turn,
                    seq![],
                    Task::Finish {
                        result: Err(
                            if format == Format::Pem && pem_key_error(key) is Some {
                                pem_key_error(key)->Some_0
                            } else if format == Format::Pem && malformed_chain(cert) {
                                "malformed certificate chain"@
                            } else {
                                "unexpected error: General(\"invalid private key\")"@
                            },
                        ),
                    },
                ),
            },
            _ => endpoint is None && turn == next(phase, report),
        },
{
    let mid = next(phase, report);
    if mid.task is Generate {
        assert(mid.phase is Generating);
        assert forall|cert: Seq<u8>, key: Seq<u8>| #[trigger]
            crate::tls::generated(cert, key) implies issued_for(
            seq![seq!['l', 'o', 'c', 'a', 'l', 'h', 'o', 's', 't']],
            cert,
            key,
        ) by {
            law_generated_for_localhost(cert, key, seq![]);
        }
        assert forall|reason: Seq<char>| #[trigger]
            crate::tls::generation_failed(reason) implies not_issued_for(
            seq![seq!['l', 'o', 'c', 'a', 'l', 'h', 'o', 's', 't']],
            reason,
        ) by {
            law_generated_for_localhost(seq![], seq![], reason);
        }
    }
}

/// The views of commands, reports and turns keep each text, each byte string, each flag and each line
/// in its place.
pub proof fn law_daemon_views(
    options: StartOptions<String>,
    command: Command<String>,
    plan: Plan<String>,
    report: Report<String, Vec<u8>>,
    turn: Turn<String, Vec<u8>, Vec<String>>,
)
    ensures
        options@.keylog == options.keylog,
        options@.stateless_retry == options.stateless_retry,
        options@.listen == options.listen@,
        options.credentials is None ==> options@.credentials is None,
        options.credentials matches Some((key_path, chain_path)) ==> options@.credentials == Some(
            (key_path@, chain_path@),
        ),
        command@ == (match command {
            Command::Start { options } => Command::Start { options: options@ },
            Command::Stop => Command::Stop,
            Command::Restart { listen } => Command::Restart { listen: listen@ },
            Command::Update => Command::Update,
        }),
        plan@.restart == plan.restart,
        plan@.keylog == plan.keylog,
        plan@.stateless_retry == plan.stateless_retry,
        plan@.listen == plan.listen@,
        report@ == (match report {
            Report::Done => Report::Done,
            Report::Failed { reason } => Report::Failed { reason: reason@ },
            Report::Missing => Report::Missing,
            Report::Text { text } => Report::Text { text: text@ },
            Report::Bytes { bytes } => Report::Bytes { bytes: bytes@ },
            Report::Exited { success, output, errors } => Report::Exited {
                success,
                output: output@,
                errors: errors@,
            },
            Report::Generated { cert, key } => Report::Generated { cert: cert@, key: key@ },
        }),
        turn@.phase == turn.phase@,
        turn@.task == turn.task@,
        turn@.lines.len() == turn.lines@.len(),
        forall|i: int| 0 <= i < turn.lines@.len() ==> #[trigger] turn@.lines[i] == turn.lines@[i]@,
        turn@.errors.len() == turn.errors@.len(),
        forall|i: int|
            0 <= i < turn.errors@.len() ==> #[trigger] turn@.errors[i] == turn.errors@[i]@,
        result_text(Ok(())) == Ok::<(), Seq<char>>(()),
        forall|text: String| #[trigger] result_text(Err(text)) == Err::<(), Seq<char>>(text@),
        maybe_text(None) is None,
        forall|text: String| #[trigger] maybe_text(Some(text)) == Some(text@),
{
}

/// The views of tasks keep each text, each byte string and each flag in its place.
pub proof fn law_task_views(task: Task<String, Vec<u8>, Vec<String>>)
    ensures
        task@ == (match task {
            Task::Update => Task::Update,
            Task::ReadPid { file } => Task::ReadPid { file: file@ },
            Task::Execute { program, .. } => Task::Execute {
                program: program@,
                arguments: task@->arguments,
            },
            Task::Print { bytes } => Task::Print { bytes: bytes@ },
            Task::ReadPath { path } => Task::ReadPath { path: path@ },
            Task::ReadFile { file } => Task::ReadFile { file },
            Task::Generate => Task::Generate,
            Task::CreateDirectory => Task::CreateDirectory,
            Task::WriteFile { file, bytes } => Task::WriteFile { file, bytes: bytes@ },
            Task::Configure { cert, key, format, keylog, stateless_retry } => Task::Configure {
                cert: cert@,
                key: key@,
                format,
                keylog,
                stateless_retry,
            },
            Task::Daemonise { pid_file, working_directory, umask, stdout, stderr } => {
                Task::Daemonise {
                    pid_file: pid_file@,
                    working_directory: working_directory@,
                    umask,
                    stdout: stdout@,
                    stderr: stderr@,
                }
            },
            Task::Serve { listen } => Task::Serve { listen: listen@ },
            Task::Finish { result: Ok(()) } => Task::Finish { result: Ok(()) },
            Task::Finish { result: Err(text) } => Task::Finish { result: Err(text@) },
        }),
        task matches Task::Execute { arguments, .. } ==> {
            &&& task@->arguments.len() == arguments@.len()
            &&& forall|i: int|
                0 <= i < arguments@.len() ==> #[trigger] task@->arguments[i] == arguments@[i]@
        },
{
}

/// The views of phases keep what the phases hold.
pub proof fn law_phase_views(phase: Phase<String, Vec<u8>>)
    ensures
        phase@ == (match phase {
            Phase::Updating => Phase::Updating,
            Phase::ReadingPid { restart: None } => Phase::ReadingPid { restart: None },
            Phase::ReadingPid { restart: Some(listen) } => Phase::ReadingPid {
                restart: Some(listen@),
            },
            Phase::Killing { restart: None } => Phase::Killing { restart: None },
            Phase::Killing { restart: Some(listen) } => Phase::Killing { restart: Some(listen@) },
            Phase::Relaying { restart: None, killed } => Phase::Relaying { restart: None, killed },
            Phase::Relaying { restart: Some(listen), killed } => Phase::Relaying {
                restart: Some(listen@),
                killed,
            },
            Phase::ReadingGivenKey { plan, chain_path } => Phase::ReadingGivenKey {
                plan: plan@,
                chain_path: chain_path@,
            },
            Phase::ReadingGivenChain { plan, key } => Phase::ReadingGivenChain {
                plan: plan@,
                key: key@,
            },
            Phase::ReadingCertificate { plan } => Phase::ReadingCertificate { plan: plan@ },
            Phase::ReadingKey { plan, cert } => Phase::ReadingKey { plan: plan@, cert: cert@ },
            Phase::Generating { plan } => Phase::Generating { plan: plan@ },
            Phase::CreatingDirectory { plan, cert, key } => Phase::CreatingDirectory {
                plan: plan@,
                cert: cert@,
                key: key@,
            },
            Phase::WritingCertificate { plan, cert, key } => Phase::WritingCertificate {
                plan: plan@,
                cert: cert@,
                key: key@,
            },
            Phase::WritingKey { plan, cert, key } => Phase::WritingKey {
                plan: plan@,
                cert: cert@,
                key: key@,
            },
            Phase::Configuring { plan } => Phase::Configuring { plan: plan@ },
            Phase::Daemonising { plan } => Phase::Daemonising { plan: plan@ },
            Phase::Serving { plan } => Phase::Serving { plan: plan@ },
            Phase::Finished => Phase::Finished,
        }),
{
}

/// The commands take this course: what is run begins it, and what follows on a report goes on with it.
pub proof fn law_course_taken(
    command: Command<String>,
    beginning: Turn<String, Vec<u8>, Vec<String>>,
    phase: Phase<String, Vec<u8>>,
    report: Report<String, Vec<u8>>,
    following: Turn<String, Vec<u8>, Vec<String>>,
    advancing: (Turn<String, Vec<u8>, Vec<String>>, Option<quinn::EndpointBuilder>),
)
    requires
        call_ensures(run, (command,), beginning),
        accepts(phase@, report@),
        call_ensures(follow, (phase, report), following),
        call_ensures(advance, (phase, report), advancing),
    ensures
        beginning@ == first(command@),
        following@ == next(phase@, report@),
        advanced(next(phase@, report@), advancing.0@, advancing.1),
{
}

/// The files of the daemon have these names.
pub proof fn law_files_named(certificate: &'static str, key: &'static str)
    requires
        call_ensures(DataFile::name, (DataFile::Certificate,), certificate),
        call_ensures(DataFile::name, (DataFile::Key,), key),
    ensures
        certificate@ == "cert.der"@,
        key@ == "key.der"@,
{
}

} // verus!
