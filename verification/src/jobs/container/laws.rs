//! What a run in a container comes to, and what holds of containers, their images and their
//! network.

use crate::bytes;
use crate::dependencies;
use crate::enrollment::laws as login_laws;
use crate::environment::{self, Environment};
use crate::failure::Failure;
use crate::jobs::archive;
use crate::jobs::container;
use crate::jobs::container::diagnostics;
use crate::jobs::container::image::{self, LxcImage, LxcImageError};
use crate::jobs::container::lxc;
use crate::jobs::container::network::{self, Ipv4, LxcBridgeNetwork};
use crate::jobs::container::output;
use crate::jobs::container::run::{self, ContainerEvent, ContainerStep};
use crate::jobs::output::ProcessOutcome;
use crate::jobs::shell;
use crate::jobs::{CommandSpec, JobExecutionResult};
use crate::paths;
use crate::text::laws;
use crate::text::{ascii, chars, edit, number, search, split, trim};
use vstd::prelude::*;

verus! {

/// All events are that a step was done.
pub open spec fn all_done(events: Seq<ContainerEvent>) -> bool {
    forall|i: int| 0 <= i < events.len() ==> #[trigger] events[i] is Done
}

proof fn lemma_way(events: Seq<ContainerEvent>)
    ensures
        match run::run_after(events).step {
            Some(ContainerStep::Create) => events.len() == 0,
            Some(ContainerStep::Start) => events.len() == 1 && all_done(events),
            Some(ContainerStep::Network) => events.len() == 2 && all_done(events),
            Some(ContainerStep::Archive) => events.len() == 3 && all_done(events),
            Some(ContainerStep::Copy) => events.len() == 4 && all_done(events),
            Some(ContainerStep::Setup) => events.len() == 5 && all_done(events),
            Some(ContainerStep::Run) => events.len() == 6 && all_done(events),
            _ => true,
        },
    decreases events.len(),
{
    if events.len() > 0 {
        lemma_way(events.drop_last());
        if all_done(events.drop_last()) && events.last() is Done {
            assert forall|i: int| 0 <= i < events.len() implies #[trigger] events[i] is Done by {
                if i < events.len() - 1 {
                    assert(events.drop_last()[i] is Done);
                }
            }
        }
    }
}

/// The command is run in a container only after the container was made, started and given an
/// address, the workspace was packed and brought there, and what commands need was installed: in
/// this order, and each of it done.
pub proof fn command_has_a_container(events: Seq<ContainerEvent>)
    requires
        run::run_after(events).step == Some(ContainerStep::Run),
    ensures
        events.len() == 6,
        all_done(events),
        run::took(events, 0, ContainerStep::Create),
        run::took(events, 1, ContainerStep::Start),
        run::took(events, 2, ContainerStep::Network),
        run::took(events, 3, ContainerStep::Archive),
        run::took(events, 4, ContainerStep::Copy),
        run::took(events, 5, ContainerStep::Setup),
{
    lemma_way(events);
    assert(events.take(0) =~= seq![]);
    lemma_done(events, 1);
    lemma_done(events, 2);
    lemma_done(events, 3);
    lemma_done(events, 4);
    lemma_done(events, 5);
}

proof fn lemma_done(events: Seq<ContainerEvent>, n: int)
    requires
        all_done(events),
        0 <= n <= events.len(),
        n <= 6,
    ensures
        run::run_after(events.take(n)).step == Some(
            if n == 0 {
                ContainerStep::Create
            } else if n == 1 {
                ContainerStep::Start
            } else if n == 2 {
                ContainerStep::Network
            } else if n == 3 {
                ContainerStep::Archive
            } else if n == 4 {
                ContainerStep::Copy
            } else if n == 5 {
                ContainerStep::Setup
            } else {
                ContainerStep::Run
            },
        ),
    decreases n,
{
    if n > 0 {
        lemma_done(events, n - 1);
        assert(events.take(n).drop_last() =~= events.take(n - 1));
        assert(events.take(n).last() == events[n - 1]);
        assert(events[n - 1] is Done);
    }
}

/// A run in which all the steps to the command are done comes to the command, then ends what runs
/// in the container, and then removes it, whatever comes of these.
pub proof fn command_is_run(
    events: Seq<ContainerEvent>,
    first: ContainerEvent,
    second: ContainerEvent,
    third: ContainerEvent,
)
    requires
        events.len() == 6,
        all_done(events),
    ensures
        run::run_after(events).step == Some(ContainerStep::Run),
        run::run_after(events.push(first)).step == Some(ContainerStep::Stop),
        run::run_after(events.push(first).push(second)).step == Some(ContainerStep::Destroy),
        run::run_after(events.push(first).push(second).push(third)).step is None,
{
    lemma_done(events, 6);
    assert(events.take(6) =~= events);
    assert(events.push(first).drop_last() =~= events);
    assert(events.push(first).push(second).drop_last() =~= events.push(first));
    assert(events.push(first).push(second).push(third).drop_last() =~= events.push(first).push(
        second,
    ));
}

/// A step of the way to the command that is not done leads to cleaning up, and not to the command;
/// where the container was not made there is nothing to clean up.
pub proof fn failed_run_cleans_up(events: Seq<ContainerEvent>, event: ContainerEvent)
    requires
        !(event is Done),
        run::run_after(events).step matches Some(step) && !run::cleans_up(step),
    ensures
        run::run_after(events).step == Some(ContainerStep::Create) ==> run::run_after(
            events.push(event),
        ).step is None,
        run::run_after(events).step != Some(ContainerStep::Create) ==> run::run_after(
            events.push(event),
        ).step == Some(ContainerStep::Stop),
{
    assert(events.push(event).drop_last() =~= events);
}

/// What a run reports is how the command ended, or what failed before it.
pub proof fn run_reports_its_command(
    step: ContainerStep,
    before: Option<Result<JobExecutionResult, Failure>>,
    result: JobExecutionResult,
    failure: Failure,
)
    requires
        step != ContainerStep::Stop,
        step != ContainerStep::Destroy,
    ensures
        run::result_after(step, ContainerEvent::Ended(result), before) == Some(
            Ok::<JobExecutionResult, Failure>(result),
        ),
        run::result_after(step, ContainerEvent::Failed(failure), before) == Some(
            Err::<JobExecutionResult, Failure>(failure),
        ),
        run::result_after(step, ContainerEvent::Done, before) == before,
{
}

/// A container that was prepared goes on to the command; where preparing it failed the job has
/// failed, and where that could not be done at all there is a failure.
pub proof fn setup_decides(
    name: Seq<char>,
    cwd: Seq<char>,
    seconds: u64,
    outcome: ProcessOutcome,
    r: Result<Option<JobExecutionResult>, Failure>,
)
    requires
        lxc::setup_ended(name, cwd, seconds, outcome, r),
    ensures
        r matches Ok(None) <==> (outcome matches ProcessOutcome::Exited { success, .. } && success),
        r matches Ok(Some(_)) <==> (outcome matches ProcessOutcome::Exited { success, .. }
            && !success),
        r matches Ok(Some(result)) ==> result.status@ == "failed"@,
        r is Err <==> !(outcome is Exited),
{
}

/// A job in a container has succeeded where its command ended well, and failed where it ended
/// otherwise; a command that was not run to its end is a failure that keeps its causes.
pub proof fn command_decides(
    name: Seq<char>,
    cwd: Seq<char>,
    seconds: u64,
    outcome: ProcessOutcome,
    r: Result<JobExecutionResult, Failure>,
)
    requires
        lxc::command_ended(name, cwd, seconds, outcome, r),
    ensures
        r is Ok <==> outcome is Exited,
        outcome matches ProcessOutcome::Exited { success, .. } ==> (r matches Ok(result)
            && result.status@ == (if success {
            "succeeded"@
        } else {
            "failed"@
        })),
        outcome matches ProcessOutcome::NotRun(cause) ==> (r matches Err(failure)
            && failure.texts().skip(1) == cause.texts()),
{
    if let ProcessOutcome::NotRun(cause) = outcome {
        let all = seq!["failed to execute command inside lxc container "@ + name] + cause.texts();
        assert(all.skip(1) =~= cause.texts());
    }
}

/// A task in a container is done where its command ended well; else the failure tells the task and
/// how the command ended.
pub proof fn task_decides(
    name: Seq<char>,
    task: Seq<char>,
    seconds: nat,
    status: Seq<char>,
    outcome: ProcessOutcome,
    r: Result<(), Failure>,
)
    requires
        lxc::task_ended(name, task, seconds, status, outcome, r),
    ensures
        r is Ok <==> (outcome matches ProcessOutcome::Exited { success, .. } && success),
        outcome matches ProcessOutcome::Exited { success, .. } ==> (!success ==> (r matches Err(
            failure,
        ) && failure.texts().len() == 1 && ("failed to "@ + task + " with "@ + status).is_prefix_of(
            failure.texts()[0],
        ))),
{
    if let ProcessOutcome::Exited { success, stdout, stderr } = outcome {
        let head = "failed to "@ + task + " with "@ + status;
        let all = lxc::task_report(task, status, stdout@, stderr@);
        assert(all.take(head.len() as int) =~= head);
    }
}

/// A command runs in the place of the project's files: there where it names no other place, or
/// the workspace; in a place that it names only where that lies there; and else not at all.
pub proof fn command_runs_among_the_projects_files(
    command: CommandSpec,
    r: Result<String, &'static str>,
)
    requires
        lxc::guest_told(command, r),
    ensures
        command.cwd is None ==> r is Ok,
        command.cwd matches Some(path) ==> (r is Ok <==> path@ == "/workspace"@
            || lxc::PROJECT_DIR@.is_prefix_of(path@)),
        lxc::PROJECT_DIR@ == "/home/statix/docker"@,
        r matches Ok(text) ==> exists|place: Seq<char>| #[trigger]
            guest_runs(text@, place, command.env.pairs(), chars::texts(command.argv@)) && (
            command.cwd is None ==> place == lxc::PROJECT_DIR@) && (command.cwd matches Some(path)
                ==> place == (if path@ == "/workspace"@ {
                lxc::PROJECT_DIR@
            } else {
                path@
            })),
{
    assert(lxc::PROJECT_DIR@.take(lxc::PROJECT_DIR@.len() as int) =~= lxc::PROJECT_DIR@);
    assert(lxc::PROJECT_DIR@.is_prefix_of(lxc::PROJECT_DIR@));
    if let Ok(text) = r {
        let place = lxc::guest_cwd(chars::opt_text(command.cwd));
        let argv = chars::texts(command.argv@);
        let pairs = command.env.pairs();
        let script = lxc::user_text(place, pairs, argv);
        shell::word_is_read_back(script);
        shell::word_is_read_back(place);
        shell::command_is_read_back(argv);
        let lines = lxc::exports(pairs);
        assert forall|i: int| 0 <= i < pairs.len() implies exports_pair(
            #[trigger] lines[i],
            pairs[i],
        ) by {
            shell::export_is_read_back(lxc::exported_name(pairs[i].0), pairs[i].1@);
        }
        assert(lines.len() == pairs.len());
        let quoted = shell::escape(script);
        assert(text@.skip(lxc::UNPACK@.len() as int) =~= quoted);
        assert(text@.take(lxc::UNPACK@.len() as int) =~= lxc::UNPACK@);
        let d = shell::escape(place);
        let t = shell::command_text(argv);
        assert(script == "cd "@ + d + " && "@ + split::join(lines, " "@) + " exec "@ + t);
        assert(user_runs(script, place, pairs, argv));
        assert(guest_runs(text@, place, pairs, argv));
    }
}

/// A line sets and exports the variable of a pair: under its name where a shell takes that for a
/// variable, and else under a name that tells that it does not.
pub open spec fn exports_pair(line: Seq<char>, pair: (Seq<char>, String)) -> bool {
    if shell::variable_name(pair.0) {
        shell::sets(line, pair.0, pair.1@)
    } else {
        shell::sets(line, "STATIX_INVALID_ENV"@, pair.1@)
    }
}

/// A script goes to a place, sets variables, and runs a command in its own place.
pub open spec fn user_runs(
    script: Seq<char>,
    place: Seq<char>,
    pairs: Seq<(Seq<char>, String)>,
    argv: Seq<Seq<char>>,
) -> bool {
    exists|d: Seq<char>, lines: Seq<Seq<char>>, t: Seq<char>|
        {
            &&& script == "cd "@ + d + " && "@ + #[trigger] split::join(lines, " "@) + " exec "@ + t
            &&& #[trigger] shell::shell_words(d) == Some(seq![place])
            &&& #[trigger] shell::shell_words(t) == Some(argv)
            &&& lines.len() == pairs.len()
            &&& forall|i: int| 0 <= i < pairs.len() ==> exports_pair(#[trigger] lines[i], pairs[i])
        }
}

/// The text that a container runs: it unpacks the workspace, and then its user runs a script.
pub open spec fn guest_runs(
    text: Seq<char>,
    place: Seq<char>,
    pairs: Seq<(Seq<char>, String)>,
    argv: Seq<Seq<char>>,
) -> bool {
    &&& text.len() >= lxc::UNPACK@.len()
    &&& text.take(lxc::UNPACK@.len() as int) == lxc::UNPACK@
    &&& exists|script: Seq<char>|
        shell::shell_words(text.skip(lxc::UNPACK@.len() as int)) == Some(seq![script])
            && #[trigger] user_runs(script, place, pairs, argv)
}

/// A container unpacks the archive that it takes in, to the place of the project's files, and runs
/// the command as the project's user.
pub proof fn container_unpacks_what_it_takes_in()
    ensures
        search::contains(
            lxc::UNPACK@,
            "tar -xzf /tmp/"@ + archive::WORKSPACE_ARCHIVE@ + " -C /home/statix/docker "@,
        ),
        search::contains(lxc::UNPACK@, "chown -R statix:statix /home/statix/docker "@),
        "su -s /bin/bash - statix -c "@.is_suffix_of(lxc::UNPACK@),
{
    reveal_strlit(
        "rm -rf /home/statix/docker && mkdir -p /home/statix/docker && tar -xzf /tmp/statix-workspace.tar.gz -C /home/statix/docker && chown -R statix:statix /home/statix/docker && su -s /bin/bash - statix -c ",
    );
    reveal_strlit("tar -xzf /tmp/");
    reveal_strlit("statix-workspace.tar.gz");
    reveal_strlit(" -C /home/statix/docker ");
    reveal_strlit("chown -R statix:statix /home/statix/docker ");
    reveal_strlit("su -s /bin/bash - statix -c ");
    let text = lxc::UNPACK@;
    let a = "tar -xzf /tmp/"@ + archive::WORKSPACE_ARCHIVE@ + " -C /home/statix/docker "@;
    assert(text.subrange(62, 62int + a.len()) =~= a);
    assert(search::occurs_at(text, a, 62));
    let b = "chown -R statix:statix /home/statix/docker "@;
    assert(text.subrange(126, 126int + b.len()) =~= b);
    assert(search::occurs_at(text, b, 126));
    let c = "su -s /bin/bash - statix -c "@;
    assert(text.skip(text.len() - c.len()) =~= c);
}

/// A program is run on a container by its name and its directory, with its own arguments behind
/// them, and by way of the helper that has the rights.
pub proof fn program_is_run_on_the_container(
    storage: Seq<char>,
    program: Seq<char>,
    name: Seq<char>,
    args: Seq<Seq<char>>,
)
    ensures
        ({
            let words = lxc::privileged(storage, program, name, args);
            &&& words.len() == 9 + args.len()
            &&& words[0] == "sudo"@
            &&& words[1] == "-n"@
            &&& words[3] == "/usr/local/libexec/statix-agent-lxc"@
            &&& words[4] == program
            &&& words.subrange(5, 9) == seq!["-n"@, name, "-P"@, storage]
            &&& words.skip(9) == args
        }),
{
    let words = lxc::privileged(storage, program, name, args);
    assert(words.subrange(5, 9) =~= seq!["-n"@, name, "-P"@, storage]);
    assert(words.skip(9) =~= args);
}

/// The containers lie in the directory of the agent's state, where the environment names one, and
/// else where they lie by default.
pub proof fn containers_lie_with_the_state(env: &Environment)
    ensures
        environment::set_var(env, "STATIX_AGENT_STATE_DIR"@) matches Some(dir) ==> lxc::storage(env)
            == paths::join(paths::join(dir, "lxc"@), "containers"@),
        environment::set_var(env, "STATIX_AGENT_STATE_DIR"@) is None ==> (environment::set_var(
            env,
            "STATE_DIRECTORY"@,
        ) matches Some(dir) ==> lxc::storage(env) == paths::join(
            paths::join(dir, "lxc"@),
            "containers"@,
        )),
        environment::set_var(env, "STATIX_AGENT_STATE_DIR"@) is None && environment::set_var(
            env,
            "STATE_DIRECTORY"@,
        ) is None ==> lxc::storage(env) == "/var/lib/lxc"@,
{
}

/// Diagnostics show each word of a command so that a shell reads it back, but for one that follows
/// a word that announces a secret; of that they show nothing.
pub proof fn words_are_shown(command: Seq<Seq<char>>, i: int)
    requires
        0 <= i < command.len(),
    ensures
        lxc::redacted_words(command).len() == command.len(),
        i > 0 && lxc::announces_secret(command[i - 1]) ==> lxc::redacted_words(command)[i]
            == "<redacted>"@,
        i == 0 || !lxc::announces_secret(command[i - 1]) ==> shell::shell_words(
            lxc::redacted_words(command)[i],
        ) == Some(seq![command[i]]),
{
    shell::word_is_read_back(command[i]);
}

/// A flag that names a token, a password, a secret or a key announces it, in whatever case.
pub proof fn secrets_are_announced(word: Seq<char>)
    ensures
        edit::lower_text(word) == "--token"@ ==> lxc::announces_secret(word),
        edit::lower_text(word) == "--password"@ ==> lxc::announces_secret(word),
        edit::lower_text(word) == "--secret"@ ==> lxc::announces_secret(word),
        edit::lower_text(word) == "--api-key"@ ==> lxc::announces_secret(word),
        edit::lower_text(word) == "-p"@ ==> lxc::announces_secret(word),
        lxc::announces_secret(word) ==> word.len() >= 2 && word[0] == '-',
{
    reveal_strlit("--token");
    reveal_strlit("--password");
    reveal_strlit("--secret");
    reveal_strlit("--api-key");
    reveal_strlit("-p");
    if lxc::announces_secret(word) {
        let flag = edit::lower_text(word);
        assert(flag.len() == word.len());
        assert(flag[0] == ascii::lower(word[0]));
    }
}

/// The limits of a container are written where they are enforced, its memory in bytes and its
/// processors by the time that they may take, and are left out where they are not.
pub proof fn limits_are_written(cpu: nat, memory_mb: nat)
    ensures
        ({
            let on = lxc::job_config(cpu, memory_mb, true);
            &&& search::contains(
                on,
                "lxc.cgroup2.memory.max = "@ + number::decimal(memory_mb * 1024 * 1024) + "\n"@,
            )
            &&& search::contains(
                on,
                "lxc.cgroup2.cpu.max = "@ + number::decimal(cpu * 100_000) + " 100000\n"@,
            )
        }),
        forall|c: nat, m: nat|
            lxc::job_config(cpu, memory_mb, false) == #[trigger] lxc::job_config(c, m, false),
{
    let on = lxc::job_config(cpu, memory_mb, true);
    let head = "\n# Statix job runtime config\n"@;
    let a = "lxc.cgroup2.memory.max = "@ + number::decimal(memory_mb * 1024 * 1024) + "\n"@;
    let b = "lxc.cgroup2.cpu.max = "@ + number::decimal(cpu * 100_000) + " 100000\n"@;
    let i = head.len() as int;
    assert(on.subrange(i, i + a.len()) =~= a);
    assert(search::occurs_at(on, a, i));
    let j = i + a.len();
    assert(on.subrange(j, j + b.len()) =~= b);
    assert(search::occurs_at(on, b, j));
}

/// An image is named by a distribution and a release with a colon between them; blanks around
/// both make no difference. The numbers of Ubuntu's releases stand for their names, and other
/// releases for themselves.
pub proof fn image_is_read(value: Seq<char>, r: Result<LxcImage, LxcImageError>)
    requires
        image::parsed(value, r),
    ensures
        trim::trim(value).len() == 0 ==> r == Err::<LxcImage, LxcImageError>(LxcImageError::Empty),
        trim::trim(value).len() > 0 && laws::lacks(trim::trim(value), ':') ==> r == Err::<
            LxcImage,
            LxcImageError,
        >(LxcImageError::Format),
        r matches Ok(found) ==> {
            &&& found.distribution@.len() > 0
            &&& found.distribution@ != "ubuntu"@ ==> exists|k: int|
                0 <= k < trim::trim(value).len() && #[trigger] trim::trim(value)[k] == ':'
                    && found.release@ == trim::trim(trim::trim(value).skip(k + 1))
        },
{
    let t = trim::trim(value);
    search::lemma_find_char(t, ':', 0);
    if let Ok(found) = r {
        let k = search::find_char(t, ':', 0)->Some_0;
        assert(t[k] == ':');
    }
}

/// A text of a distribution and a release names that image.
pub proof fn named_image_is_found(
    distribution: Seq<char>,
    release: Seq<char>,
    r: Result<LxcImage, LxcImageError>,
)
    requires
        laws::one_word(distribution),
        laws::lacks(distribution, ':'),
        laws::one_word(release),
        image::parsed(distribution + seq![':'] + release, r),
    ensures
        r matches Ok(found) && found.distribution@ == distribution && found.release@
            == image::release_name(distribution, release),
{
    let s = distribution + seq![':'] + release;
    let none = Seq::<char>::empty();
    laws::blanks_are_trimmed(none, s, none);
    laws::blanks_are_trimmed(none, distribution, none);
    laws::blanks_are_trimmed(none, release, none);
    assert(none + s + none =~= s);
    assert(none + distribution + none =~= distribution);
    assert(none + release + none =~= release);
    search::lemma_find_char(s, ':', 0);
    assert(s[distribution.len() as int] == ':');
    let k = search::find_char(s, ':', 0)->Some_0;
    if k < distribution.len() {
        assert(s[k] == distribution[k]);
    }
    assert(s.take(k) =~= distribution);
    assert(s.skip(k + 1) =~= release);
}

/// The releases of Ubuntu that are known by number have their names, and all others keep theirs.
pub proof fn releases_have_their_names(distribution: Seq<char>, release: Seq<char>)
    ensures
        image::release_name("ubuntu"@, "24.04"@) == "noble"@,
        image::release_name("ubuntu"@, "22.04"@) == "jammy"@,
        image::release_name("ubuntu"@, "20.04"@) == "focal"@,
        distribution != "ubuntu"@ ==> image::release_name(distribution, release) == release,
        release != "24.04"@ && release != "22.04"@ && release != "20.04"@ ==> image::release_name(
            distribution,
            release,
        ) == release,
        image::image_arch("x86_64"@) == "amd64"@,
        image::image_arch("aarch64"@) == "arm64"@,
{
    reveal_strlit("24.04");
    reveal_strlit("22.04");
    reveal_strlit("20.04");
    reveal_strlit("x86_64");
    reveal_strlit("aarch64");
    assert("24.04"@[1] != "22.04"@[1]);
    assert("24.04"@[1] != "20.04"@[1]);
    assert("22.04"@[1] != "20.04"@[1]);
    assert("x86_64"@.len() != "aarch64"@.len());
}

proof fn lemma_octet(n: nat)
    requires
        n <= 255,
    ensures
        network::octet(number::decimal(n)) == Some(n),
        laws::lacks(number::decimal(n), '.'),
{
    number::lemma_decimal(n);
    let s = number::decimal(n);
    assert forall|i: int| 0 <= i < s.len() implies #[trigger] s[i] != '.' by {
        assert(ascii::digit(s[i]));
    }
    if n >= 10 {
        reveal_with_fuel(number::decimal, 4);
        let d = number::decimal(n / 10);
        if n >= 100 {
            assert(number::decimal(n / 10 / 10) == seq![number::digit_char(n / 10 / 10)]);
            assert(s[0] == number::digit_char(n / 10 / 10));
        } else {
            assert(d == seq![number::digit_char(n / 10)]);
            assert(s[0] == number::digit_char(n / 10));
        }
    }
}

/// An address is read as it is written.
pub proof fn address_is_read_back(ip: Ipv4)
    ensures
        network::address(ip.text()) == Some(ip),
{
    reveal_strlit(".");
    let a = number::decimal(ip.a as nat);
    let b = number::decimal(ip.b as nat);
    let c = number::decimal(ip.c as nat);
    let d = number::decimal(ip.d as nat);
    lemma_octet(ip.a as nat);
    lemma_octet(ip.b as nat);
    lemma_octet(ip.c as nat);
    lemma_octet(ip.d as nat);
    let parts = seq![a, b, c, d];
    laws::pieces_are_read_back(parts, '.');
    let dot = seq!['.'];
    assert("."@ =~= dot);
    laws::lemma_join_front(parts, dot);
    assert(parts.skip(1) =~= seq![b, c, d]);
    laws::lemma_join_front(seq![b, c, d], dot);
    assert(seq![b, c, d].skip(1) =~= seq![c, d]);
    laws::lemma_join_front(seq![c, d], dot);
    assert(seq![c, d].skip(1) =~= seq![d]);
    assert(split::join(seq![d], dot) == d);
    assert(split::join(parts, dot) =~= ip.text());
}

/// A text that is read as an address has three dots and else digits alone.
pub proof fn addresses_are_numbers_and_dots(s: Seq<char>)
    requires
        network::address(s) is Some,
    ensures
        split::split(s, '.').len() == 4,
        forall|k: int|
            0 <= k < 4 ==> 1 <= (#[trigger] split::split(s, '.')[k]).len() <= 3
                && number::all_digits(split::split(s, '.')[k]),
{
}

/// The network of the bridge is told by the first word that a slash divides: the address of the
/// bridge before it, and the length of the prefix behind it. A network with no room for a
/// container is none.
pub proof fn bridge_is_read(before: Seq<Seq<char>>, ip: Ipv4, length: nat, after: Seq<Seq<char>>)
    requires
        forall|i: int|
            0 <= i < before.len() ==> laws::one_word(#[trigger] before[i]) && laws::lacks(
                before[i],
                '/',
            ),
        forall|i: int| 0 <= i < after.len() ==> laws::one_word(#[trigger] after[i]),
        length <= 255,
    ensures
        ({
            let word = ip.text() + seq!['/'] + number::decimal(length);
            let output = split::join(before.push(word) + after, seq![' ']);
            &&& length <= 30 ==> (network::bridge_network(output) matches Some(found)
                && found.gateway == ip && found.prefix_len == length)
            &&& length > 30 ==> network::bridge_network(output) is None
        }),
{
    let word = ip.text() + seq!['/'] + number::decimal(length);
    let words = before.push(word) + after;
    address_is_read_back(ip);
    lemma_ip_word(ip);
    number::lemma_decimal(length);
    number::parse_of_decimal(length, 255);
    assert(laws::one_word(word)) by {
        assert forall|i: int| 0 <= i < word.len() implies !ascii::white(#[trigger] word[i]) by {
            let t = ip.text();
            if i < t.len() {
                assert(word[i] == t[i]);
            } else if i > t.len() {
                let d = number::decimal(length);
                assert(word[i] == d[i - t.len() - 1]);
                assert(ascii::digit(d[i - t.len() - 1]));
            }
        }
    }
    assert forall|i: int| 0 <= i < words.len() implies laws::one_word(#[trigger] words[i]) by {
        if i < before.len() {
            assert(words[i] == before[i]);
        } else if i == before.len() {
            assert(words[i] == word);
        } else {
            assert(words[i] == after[i - before.len() - 1]);
        }
    }
    laws::words_are_read_back(words);
    let k = before.len() as int;
    lemma_none_divided(before);
    search::lemma_find_char(word, '/', 0);
    let t = ip.text();
    assert(word[t.len() as int] == '/');
    let at = search::find_char(word, '/', 0)->Some_0;
    if at < t.len() {
        assert(word[at] == t[at]);
    }
    assert(word.take(at) =~= t);
    assert(word.skip(at + 1) =~= number::decimal(length));
    assert(words.take(k + 1).drop_last() =~= before);
    assert(words.take(k + 1).last() == word);
    assert(network::first_divided(words.take(k + 1)) == split::split_once_char(word, '/'));
    lemma_divided_stays(words, k + 1);
}

proof fn lemma_ip_word(ip: Ipv4)
    ensures
        ip.text().len() > 0,
        forall|i: int|
            0 <= i < ip.text().len() ==> !ascii::white(#[trigger] ip.text()[i]) && ip.text()[i]
                != '/',
{
    reveal_strlit(".");
    number::lemma_decimal(ip.a as nat);
    number::lemma_decimal(ip.b as nat);
    number::lemma_decimal(ip.c as nat);
    number::lemma_decimal(ip.d as nat);
    let a = number::decimal(ip.a as nat);
    let b = number::decimal(ip.b as nat);
    let c = number::decimal(ip.c as nat);
    let d = number::decimal(ip.d as nat);
    let t = ip.text();
    assert forall|i: int| 0 <= i < t.len() implies !ascii::white(#[trigger] t[i]) && t[i] != '/' by {
        let b0 = a.len() + 1;
        let c0 = b0 + b.len() + 1;
        let d0 = c0 + c.len() + 1;
        if i < a.len() {
            assert(t[i] == a[i] && ascii::digit(a[i]));
        } else if i == a.len() {
            assert(t[i] == '.');
        } else if i < b0 + b.len() {
            assert(t[i] == b[i - b0] && ascii::digit(b[i - b0]));
        } else if i == b0 + b.len() {
            assert(t[i] == '.');
        } else if i < c0 + c.len() {
            assert(t[i] == c[i - c0] && ascii::digit(c[i - c0]));
        } else if i == c0 + c.len() {
            assert(t[i] == '.');
        } else {
            assert(t[i] == d[i - d0] && ascii::digit(d[i - d0]));
        }
    }
}

proof fn lemma_none_divided(words: Seq<Seq<char>>)
    requires
        forall|i: int| 0 <= i < words.len() ==> laws::lacks(#[trigger] words[i], '/'),
    ensures
        network::first_divided(words) is None,
    decreases words.len(),
{
    if words.len() > 0 {
        let d = words.drop_last();
        assert forall|i: int| 0 <= i < d.len() implies laws::lacks(#[trigger] d[i], '/') by {
            assert(d[i] == words[i]);
        }
        lemma_none_divided(d);
        assert(laws::lacks(words[words.len() - 1], '/'));
        search::lemma_find_char(words.last(), '/', 0);
    }
}

proof fn lemma_divided_stays(words: Seq<Seq<char>>, i: int)
    requires
        0 <= i <= words.len(),
        network::first_divided(words.take(i)) is Some,
    ensures
        network::first_divided(words) == network::first_divided(words.take(i)),
    decreases words.len(),
{
    if i == words.len() {
        assert(words.take(i) =~= words);
    } else {
        assert(words.drop_last().take(i) =~= words.take(i));
        lemma_divided_stays(words.drop_last(), i);
    }
}

/// The network of the bridge is known only where asking for it succeeded.
pub proof fn bridge_is_told(success: bool, stdout: Seq<u8>, r: Option<LxcBridgeNetwork>)
    requires
        network::bridge_told(success, stdout, r),
    ensures
        !success ==> r is None,
        success ==> r == network::bridge_network(bytes::utf8_lossy(stdout)),
        r matches Some(found) ==> found.prefix_len <= 30,
{
}

/// The bytes of two names count together, and one byte counts for itself.
pub proof fn bytes_are_added_up(first: Seq<u8>, second: Seq<u8>, byte: u8)
    ensures
        network::byte_sum(first + second) == network::byte_sum(first) + network::byte_sum(second),
        network::byte_sum(seq![byte]) == byte,
    decreases second.len(),
{
    assert(seq![byte].drop_last() =~= seq![]);
    assert(network::byte_sum(seq![]) == 0);
    if second.len() == 0 {
        assert(first + second =~= first);
    } else {
        bytes_are_added_up(first, second.drop_last(), byte);
        assert((first + second).drop_last() =~= first + second.drop_last());
        assert((first + second).last() == second.last());
    }
}

/// A container's address is told by its name: the last number is ten and the remainder of what
/// the bytes of the name add up to, and the next one where that is the bridge's own.
pub proof fn name_gives_the_address(network: LxcBridgeNetwork, name: Seq<u8>)
    requires
        network::byte_sum(name) < 65536,
    ensures
        ({
            let n = 10 + network::byte_sum(name) % 240;
            let d = network::guest(network, name).d;
            &&& n != network.gateway.d ==> d == n
            &&& n == network.gateway.d ==> d == n + 1
        }),
{
}

/// The command that gives a container its address gives it that address with the prefix of the
/// network, and leads its traffic to the bridge; a container that has a route is left alone.
pub proof fn container_gets_its_address(network: LxcBridgeNetwork, guest: Ipv4)
    ensures
        ({
            let command = network::network_command(network, guest);
            &&& "if ip -4 route show default | grep -q .; then exit 0; fi; "@.is_prefix_of(command)
            &&& search::contains(
                command,
                "ip addr add "@ + guest.text() + "/"@ + number::decimal(network.prefix_len as nat)
                    + " dev "@,
            )
            &&& ("ip route replace default via "@ + network.gateway.text() + " dev \"$iface\""@).is_suffix_of(
                command,
            )
        }),
{
    let command = network::network_command(network, guest);
    let head =
        "if ip -4 route show default | grep -q .; then exit 0; fi; iface=$(ip -o link show | awk -F': ' '$2 != \"lo\" {print $2; exit}' | cut -d@ -f1); test -n \"$iface\"; ip link set \"$iface\" up; ip -4 addr show dev \"$iface\" | grep -q 'inet ' || ip addr add "@;
    reveal_strlit(
        "if ip -4 route show default | grep -q .; then exit 0; fi; iface=$(ip -o link show | awk -F': ' '$2 != \"lo\" {print $2; exit}' | cut -d@ -f1); test -n \"$iface\"; ip link set \"$iface\" up; ip -4 addr show dev \"$iface\" | grep -q 'inet ' || ip addr add ",
    );
    let first = "if ip -4 route show default | grep -q .; then exit 0; fi; "@;
    reveal_strlit("if ip -4 route show default | grep -q .; then exit 0; fi; ");
    assert(command.take(first.len() as int) =~= first);
    let verb = "ip addr add "@;
    reveal_strlit("ip addr add ");
    reveal_strlit(" dev ");
    reveal_strlit(" dev \"$iface\"; ip route replace default via ");
    reveal_strlit("ip route replace default via ");
    let piece = verb + guest.text() + "/"@ + number::decimal(network.prefix_len as nat) + " dev "@;
    let i = head.len() - verb.len();
    assert(head.skip(i) =~= verb);
    assert(command.subrange(i, i + piece.len()) =~= piece);
    assert(search::occurs_at(command, piece, i));
    let ending = "ip route replace default via "@ + network.gateway.text() + " dev \"$iface\""@;
    assert(command.skip(command.len() - ending.len()) =~= ending);
}

/// The address of a container that serves a project is the first one that is told, where asking
/// for it succeeded.
pub proof fn first_address_is_found(words: Seq<Seq<char>>, i: int)
    requires
        0 <= i <= words.len(),
        forall|j: int| 0 <= j < i ==> network::address(#[trigger] words[j]) is None,
    ensures
        i < words.len() && network::address(words[i]) is Some ==> network::first_address(words)
            == network::address(words[i]),
        i == words.len() ==> network::first_address(words) is None,
    decreases words.len(),
{
    if words.len() > 0 {
        let d = words.drop_last();
        if i < d.len() {
            assert forall|j: int| 0 <= j < i implies network::address(#[trigger] d[j]) is None by {
                assert(d[j] == words[j]);
            }
            first_address_is_found(d, i);
            assert(d[i] == words[i]);
        } else {
            assert forall|j: int| 0 <= j < d.len() implies network::address(#[trigger] d[j])
                is None by {
                assert(d[j] == words[j]);
            }
            first_address_is_found(d, d.len() as int);
            if i == words.len() {
                assert(network::address(words[i - 1]) is None);
            }
        }
    }
}

/// A container has an address where asking for it succeeded and told one.
pub proof fn address_is_told(
    name: Seq<char>,
    success: bool,
    stdout: Seq<u8>,
    stderr: Seq<u8>,
    r: Result<Ipv4, String>,
)
    requires
        lxc::address_told(name, success, stdout, stderr, r),
    ensures
        !success ==> r is Err,
        success ==> (r is Ok <==> network::first_address(split::words(bytes::utf8_lossy(stdout)))
            is Some),
        r matches Ok(found) ==> network::first_address(split::words(bytes::utf8_lossy(stdout)))
            == Some(found),
{
}

/// A container's name is `statix-` and the attempt that it is for, where that is short and of
/// lower-case letters, digits and dashes, with no dash at its ends.
pub proof fn container_is_named_after_the_attempt(attempt_id: Seq<char>)
    requires
        0 < attempt_id.len() <= 56,
        container::all_safe(attempt_id),
        attempt_id[0] != '-',
        attempt_id.last() != '-',
    ensures
        container::name_of(attempt_id) == "statix-"@ + attempt_id,
{
    let all = attempt_id.map_values(|c: char| container::name_char(c));
    assert forall|i: int| 0 <= i < attempt_id.len() implies all[i] == attempt_id[i] by {
        assert(container::safe(attempt_id[i]));
    }
    assert(all =~= attempt_id);
}

/// What a command wrote is told with the stream that it came from, without the blanks around it;
/// of a quiet stream nothing is told.
pub proof fn streams_are_told(stdout: Seq<char>, stderr: Seq<char>)
    ensures
        ({
            let out = trim::trim(stdout);
            let err = trim::trim(stderr);
            let said = diagnostics::raw_report(stdout, stderr);
            &&& out.len() == 0 && err.len() == 0 ==> said == "no output"@
            &&& out.len() > 0 && err.len() == 0 ==> said == "stdout:\n"@ + out
            &&& out.len() == 0 && err.len() > 0 ==> said == "stderr:\n"@ + err
            &&& out.len() > 0 && err.len() > 0 ==> ("stdout:\n"@ + out).is_prefix_of(said) && (
            "stderr:\n"@ + err).is_suffix_of(said)
        }),
{
    let out = trim::trim(stdout);
    let err = trim::trim(stderr);
    let said = diagnostics::raw_report(stdout, stderr);
    reveal_strlit("\n\nstderr:\n");
    reveal_strlit("stderr:\n");
    if out.len() > 0 && err.len() > 0 {
        let a = "stdout:\n"@ + out;
        let b = "stderr:\n"@ + err;
        assert(said.take(a.len() as int) =~= a);
        assert(said.skip(said.len() - b.len()) =~= b);
    }
}

/// The end of a log is told; where there is nothing in it, or it cannot be read, that is told.
pub proof fn end_of_the_log_is_told(path: Seq<char>, log: Seq<char>)
    ensures
        0 < trim::trim(log).len() <= 4_000 ==> diagnostics::excerpt(path, Ok(log)) == trim::trim(
            log,
        ),
        trim::trim(log).len() > 4_000 ==> trim::trim(log).skip(trim::trim(log).len() - 4_000)
            == diagnostics::excerpt(path, Ok(log)).skip(3),
        trim::trim(log).len() == 0 ==> diagnostics::excerpt(path, Ok(log)) == "lxc log "@ + path
            + " was empty"@,
        diagnostics::excerpt(path, Err(log)) == "failed to read lxc log "@ + path + ": "@ + log,
{
    laws::shortened_text_shows_its_cut(trim::trim(log), 4_000);
}

/// What is said of a container that does not start begins with its log. A hint follows where the
/// log tells that network devices could not be allocated, or that `/proc` could not be mounted,
/// and nothing where it tells neither.
pub proof fn failed_start_is_explained(log: Seq<char>, noatime: Option<bool>)
    ensures
        log.is_prefix_of(diagnostics::start_failure(log, noatime)),
        !diagnostics::nics_failed(log) && !diagnostics::proc_failed(log)
            ==> diagnostics::start_failure(log, noatime) == log,
        diagnostics::nics_failed(log) ==> diagnostics::start_failure(log, noatime).skip(
            log.len() as int,
        ) == diagnostics::NICS_HINT@,
        !diagnostics::nics_failed(log) && diagnostics::proc_failed(log) && noatime == Some(true)
            ==> diagnostics::NOATIME_HINT@.is_suffix_of(diagnostics::start_failure(log, noatime)),
        !diagnostics::nics_failed(log) && diagnostics::proc_failed(log) && noatime == Some(false)
            ==> diagnostics::KERNEL_HINT@.is_suffix_of(diagnostics::start_failure(log, noatime)),
{
    let said = diagnostics::start_failure(log, noatime);
    assert(said.take(log.len() as int) =~= log);
    if diagnostics::nics_failed(log) {
        assert(said.skip(log.len() as int) =~= diagnostics::NICS_HINT@);
    } else if diagnostics::proc_failed(log) {
        let hint = diagnostics::NOATIME_HINT@;
        let other = diagnostics::KERNEL_HINT@;
        if noatime == Some(true) {
            assert(said.skip(said.len() - hint.len()) =~= hint);
        }
        if noatime == Some(false) {
            assert(said.skip(said.len() - other.len()) =~= other);
        }
    }
}

/// A line of the list of mounts has the place of a mount as its fifth word and its options as its
/// sixth, separated by commas.
pub proof fn mount_line_is_read(words: Seq<Seq<char>>, options: Seq<Seq<char>>)
    requires
        words.len() > 5,
        forall|i: int| 0 <= i < words.len() ==> laws::one_word(#[trigger] words[i]),
        options.len() > 0,
        forall|i: int| 0 <= i < options.len() ==> laws::lacks(#[trigger] options[i], ','),
        words[5] == split::join(options, seq![',']),
    ensures
        diagnostics::is_proc(split::join(words, seq![' '])) <==> words[4] == "/proc"@,
        diagnostics::has_noatime(split::join(words, seq![' '])) <==> options.contains("noatime"@),
{
    laws::words_are_read_back(words);
    laws::pieces_are_read_back(options, ',');
}

/// `/proc` is mounted with `noatime` where some line for it says so; it is not where there are
/// lines for it and none does; and it is not known without such a line.
pub proof fn mounts_are_told(mountinfo: Seq<char>)
    ensures
        ({
            let lines = split::lines(mountinfo);
            &&& diagnostics::noatime(mountinfo) == Some(true) <==> exists|i: int|
                0 <= i < lines.len() && diagnostics::is_proc(#[trigger] lines[i])
                    && diagnostics::has_noatime(lines[i])
            &&& diagnostics::noatime(mountinfo) is None <==> forall|i: int|
                0 <= i < lines.len() ==> !diagnostics::is_proc(#[trigger] lines[i])
        }),
{
    let lines = split::lines(mountinfo);
    if diagnostics::lists_noatime(lines) {
        let i = choose|i: int|
            0 <= i < lines.len() && diagnostics::is_proc(#[trigger] lines[i])
                && diagnostics::has_noatime(lines[i]);
        assert(diagnostics::is_proc(lines[i]));
    }
}

/// A stretch of output that a line feed or a carriage return ends is told once it is ended, and
/// not before; an empty one is not told.
pub proof fn ended_output_is_told(stretch: Seq<u8>, end: u8)
    requires
        forall|i: int| 0 <= i < stretch.len() ==> #[trigger] stretch[i] != 10 && stretch[i] != 13,
        end == 10 || end == 13,
    ensures
        output::told(stretch) == Seq::<Seq<char>>::empty(),
        stretch.len() > 0 ==> output::told(stretch.push(end)) == seq![bytes::utf8_lossy(stretch)],
        stretch.len() == 0 ==> output::told(stretch.push(end)) == Seq::<Seq<char>>::empty(),
{
    lemma_uncut(stretch);
    let ended = stretch.push(end);
    assert(ended.drop_last() =~= stretch);
    let none = Seq::<Seq<u8>>::empty();
    assert(bytes::cut(ended, true).complete =~= none.push(stretch));
    assert(none.push(stretch).drop_last() =~= none);
    assert(output::shown(none) =~= seq![]);
    assert(output::shown(none.push(stretch)) =~= if stretch.len() == 0 {
        seq![]
    } else {
        seq![bytes::utf8_lossy(stretch)]
    });
}

proof fn lemma_uncut(stretch: Seq<u8>)
    requires
        forall|i: int| 0 <= i < stretch.len() ==> #[trigger] stretch[i] != 10 && stretch[i] != 13,
    ensures
        bytes::cut(stretch, true).complete == Seq::<Seq<u8>>::empty(),
        bytes::cut(stretch, true).pending == stretch,
    decreases stretch.len(),
{
    if stretch.len() > 0 {
        let d = stretch.drop_last();
        assert forall|i: int| 0 <= i < d.len() implies #[trigger] d[i] != 10 && d[i] != 13 by {
            assert(d[i] == stretch[i]);
        }
        lemma_uncut(d);
        assert(stretch[stretch.len() - 1] != 10 && stretch[stretch.len() - 1] != 13);
        assert(d.push(stretch.last()) =~= stretch);
    } else {
        assert(bytes::cut(stretch, true).pending =~= stretch);
    }
}

/// Containers can be managed where all of the programs and the helper are there, and then only.
pub proof fn containers_need_their_programs(found: Seq<bool>, helper_found: bool)
    requires
        found.len() == lxc::required().len(),
    ensures
        lxc::dependency_error(found, helper_found) is None <==> helper_found && forall|i: int|
            0 <= i < found.len() ==> #[trigger] found[i],
        !helper_found && (forall|i: int| 0 <= i < found.len() ==> #[trigger] found[i]) ==> (
        lxc::dependency_error(found, helper_found) matches Some(said)
            && "Missing LXC privilege helper at /usr/local/libexec/statix-agent-lxc"@.is_prefix_of(
            said,
        )),
{
    login_laws::missing_programs_are_told(lxc::required(), found);
    reveal_strlit("Missing LXC privilege helper at /usr/local/libexec/statix-agent-lxc");
    reveal_strlit("Missing LXC privilege helper at ");
    reveal_strlit("/usr/local/libexec/statix-agent-lxc");
    if let Some(said) = lxc::dependency_error(found, helper_found) {
        let head = "Missing LXC privilege helper at "@ + lxc::HELPER@;
        assert(head =~= "Missing LXC privilege helper at /usr/local/libexec/statix-agent-lxc"@);
        if dependencies::missing(lxc::required(), found).len() == 0 {
            assert(said.take(head.len() as int) =~= head);
        }
    }
}

/// A failure to allocate network devices, and one to mount `/proc`, are recognised by the words
/// that the log has of them, wherever they stand, and only by all of them.
pub proof fn failures_are_recognised(log: Seq<char>)
    ensures
        diagnostics::nics_failed(log) <==> {
            &&& search::contains(log, "lxc-user-nic failed to configure requested network"@)
            &&& search::contains(log, "Read-only file system"@)
            &&& search::contains(log, "/run/lxc/nics"@)
        },
        diagnostics::proc_failed(log) <==> {
            &&& search::contains(log, "Failed to mount \"proc\""@)
            &&& search::contains(log, "/usr/lib/"@)
            &&& search::contains(log, "/lxc/rootfs/proc"@)
            &&& search::contains(log, "Operation not permitted"@)
        },
{
}

/// Each program that containers are made, started, entered and removed with is required.
pub proof fn programs_are_required()
    ensures
        lxc::required().contains("sudo"@),
        lxc::required().contains("lxc-create"@),
        lxc::required().contains("lxc-start"@),
        lxc::required().contains("lxc-wait"@),
        lxc::required().contains("lxc-attach"@),
        lxc::required().contains("lxc-stop"@),
        lxc::required().contains("lxc-destroy"@),
{
    let all = lxc::required();
    assert(all[0] == "sudo"@);
    assert(all[1] == "lxc-create"@);
    assert(all[2] == "lxc-start"@);
    assert(all[3] == "lxc-wait"@);
    assert(all[4] == "lxc-attach"@);
    assert(all[5] == "lxc-stop"@);
    assert(all[6] == "lxc-destroy"@);
}

} // verus!
