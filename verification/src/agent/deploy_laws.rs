//! What a deployment comes to: which commands it runs, in which order, and with which variables.

use crate::agent::bundle;
use crate::agent::deploy::{self, DeployAction, Deployment};
use crate::agent::{DeployJob, DeploymentSetup};
use crate::jobs::shell;
use crate::string_map;
use crate::text::{chars, split, trim};
use vstd::prelude::*;

verus! {

/// A line sets the variable of one of the pairs.
pub open spec fn set_by(line: Seq<char>, pairs: Seq<(Seq<char>, String)>) -> bool {
    exists|i: int|
        0 <= i < pairs.len() && shell::variable_name(trim::trim(pairs[i].0)) && shell::sets(
            line,
            trim::trim((#[trigger] pairs[i]).0),
            pairs[i].1@,
        )
}

/// One of the lines sets a variable to a value.
pub open spec fn is_set(lines: Seq<Seq<char>>, name: Seq<char>, value: Seq<char>) -> bool {
    exists|j: int| 0 <= j < lines.len() && shell::sets(#[trigger] lines[j], name, value)
}

/// Lines set the variables of pairs, all those that a shell takes for variables and no others.
pub open spec fn set_all(lines: Seq<Seq<char>>, pairs: Seq<(Seq<char>, String)>) -> bool {
    &&& forall|j: int| 0 <= j < lines.len() ==> set_by(#[trigger] lines[j], pairs)
    &&& forall|i: int|
        0 <= i < pairs.len() && shell::variable_name(trim::trim((#[trigger] pairs[i]).0)) ==> is_set(
            lines,
            trim::trim(pairs[i].0),
            pairs[i].1@,
        )
}

/// A script sets the variables of pairs and then runs a command in its place.
pub open spec fn runs_with(
    script: Seq<char>,
    pairs: Seq<(Seq<char>, String)>,
    command: Seq<Seq<char>>,
) -> bool {
    exists|lines: Seq<Seq<char>>, text: Seq<char>|
        {
            &&& set_all(lines, pairs)
            &&& script == #[trigger] split::join(lines, " "@) + " exec "@ + text
            &&& #[trigger] shell::shell_words(text) == Some(command)
        }
}

/// The command that has a shell run a script.
pub open spec fn in_a_shell(script: Seq<char>) -> Seq<Seq<char>> {
    seq!["bash"@, "-lc"@, script]
}

/// A unit starts a command: the words that a shell reads at its start.
pub open spec fn starts(unit: Seq<char>, command: Seq<Seq<char>>) -> bool {
    exists|head: Seq<char>, quoted: Seq<char>, tail: Seq<char>, line: Seq<char>|
        {
            &&& unit == #[trigger] (head + "\nExecStart=/bin/bash -lc "@) + quoted + #[trigger] ("\n"@
                + tail)
            &&& #[trigger] shell::shell_words(quoted) == Some(seq![line])
            &&& #[trigger] shell::shell_words(line) == Some(command)
        }
}

proof fn lemma_exports(pairs: Seq<(Seq<char>, String)>)
    ensures
        set_all(deploy::exports(pairs), pairs),
    decreases pairs.len(),
{
    if pairs.len() > 0 {
        let before = pairs.drop_last();
        let last = pairs.len() - 1;
        lemma_exports(before);
        shell::export_is_read_back(trim::trim(pairs[last].0), pairs[last].1@);
        let lines = deploy::exports(pairs);
        let earlier = deploy::exports(before);
        assert forall|j: int| 0 <= j < lines.len() implies set_by(#[trigger] lines[j], pairs) by {
            if j < earlier.len() {
                assert(lines[j] == earlier[j]);
                assert(set_by(earlier[j], before));
                let i = choose|i: int|
                    0 <= i < before.len() && shell::variable_name(trim::trim(before[i].0)) && shell::sets(
                        earlier[j],
                        trim::trim((#[trigger] before[i]).0),
                        before[i].1@,
                    );
                assert(pairs[i] == before[i]);
            } else {
                assert(shell::sets(lines[j], trim::trim(pairs[last].0), pairs[last].1@));
            }
        }
        assert forall|i: int|
            0 <= i < pairs.len() && shell::variable_name(
                trim::trim((#[trigger] pairs[i]).0),
            ) implies is_set(lines, trim::trim(pairs[i].0), pairs[i].1@) by {
            if i < last {
                assert(before[i] == pairs[i]);
                assert(is_set(earlier, trim::trim(before[i].0), before[i].1@));
                let j = choose|j: int|
                    0 <= j < earlier.len() && shell::sets(
                        #[trigger] earlier[j],
                        trim::trim(before[i].0),
                        before[i].1@,
                    );
                assert(lines[j] == earlier[j]);
            } else {
                assert(shell::sets(lines[lines.len() - 1], trim::trim(pairs[i].0), pairs[i].1@));
            }
        }
    }
}

/// A command that is run with variables is run as it is where there are none. Else a shell sets
/// them all, and nothing else, and then runs the words of the command in its place.
pub proof fn command_runs_with_variables(
    command: Seq<Seq<char>>,
    pairs: Seq<(Seq<char>, String)>,
)
    ensures
        pairs.len() == 0 ==> deploy::with_variables(command, pairs) == command,
        pairs.len() > 0 ==> {
            &&& deploy::with_variables(command, pairs).len() == 3
            &&& deploy::with_variables(command, pairs)[0] == "bash"@
            &&& deploy::with_variables(command, pairs)[1] == "-lc"@
            &&& runs_with(deploy::with_variables(command, pairs)[2], pairs, command)
        },
{
    lemma_exports(pairs);
    shell::command_is_read_back(command);
    let lines = deploy::exports(pairs);
    let text = shell::command_text(command);
    if pairs.len() > 0 {
        assert(deploy::with_variables(command, pairs)[2] == split::join(lines, " "@) + " exec "@
            + text);
    }
}

/// The unit of a project starts the words of its command, whatever characters they hold.
pub proof fn unit_starts_its_command(
    project_id: Seq<char>,
    environment: Seq<char>,
    command: Seq<Seq<char>>,
)
    ensures
        starts(deploy::unit_text(project_id, environment, command), command),
{
    let line = shell::command_text(command);
    let quoted = shell::escape(line);
    shell::command_is_read_back(command);
    shell::word_is_read_back(line);
    let text = deploy::unit_text(project_id, environment, command);
    let literal =
        ")\nAfter=network-online.target\nWants=network-online.target\n\n[Service]\nType=simple\nUser=statix\nWorkingDirectory=/home/statix/docker\nEnvironment=HOME=/home/statix\nExecStart=/bin/bash -lc "@;
    reveal_strlit(
        ")\nAfter=network-online.target\nWants=network-online.target\n\n[Service]\nType=simple\nUser=statix\nWorkingDirectory=/home/statix/docker\nEnvironment=HOME=/home/statix\nExecStart=/bin/bash -lc ",
    );
    let start = "\nExecStart=/bin/bash -lc "@;
    reveal_strlit("\nExecStart=/bin/bash -lc ");
    let cut = literal.len() - start.len();
    assert(literal.take(cut) + start =~= literal);
    let head = "[Unit]\nDescription=Statix project "@ + project_id + " ("@ + environment
        + literal.take(cut);
    let ending = "\nRestart=always\nRestartSec=5\n\n[Install]\nWantedBy=multi-user.target\n"@;
    reveal_strlit("\nRestart=always\nRestartSec=5\n\n[Install]\nWantedBy=multi-user.target\n");
    reveal_strlit("\n");
    let tail = ending.skip(1);
    assert("\n"@ + tail =~= ending);
    assert(text =~= (head + start) + quoted + ("\n"@ + tail));
}

proof fn lemma_variables_are_kept(
    start: Map<Seq<char>, String>,
    setup: Seq<DeploymentSetup>,
    name: Seq<char>,
)
    requires
        start.contains_key(name),
    ensures
        deploy::variables_after(start, setup).contains_key(name),
    decreases setup.len(),
{
    if setup.len() > 0 {
        lemma_variables_are_kept(start, setup.drop_last(), name);
    }
}

/// A deployment always has variables to set.
proof fn lemma_has_variables(deployment: Deployment, job: DeployJob)
    requires
        deploy::under_way(deployment, job),
    ensures
        deployment.variables.pairs().len() > 0,
{
    deploy::deployment_is_told(job);
    let setup = job.setup@.take(deployment.done as int);
    lemma_variables_are_kept(deploy::first_variables(job), setup, "STATIX_DEPLOYMENT_ID"@);
    string_map::lemma_domain(deployment.variables.pairs(), "STATIX_DEPLOYMENT_ID"@);
}

/// A command that installs the unit of a project: a shell writes the unit's text into its file and
/// starts the unit of that name.
pub open spec fn installs(command: Seq<Seq<char>>, name: Seq<char>, unit: Seq<char>) -> bool {
    &&& command.len() == 3
    &&& command[0] == "bash"@
    &&& command[1] == "-lc"@
    &&& exists|text: Seq<char>, file: Seq<char>|
        {
            &&& command[2] == #[trigger] ("printf %s "@ + text)
                + " | sudo tee /etc/systemd/system/"@ + file
                + " >/dev/null && sudo systemctl daemon-reload && sudo systemctl enable --now "@
                + file + #[trigger] (" && sudo systemctl restart "@ + file)
            &&& shell::shell_words(text) == Some(seq![unit])
            &&& shell::shell_words(file) == Some(seq![name])
        }
}

proof fn lemma_installs(name: Seq<char>, unit: Seq<char>)
    ensures
        installs(deploy::install_command(name, unit), name, unit),
{
    let text = shell::escape(unit);
    let file = shell::escape(name);
    shell::word_is_read_back(unit);
    shell::word_is_read_back(name);
    assert(deploy::install_command(name, unit)[2] =~= ("printf %s "@ + text)
        + " | sudo tee /etc/systemd/system/"@ + file
        + " >/dev/null && sudo systemctl daemon-reload && sudo systemctl enable --now "@ + file + (
    " && sudo systemctl restart "@ + file));
}

/// What a deployment deploys is the job's own command, where it has one: the unit that is
/// installed starts a shell that sets the deployment's variables and then runs exactly the words
/// of that command. Only a job without a command gets the fallback script.
pub proof fn job_command_is_deployed(deployment: Deployment, job: DeployJob, action: DeployAction)
    requires
        deploy::under_way(deployment, job),
        deploy::acts(deployment, job, action),
        action is Deploy,
    ensures
        exists|script: Seq<char>, unit: Seq<char>|
            {
                &&& #[trigger] installs(
                    chars::texts(action->Deploy_0@),
                    deploy::unit_name(job.project_id@, job.environment@),
                    unit,
                )
                &&& #[trigger] starts(unit, in_a_shell(script))
                &&& runs_with(
                    script,
                    deployment.variables.pairs(),
                    if job.command@.len() > 0 {
                        chars::texts(job.command@)
                    } else {
                        seq!["bash"@, "-lc"@, deploy::DEFAULT_SCRIPT@]
                    },
                )
            },
{
    lemma_has_variables(deployment, job);
    let pairs = deployment.variables.pairs();
    assert(chars::texts(job.command@).len() == job.command@.len());
    let command = deploy::deploy_command(chars::texts(job.command@));
    let run = deploy::with_variables(command, pairs);
    command_runs_with_variables(command, pairs);
    assert(run =~= in_a_shell(run[2]));
    let unit = deploy::unit_text(job.project_id@, job.environment@, run);
    let name = deploy::unit_name(job.project_id@, job.environment@);
    unit_starts_its_command(job.project_id@, job.environment@, run);
    lemma_installs(name, unit);
    assert(installs(chars::texts(action->Deploy_0@), name, unit));
    assert(starts(unit, in_a_shell(run[2])));
}

/// A setup step runs the words of its own command, with the variables that are set so far.
pub proof fn setup_command_is_run(deployment: Deployment, job: DeployJob, action: DeployAction)
    requires
        deploy::under_way(deployment, job),
        deploy::acts(deployment, job, action),
        action is Setup,
    ensures
        deployment.done < job.setup@.len(),
        job.setup@[deployment.done as int].run@.len() > 0,
        chars::texts(action->Setup_0@).len() == 3,
        chars::texts(action->Setup_0@)[0] == "bash"@,
        chars::texts(action->Setup_0@)[1] == "-lc"@,
        runs_with(
            chars::texts(action->Setup_0@)[2],
            deployment.variables.pairs(),
            chars::texts(job.setup@[deployment.done as int].run@),
        ),
{
    lemma_has_variables(deployment, job);
    command_runs_with_variables(
        chars::texts(job.setup@[deployment.done as int].run@),
        deployment.variables.pairs(),
    );
}

/// A deployment runs all its setup steps before anything else, deploys only when they are done,
/// and deploys nothing in a dry run. It ends by itself only where a step has no command, which
/// fails it, or when a dry run has done its steps, which is a success.
pub proof fn deployment_goes_in_order(deployment: Deployment, job: DeployJob, action: DeployAction)
    requires
        deploy::under_way(deployment, job),
        deploy::acts(deployment, job, action),
    ensures
        action is Setup <==> deployment.done < job.setup@.len()
            && job.setup@[deployment.done as int].run@.len() > 0,
        action is Deploy <==> deployment.done == job.setup@.len() && !job.dry_run,
        action matches DeployAction::End(Ok(result)) ==> {
            &&& deployment.done == job.setup@.len()
            &&& job.dry_run
            &&& result.status@ == "succeeded"@
            &&& chars::opt_text(result.message) == Some("deployment dry run completed"@)
        },
        action matches DeployAction::End(Err(failure)) ==> {
            &&& deployment.done < job.setup@.len()
            &&& job.setup@[deployment.done as int].run@.len() == 0
            &&& failure.texts() == seq![
                "deployment setup `"@ + job.setup@[deployment.done as int].name@
                    + "` command must not be empty"@,
            ]
        },
{
}

/// The unit of a project's environment is named after both, and its name needs no quoting.
pub proof fn unit_is_named_after_the_project(project_id: Seq<char>, environment: Seq<char>)
    ensures
        shell::escape(deploy::unit_name(project_id, environment)) == deploy::unit_name(
            project_id,
            environment,
        ),
        ({
            let name = deploy::unit_name(project_id, environment);
            let p = project_id.len();
            let e = environment.len();
            &&& name.len() == 15 + p + 1 + e + 8
            &&& name.take(15) == "statix-project-"@
            &&& name.skip(15 + p + 1 + e as int) == ".service"@
            &&& name[15 + p as int] == '-'
            &&& forall|i: int|
                0 <= i < p && bundle::kept(project_id[i]) ==> #[trigger] name[15 + i]
                    == project_id[i]
            &&& forall|i: int|
                0 <= i < e && bundle::kept(environment[i]) ==> #[trigger] name[15 + p + 1 + i]
                    == environment[i]
        }),
{
    reveal_strlit("statix-project-");
    reveal_strlit("-");
    reveal_strlit(".service");
    let name = deploy::unit_name(project_id, environment);
    assert(shell::all_plain(name)) by {
        assert forall|i: int| 0 <= i < name.len() implies shell::plain(#[trigger] name[i]) by {
        }
    }
    assert(name.take(15) =~= "statix-project-"@);
    assert(name.skip(15 + project_id.len() + 1 + environment.len() as int) =~= ".service"@);
}

/// A text holds a piece.
pub open spec fn holds(text: Seq<char>, piece: Seq<char>) -> bool {
    exists|a: int| 0 <= a && a + piece.len() <= text.len() && #[trigger] text.skip(a).take(
        piece.len() as int,
    ) == piece
}

/// The unit of a project runs as the user of the project's files and among them, is started again
/// when it ends, and is started with the machine.
pub proof fn unit_keeps_the_project_running(
    project_id: Seq<char>,
    environment: Seq<char>,
    command: Seq<Seq<char>>,
)
    ensures
        holds(
            deploy::unit_text(project_id, environment, command),
            "\nUser=statix\nWorkingDirectory=/home/statix/docker\n"@,
        ),
        holds(deploy::unit_text(project_id, environment, command), "\nRestart=always\n"@),
        holds(
            deploy::unit_text(project_id, environment, command),
            "\n[Install]\nWantedBy=multi-user.target\n"@,
        ),
{
    let text = deploy::unit_text(project_id, environment, command);
    reveal_strlit(
        ")\nAfter=network-online.target\nWants=network-online.target\n\n[Service]\nType=simple\nUser=statix\nWorkingDirectory=/home/statix/docker\nEnvironment=HOME=/home/statix\nExecStart=/bin/bash -lc ",
    );
    reveal_strlit("\nRestart=always\nRestartSec=5\n\n[Install]\nWantedBy=multi-user.target\n");
    let head = "[Unit]\nDescription=Statix project "@ + project_id + " ("@ + environment;
    let middle =
        ")\nAfter=network-online.target\nWants=network-online.target\n\n[Service]\nType=simple\nUser=statix\nWorkingDirectory=/home/statix/docker\nEnvironment=HOME=/home/statix\nExecStart=/bin/bash -lc "@;
    let ending = "\nRestart=always\nRestartSec=5\n\n[Install]\nWantedBy=multi-user.target\n"@;
    let user = "\nUser=statix\nWorkingDirectory=/home/statix/docker\n"@;
    reveal_strlit("\nUser=statix\nWorkingDirectory=/home/statix/docker\n");
    let restart = "\nRestart=always\n"@;
    reveal_strlit("\nRestart=always\n");
    let install = "\n[Install]\nWantedBy=multi-user.target\n"@;
    reveal_strlit("\n[Install]\nWantedBy=multi-user.target\n");
    let a = head.len() as int + 80;
    assert(text.skip(a).take(user.len() as int) =~= user);
    let b = text.len() - ending.len();
    assert(text.skip(b).take(restart.len() as int) =~= restart);
    let c = text.len() - install.len();
    assert(text.skip(c).take(install.len() as int) =~= install);
}

/// The fallback script runs the project's own script where there is one that can be run, and else
/// fails.
pub proof fn fallback_runs_the_projects_script()
    ensures
        "if [ -x ./statix/deploy.sh ]; then exec ./statix/deploy.sh; else "@.is_prefix_of(
            deploy::DEFAULT_SCRIPT@,
        ),
        "exit 2; fi"@.is_suffix_of(deploy::DEFAULT_SCRIPT@),
{
    reveal_strlit(
        "if [ -x ./statix/deploy.sh ]; then exec ./statix/deploy.sh; else echo 'deployment command is required' >&2; exit 2; fi",
    );
    reveal_strlit("if [ -x ./statix/deploy.sh ]; then exec ./statix/deploy.sh; else ");
    reveal_strlit("exit 2; fi");
}

} // verus!
