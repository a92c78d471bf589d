//! What holds of every run of a smoke test.
use vstd::prelude::*;

use crate::harness::probe::ProbeModel;
use crate::harness::roles;
use crate::harness::roles::OpenModel;
use crate::harness::session;
use crate::harness::smoke;
use crate::harness::smoke::report;
use crate::harness::smoke::run;
use crate::harness::smoke::run::RunModel;
use crate::harness::smoke::script;
use crate::harness::smoke::steps;
use crate::harness::smoke::steps::ReplyModel;
use crate::harness::smoke::{FactsModel, Link, Marker, Smoke, Step};
use crate::harness::terminal;
use crate::harness::terminal::Signal;
use crate::text;

verus! {

/// Where the shim is identified in a script.
pub open spec fn stat_at(smoke: Smoke) -> int {
    if smoke == Smoke::ChainCredential {
        9
    } else {
        4
    }
}

/// Where the shim of a command is authenticated in a script.
pub open spec fn authenticate_at(smoke: Smoke, fed: bool, link: Link) -> int {
    match (smoke, link) {
        (Smoke::TtySignal, _) => 11,
        (Smoke::JobControl, _) => 11,
        (Smoke::CommandPty, _) => 11,
        (Smoke::Topology, _) => if fed {
            13
        } else {
            11
        },
        (Smoke::ChainCredential, Link::First) => 19,
        (Smoke::ChainCredential, Link::Chained) => 26,
    }
}

/// A smoke test has a command of its own for this link.
pub open spec fn has_link(smoke: Smoke, link: Link) -> bool {
    link == Link::First || smoke == Smoke::ChainCredential
}

/// Where the ancestry of a chained shim is looked at.
pub open spec fn ancestry_at() -> int {
    28
}

/// What a step needs at its place in a script.
pub open spec fn in_place(smoke: Smoke, fed: bool, at: int, step: Step) -> bool {
    match step {
        Step::StatShim => at == stat_at(smoke),
        Step::Authenticate(link) => at == authenticate_at(smoke, fed, link) && at > stat_at(smoke),
        Step::CheckAncestry => at == ancestry_at(),
        Step::SpawnCommand(link) => {
            &&& at > authenticate_at(smoke, fed, link)
            &&& has_link(smoke, link)
            &&& link == Link::Chained ==> at > ancestry_at()
        },
        _ => true,
    }
}

/// A part of a script, from a place on, has its steps in place.
pub open spec fn part_in_place(smoke: Smoke, fed: bool, from: int, part: Seq<Step>) -> bool {
    forall|i: int| 0 <= i < part.len() ==> in_place(smoke, fed, from + i, #[trigger] part[i])
}

proof fn lemma_parts(smoke: Smoke, fed: bool, a: Seq<Step>, b: Seq<Step>)
    requires
        part_in_place(smoke, fed, 0, a),
        part_in_place(smoke, fed, a.len() as int, b),
    ensures
        part_in_place(smoke, fed, 0, a + b),
{
    assert forall|i: int| 0 <= i < (a + b).len() implies in_place(
        smoke,
        fed,
        0 + i,
        #[trigger] (a + b)[i],
    ) by {
        if i < a.len() {
            assert((a + b)[i] == a[i]);
            assert(in_place(smoke, fed, 0 + i, a[i]));
        } else {
            assert((a + b)[i] == b[i - a.len()]);
            assert(in_place(smoke, fed, a.len() as int + (i - a.len()), b[i - a.len()]));
        }
    }
}

proof fn lemma_terminal_script(smoke: Smoke, fed: bool)
    requires
        smoke == Smoke::TtySignal || smoke == Smoke::JobControl,
    ensures
        part_in_place(smoke, fed, 0, script::script(smoke, fed)),
{
    let first = Link::First;
    let a = script::preparing();
    let b = a + script::listening_on_terminal();
    let c = b + script::meeting(first);
    let d = c + script::handover(first);
    let e = d + script::launch(first);
    let middle = if smoke == Smoke::TtySignal {
        script::interrupting()
    } else {
        script::controlling()
    };
    let f = e + middle;
    let g = f + script::answer(first);
    lemma_parts(smoke, fed, a, script::listening_on_terminal());
    lemma_parts(smoke, fed, b, script::meeting(first));
    lemma_parts(smoke, fed, c, script::handover(first));
    lemma_parts(smoke, fed, d, script::launch(first));
    lemma_parts(smoke, fed, e, middle);
    lemma_parts(smoke, fed, f, script::answer(first));
    lemma_parts(smoke, fed, g, script::ending_on_terminal());
}

proof fn lemma_pty_script(fed: bool)
    ensures
        part_in_place(Smoke::CommandPty, fed, 0, script::script(Smoke::CommandPty, fed)),
{
    let smoke = Smoke::CommandPty;
    let first = Link::First;
    let a = script::preparing();
    let b = a + script::listening();
    let c = b + script::captured_session();
    let d = c + script::meeting(first);
    let e = d + script::handover(first);
    let f = e + script::own_terminal();
    let g = f + script::launch(first);
    let h = g + script::bridging();
    let k = h + script::answer(first);
    lemma_parts(smoke, fed, a, script::listening());
    lemma_parts(smoke, fed, b, script::captured_session());
    lemma_parts(smoke, fed, c, script::meeting(first));
    lemma_parts(smoke, fed, d, script::handover(first));
    lemma_parts(smoke, fed, e, script::own_terminal());
    lemma_parts(smoke, fed, f, script::launch(first));
    lemma_parts(smoke, fed, g, script::bridging());
    lemma_parts(smoke, fed, h, script::answer(first));
    lemma_parts(smoke, fed, k, script::ending());
}

proof fn lemma_topology_script(fed: bool)
    ensures
        part_in_place(Smoke::Topology, fed, 0, script::script(Smoke::Topology, fed)),
{
    let smoke = Smoke::Topology;
    let first = Link::First;
    let session = if fed {
        script::fed_session()
    } else {
        script::captured_session()
    };
    let a = script::preparing_requested();
    let b = a + script::listening();
    let c = b + session;
    let d = c + script::meeting(first);
    let e = d + script::handover(first);
    let f = e + script::launch(first);
    let g = f + script::answer(first);
    lemma_parts(smoke, fed, a, script::listening());
    lemma_parts(smoke, fed, b, session);
    lemma_parts(smoke, fed, c, script::meeting(first));
    lemma_parts(smoke, fed, d, script::handover(first));
    lemma_parts(smoke, fed, e, script::launch(first));
    lemma_parts(smoke, fed, f, script::answer(first));
    lemma_parts(smoke, fed, g, script::ending());
}

proof fn lemma_chain_script(fed: bool)
    ensures
        part_in_place(Smoke::ChainCredential, fed, 0, script::script(Smoke::ChainCredential, fed)),
{
    let smoke = Smoke::ChainCredential;
    let first = Link::First;
    let chained = Link::Chained;
    let check = seq![Step::CheckAncestry];
    let a = script::preparing_chain();
    let b = a + script::listening();
    let c = b + script::captured_session();
    let d = c + script::meeting(first);
    let e = d + script::handover(first);
    let f = e + script::launch(first);
    let g = f + script::meeting(chained);
    let h = g + check;
    let k = h + script::handover(chained);
    let l = k + script::launch(chained);
    let m = l + script::answer(chained);
    let n = m + script::answer(first);
    lemma_parts(smoke, fed, a, script::listening());
    lemma_parts(smoke, fed, b, script::captured_session());
    lemma_parts(smoke, fed, c, script::meeting(first));
    lemma_parts(smoke, fed, d, script::handover(first));
    lemma_parts(smoke, fed, e, script::launch(first));
    lemma_parts(smoke, fed, f, script::meeting(chained));
    lemma_parts(smoke, fed, g, check);
    lemma_parts(smoke, fed, h, script::handover(chained));
    lemma_parts(smoke, fed, k, script::launch(chained));
    lemma_parts(smoke, fed, l, script::answer(chained));
    lemma_parts(smoke, fed, m, script::answer(first));
    lemma_parts(smoke, fed, n, script::ending());
}

/// In every script the shim is identified once, before any shim is
/// authenticated; and every command starts only after its shim was
/// authenticated, and a chained one after its ancestry was looked at.
pub proof fn law_scripts_are_guarded(smoke: Smoke, fed: bool)
    ensures
        forall|i: int|
            0 <= i < script::script(smoke, fed).len() ==> in_place(
                smoke,
                fed,
                i,
                #[trigger] script::script(smoke, fed)[i],
            ),
        script::script(smoke, fed)[authenticate_at(smoke, fed, Link::First)] == Step::Authenticate(
            Link::First,
        ),
        smoke == Smoke::ChainCredential ==> {
            &&& script::script(smoke, fed)[authenticate_at(smoke, fed, Link::Chained)]
                == Step::Authenticate(Link::Chained)
            &&& script::script(smoke, fed)[ancestry_at()] == Step::CheckAncestry
        },
{
    match smoke {
        Smoke::TtySignal => lemma_terminal_script(smoke, fed),
        Smoke::JobControl => lemma_terminal_script(smoke, fed),
        Smoke::CommandPty => lemma_pty_script(fed),
        Smoke::Topology => lemma_topology_script(fed),
        Smoke::ChainCredential => lemma_chain_script(fed),
    }
    let steps = script::script(smoke, fed);
    assert forall|i: int| 0 <= i < steps.len() implies in_place(
        smoke,
        fed,
        i,
        #[trigger] steps[i],
    ) by {
        assert(in_place(smoke, fed, 0 + i, steps[i]));
    }
}

proof fn lemma_settled(facts: FactsModel, steps: Seq<Step>, at: int)
    requires
        0 <= at <= steps.len(),
    ensures
        at <= run::settled(facts, steps, at) <= steps.len(),
        forall|i: int|
            at <= i < run::settled(facts, steps, at) ==> run::skipped(facts, #[trigger] steps[i]),
    decreases steps.len() - at,
{
    if at < steps.len() && run::skipped(facts, steps[at]) {
        lemma_settled(facts, steps, at + 1);
    }
}

proof fn lemma_same_script(facts: FactsModel, step: Step, reply: ReplyModel)
    ensures
        run::learnt(facts, step, reply) matches Some(Ok(next)) ==> next.smoke == facts.smoke
            && next.payload == facts.payload,
{
}

/// The run is within its script.
pub open spec fn on_script(state: RunModel) -> bool {
    state matches RunModel::Going { facts, at } ==> 0 <= at <= run::steps_with(facts).len()
}

/// Every reply that a step asks for takes a run further in its script or ends
/// it; and no other changes anything. So a run ends.
pub proof fn law_runs_end(state: RunModel, reply: ReplyModel)
    requires
        on_script(state),
    ensures
        on_script(run::advanced(state, reply)),
        match (state, run::advanced(state, reply)) {
            (RunModel::Going { facts, at }, RunModel::Going { facts: next, at: then }) => {
                ||| then > at && run::steps_with(next) == run::steps_with(facts)
                ||| run::advanced(state, reply) == state
            },
            (RunModel::Failed(error), next) => next == state,
            _ => true,
        },
{
    if let RunModel::Going { facts, at } = state {
        if let Some(step) = run::step_of(state) {
            lemma_same_script(facts, step, reply);
            if let Some(Ok(next)) = run::learnt(facts, step, reply) {
                lemma_settled(next, run::steps_with(facts), at + 1);
            }
        }
    }
}

/// The shims that a run has authenticated are the trusted one, and a chained
/// one that it has looked at descends from the first command.
pub open spec fn trusted(state: RunModel) -> bool {
    state matches RunModel::Going { facts, at } ==> {
        &&& forall|link: Link|
            at > authenticate_at(facts.smoke, facts.payload is Some, link) && has_link(
                facts.smoke,
                link,
            ) ==> (#[trigger] smoke::command_of(facts, link)).auth.peer_id == facts.shim_id
        &&& at > ancestry_at() && facts.smoke == Smoke::ChainCredential ==> facts.related
    }
}

/// A run starts on its script, and has not trusted anyone yet.
pub proof fn law_runs_start_trusted(facts: FactsModel)
    ensures
        on_script(RunModel::Going { facts, at: 0 }),
        trusted(RunModel::Going { facts, at: 0 }),
{
}

/// Trust is kept from step to step.
pub proof fn law_trust_is_kept(state: RunModel, reply: ReplyModel)
    requires
        on_script(state),
        trusted(state),
    ensures
        trusted(run::advanced(state, reply)),
{
    if let RunModel::Going { facts, at } = state {
        let fed = facts.payload is Some;
        let steps = run::steps_with(facts);
        law_scripts_are_guarded(facts.smoke, fed);
        if let Some(step) = run::step_of(state) {
            lemma_same_script(facts, step, reply);
            assert(in_place(facts.smoke, fed, at, steps[at]));
            if let Some(Ok(next)) = run::learnt(facts, step, reply) {
                lemma_settled(next, steps, at + 1);
                let then = run::settled(next, steps, at + 1);
                assert forall|link: Link|
                    then > authenticate_at(facts.smoke, fed, link) && has_link(
                        facts.smoke,
                        link,
                    ) implies (#[trigger] smoke::command_of(next, link)).auth.peer_id
                    == next.shim_id by {
                    let place = authenticate_at(facts.smoke, fed, link);
                    assert(steps[place] == Step::Authenticate(link));
                    assert(!run::skipped(next, steps[place]));
                    if place < at {
                        assert(smoke::command_of(facts, link).auth.peer_id == facts.shim_id);
                    }
                }
                if then > ancestry_at() && facts.smoke == Smoke::ChainCredential {
                    assert(!run::skipped(next, steps[ancestry_at()]));
                }
            }
        }
    }
}

/// A run that is about to start a command has authenticated its shim as the
/// trusted one; and has found a chained shim to descend from the first command.
pub proof fn law_commands_start_only_for_trusted_shims(state: RunModel, link: Link)
    requires
        on_script(state),
        trusted(state),
        run::step_of(state) == Some(Step::SpawnCommand(link)),
    ensures
        state matches RunModel::Going { facts, .. } && {
            &&& smoke::command_of(facts, link).auth.peer_id == facts.shim_id
            &&& link == Link::Chained ==> facts.related
        },
{
    if let RunModel::Going { facts, at } = state {
        law_scripts_are_guarded(facts.smoke, facts.payload is Some);
        assert(in_place(facts.smoke, facts.payload is Some, at, run::steps_with(facts)[at]));
    }
}

/// The signal whose arrival a marker tells.
pub open spec fn told_signal(marker: Marker) -> Signal {
    match marker {
        Marker::Resized => Signal::Resize,
        Marker::Suspended => Signal::Suspend,
        _ => Signal::Continue,
    }
}

/// A run waits for exactly the lines by which its helper tells of signals.
pub proof fn law_awaited_signals_are_told(marker: Marker)
    requires
        marker != Marker::Ready,
    ensures
        terminal::signal_marker(Some(told_signal(marker))) == steps::marker_text(
            Smoke::JobControl,
            marker,
        ) + "\n"@,
{
    reveal_strlit("\n");
    reveal_strlit("tty-job-helper-signal: SIGWINCH");
    reveal_strlit("tty-job-helper-signal: SIGWINCH\n");
    reveal_strlit("tty-job-helper-signal: SIGTSTP");
    reveal_strlit("tty-job-helper-signal: SIGTSTP\n");
    reveal_strlit("tty-job-helper-signal: SIGCONT");
    reveal_strlit("tty-job-helper-signal: SIGCONT\n");
    assert(terminal::signal_marker(Some(told_signal(marker))) =~= steps::marker_text(
        Smoke::JobControl,
        marker,
    ) + "\n"@);
}

/// Helpers of chained commands that find all as it should be write exactly the
/// lines that the verdict looks for.
pub proof fn law_chained_helpers_satisfy_the_verdict(key: Seq<u8>, agent: Seq<u8>)
    ensures
        roles::raw_key_denied("chain-git-helper"@, key, OpenModel::Denied).stdout
            + roles::raw_key_denied("chain-ssh-helper"@, key, OpenModel::Denied).stdout
            + roles::chain_ssh_helper(agent, Ok(())).stdout + roles::chain_git_helper(
            Ok(Some(0i32)),
        ).stdout == report::chain_markers(),
{
    reveal_strlit("chain-git-helper");
    reveal_strlit("chain-ssh-helper");
    reveal_strlit("-raw-key: denied");
    reveal_strlit("chain-git-helper-raw-key: denied");
    reveal_strlit("chain-ssh-helper-raw-key: denied");
    reveal_strlit("chain-git-helper-ssh-status: ");
    reveal_strlit("chain-git-helper-ssh-status: 0");
    assert("chain-git-helper"@ + "-raw-key: denied"@ =~= "chain-git-helper-raw-key: denied"@);
    assert("chain-ssh-helper"@ + "-raw-key: denied"@ =~= "chain-ssh-helper-raw-key: denied"@);
    assert(text::signed_decimal(0) =~= seq!['0']);
    assert("chain-git-helper-ssh-status: "@ + text::signed_decimal(0)
        =~= "chain-git-helper-ssh-status: 0"@);
    assert(roles::raw_key_denied("chain-git-helper"@, key, OpenModel::Denied).stdout
        + roles::raw_key_denied("chain-ssh-helper"@, key, OpenModel::Denied).stdout
        + roles::chain_ssh_helper(agent, Ok(())).stdout + roles::chain_git_helper(
        Ok(Some(0i32)),
    ).stdout =~= report::chain_markers());
}

/// A session that is denied the policy binary, and a helper on a terminal of its
/// own, write exactly the lines that the verdict looks for.
pub proof fn law_terminal_helper_satisfies_the_verdict(
    pid: i32,
    pgrp: i32,
    sid: i32,
    foreground: Seq<char>,
)
    ensures
        ({
            let lines = roles::terminal_lines(
                "command-pty-helper"@,
                true,
                pid,
                pgrp,
                sid,
                foreground,
                "command-pty-helper-ready"@,
            );
            seq![session::direct_exec_line(ProbeModel::SpawnDenied), lines[0], lines[2]]
                == report::pty_markers()
        }),
{
    reveal_strlit("true");
    reveal_strlit("topology-session: direct policy exec matched=");
    reveal_strlit("topology-session: direct policy exec matched=true");
    reveal_strlit("command-pty-helper");
    reveal_strlit("-isatty-stdin: ");
    reveal_strlit("command-pty-helper-isatty-stdin: true");
    assert("topology-session: direct policy exec matched="@ + "true"@
        =~= "topology-session: direct policy exec matched=true"@);
    assert("command-pty-helper"@ + "-isatty-stdin: "@ + "true"@
        =~= "command-pty-helper-isatty-stdin: true"@);
}

} // verus!
