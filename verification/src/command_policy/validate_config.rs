//! Validation of whole command policy configurations.
use vstd::prelude::*;

use crate::command_policy;
use crate::command_policy::report;
use crate::command_policy::report::{
    CommandPolicyActivation, CommandPolicyValidationReport, CommandPolicyValidationScope,
    FindingModel, ReportModel,
};
use crate::command_policy::validate;
use crate::command_policy::{
    CommandFromConfig, CommandModel, CommandPoliciesConfig, CommandPolicyConfig,
    CommandSandboxConfig, CredentialModel, FromModel, PoliciesModel, SandboxModel,
};
use crate::name_map;
use crate::name_map::NameMap;
use crate::text;

verus! {

// ---------------------------------------------------------------------------
// Commands
// ---------------------------------------------------------------------------

/// The sandbox is given a credential.
pub open spec fn sandbox_has_credentials(sandbox: SandboxModel) -> bool {
    sandbox.use_credentials.len() > 0
}

/// The policy is a sandbox that is given a credential.
pub open spec fn from_has_credentials(from: FromModel) -> bool {
    match from {
        FromModel::Policy(policy) => sandbox_has_credentials(policy),
        FromModel::Deny(_) => false,
    }
}

/// Some sandbox of the command is given a credential.
pub open spec fn has_credentials(command: CommandModel) -> bool {
    ||| command.sandbox matches Some(sandbox) && sandbox_has_credentials(sandbox)
    ||| exists|caller: Seq<char>|
        command.from.dom().contains(caller) && #[trigger] from_has_credentials(
            command.from[caller],
        )
}

/// Tells whether a sandbox is given a credential.
pub fn sandbox_uses_credentials(sandbox: &CommandSandboxConfig) -> (r: bool)
    ensures
        r == sandbox_has_credentials(sandbox@),
{
    sandbox.use_credentials.len() > 0
}

/// Tells whether some sandbox of a command is given a credential.
pub fn command_uses_credentials(command: &CommandPolicyConfig) -> (r: bool)
    ensures
        r == has_credentials(command@),
{
    if let Some(sandbox) = &command.sandbox {
        if sandbox_uses_credentials(sandbox) {
            return true;
        }
    }
    let ghost callers = name_map::ordered_keys(command.from@);
    let n = command.from.len();
    for i in 0..n
        invariant
            callers == name_map::ordered_keys(command.from@),
            name_map::lists_keys(callers, command.from@),
            n == callers.len(),
            forall|j: int|
                0 <= j < i ==> !from_has_credentials(command.from@[#[trigger] callers[j]]),
    {
        let from_policy = command.from.value_at(i);
        if let CommandFromConfig::Policy(policy) = from_policy {
            if sandbox_uses_credentials(policy) {
                assert(callers.contains(callers[i as int]));
                assert(from_has_credentials(command@.from[callers[i as int]]));
                return true;
            }
        }
    }
    assert forall|caller: Seq<char>| command@.from.dom().contains(caller) implies !(
    #[trigger] from_has_credentials(command@.from[caller])) by {
        let j = callers.index_of(caller);
        assert(callers.contains(caller));
        assert(callers[j] == caller);
    }
    false
}

/// The errors of a command that says twice what the session may do.
pub open spec fn session_errors(name: Seq<char>, command: CommandModel) -> Seq<FindingModel> {
    if command.from.dom().contains("session"@) && command.sandbox is Some {
        seq![
            report::finding(
                "ambiguous_session_policy"@,
                "command '"@ + name + "' defines both top-level sandbox and from.session"@,
            ),
        ] + validate::when(
            command_policy::explicit_deny(command.from["session"@]),
            report::finding(
                "conflicting_session_deny"@,
                "command '"@ + name + "' defines sandbox and from.session = \"deny\""@,
            ),
        )
    } else {
        Seq::empty()
    }
}

/// The errors of a command that may be executed outside its policy.
pub open spec fn bypass_errors(name: Seq<char>, command: CommandModel) -> Seq<FindingModel> {
    if command.allow_direct_exec_bypass.len() > 0 {
        validate::path_list_errors(
            "commands."@ + name + ".allow_direct_exec_bypass"@,
            command.allow_direct_exec_bypass,
        ) + validate::when(
            has_credentials(command) && !command.allow_direct_exec_bypass_with_credentials,
            report::finding(
                "credential_bypass_requires_opt_in"@,
                "command '"@ + name
                    + "' uses credentials and allow_direct_exec_bypass without allow_direct_exec_bypass_with_credentials"@,
            ),
        )
    } else {
        Seq::empty()
    }
}

/// The warning for a command that may be executed outside its policy.
pub open spec fn bypass_warnings(name: Seq<char>, command: CommandModel) -> Seq<FindingModel> {
    validate::when(
        command.allow_direct_exec_bypass.len() > 0,
        report::finding(
            "direct_exec_bypass"@,
            "command '"@ + name + "' allows direct canonical exec bypass outside child-ETI"@,
        ),
    )
}

/// The errors of the name of a caller.
pub open spec fn caller_name_errors(name: Seq<char>, caller: Seq<char>) -> Seq<FindingModel> {
    if caller == "user"@ {
        seq![
            report::finding(
                "reserved_caller"@,
                "command '"@ + name + "' uses from.user; use from.session"@,
            ),
        ]
    } else if caller != "session"@ {
        validate::identifier_errors("commands."@ + name + ".from"@, caller)
    } else {
        Seq::empty()
    }
}

/// The errors of what a command allows one caller.
pub open spec fn caller_errors(
    name: Seq<char>,
    caller: Seq<char>,
    from: FromModel,
    config: PoliciesModel,
    scope: CommandPolicyValidationScope,
) -> Seq<FindingModel> {
    caller_name_errors(name, caller) + match from {
        FromModel::Deny(value) => validate::when(
            value != "deny"@,
            report::finding(
                "invalid_explicit_deny"@,
                "command '"@ + name + "' from."@ + caller + " string value must be \"deny\""@,
            ),
        ),
        FromModel::Policy(policy) => validate::sandbox_errors(
            name,
            caller,
            policy,
            config,
            scope,
        ),
    }
}

/// The warnings of what a command allows one caller.
pub open spec fn caller_warnings(
    name: Seq<char>,
    caller: Seq<char>,
    from: FromModel,
) -> Seq<FindingModel> {
    match from {
        FromModel::Deny(_) => Seq::empty(),
        FromModel::Policy(policy) => validate::sandbox_warnings(name, caller, policy),
    }
}

/// `caller_errors` as a check on one caller.
pub open spec fn caller_check(
    name: Seq<char>,
    command: CommandModel,
    config: PoliciesModel,
    scope: CommandPolicyValidationScope,
) -> spec_fn(Seq<char>) -> Seq<FindingModel> {
    |caller: Seq<char>| caller_errors(name, caller, command.from[caller], config, scope)
}

/// `caller_warnings` as a check on one caller.
pub open spec fn caller_remarks(name: Seq<char>, command: CommandModel) -> spec_fn(
    Seq<char>,
) -> Seq<FindingModel> {
    |caller: Seq<char>| caller_warnings(name, caller, command.from[caller])
}

/// The errors of what a command names: the commands it may use, its
/// executable, and the session's policy.
pub open spec fn entry_errors(name: Seq<char>, command: CommandModel) -> Seq<FindingModel> {
    validate::identifier_list_errors("commands."@ + name + ".can_use"@, command.can_use)
        + (match command.executable {
        Some(executable) => validate::path_errors(
            "commands."@ + name + ".executable"@,
            executable,
        ),
        None => Seq::empty(),
    }) + session_errors(name, command)
}

/// The errors of the sandbox that a command has for the session.
pub open spec fn own_sandbox_errors(
    name: Seq<char>,
    command: CommandModel,
    config: PoliciesModel,
    scope: CommandPolicyValidationScope,
) -> Seq<FindingModel> {
    match command.sandbox {
        Some(sandbox) => validate::sandbox_errors(name, "session"@, sandbox, config, scope),
        None => Seq::empty(),
    }
}

/// The warnings of the sandbox that a command has for the session.
pub open spec fn own_sandbox_warnings(name: Seq<char>, command: CommandModel) -> Seq<
    FindingModel,
> {
    match command.sandbox {
        Some(sandbox) => validate::sandbox_warnings(name, "session"@, sandbox),
        None => Seq::empty(),
    }
}

/// The errors of a command policy.
pub open spec fn command_errors(
    name: Seq<char>,
    command: CommandModel,
    config: PoliciesModel,
    scope: CommandPolicyValidationScope,
) -> Seq<FindingModel> {
    entry_errors(name, command) + bypass_errors(name, command) + own_sandbox_errors(
        name,
        command,
        config,
        scope,
    ) + name_map::ordered_keys(command.from).flat_map(caller_check(name, command, config, scope))
}

/// The warnings of a command policy.
pub open spec fn command_warnings(name: Seq<char>, command: CommandModel) -> Seq<FindingModel> {
    bypass_warnings(name, command) + own_sandbox_warnings(name, command)
        + name_map::ordered_keys(command.from).flat_map(caller_remarks(name, command))
}

fn validate_caller(
    command_name: &str,
    caller: &str,
    from_policy: &CommandFromConfig,
    config: &CommandPoliciesConfig,
    scope: CommandPolicyValidationScope,
    report: &mut CommandPolicyValidationReport,
)
    ensures
        final(report)@ == old(report)@.plus(
            caller_errors(command_name@, caller@, from_policy@, config@, scope),
            caller_warnings(command_name@, caller@, from_policy@),
        ),
{
    if text::text_eq(caller, "user") {
        report.error(
            "reserved_caller",
            text::cat3("command '", command_name, "' uses from.user; use from.session"),
        );
    } else if !text::text_eq(caller, "session") {
        let label = text::cat3("commands.", command_name, ".from");
        validate::validate_identifier(label.as_str(), caller, report);
    }
    let ghost named = report@;
    assert(named == old(report)@.plus_errors(caller_name_errors(command_name@, caller@)));
    match from_policy {
        CommandFromConfig::Deny(value) => {
            if !text::text_eq(value.as_str(), "deny") {
                report.error(
                    "invalid_explicit_deny",
                    text::cat5(
                        "command '",
                        command_name,
                        "' from.",
                        caller,
                        " string value must be \"deny\"",
                    ),
                );
            }
        },
        CommandFromConfig::Policy(policy) => {
            validate::validate_sandbox(command_name, caller, policy, config, scope, report);
        },
    }
    proof {
        let first = caller_name_errors(command_name@, caller@);
        let (errors, warnings) = match from_policy@ {
            FromModel::Deny(value) => (
                validate::when(
                    value != "deny"@,
                    report::finding(
                        "invalid_explicit_deny"@,
                        "command '"@ + command_name@ + "' from."@ + caller@
                            + " string value must be \"deny\""@,
                    ),
                ),
                Seq::empty(),
            ),
            FromModel::Policy(policy) => (
                validate::sandbox_errors(command_name@, caller@, policy, config@, scope),
                validate::sandbox_warnings(command_name@, caller@, policy),
            ),
        };
        assert(report@ == named.plus(errors, warnings));
        report::lemma_plus_errors(old(report)@, first);
        report::lemma_plus_plus(old(report)@, first, Seq::empty(), errors, warnings);
        assert(Seq::<FindingModel>::empty() + warnings =~= warnings);
    }
}

fn validate_callers(
    command_name: &str,
    command: &CommandPolicyConfig,
    config: &CommandPoliciesConfig,
    scope: CommandPolicyValidationScope,
    report: &mut CommandPolicyValidationReport,
)
    ensures
        final(report)@ == old(report)@.plus(
            name_map::ordered_keys(command@.from).flat_map(
                caller_check(command_name@, command@, config@, scope),
            ),
            name_map::ordered_keys(command@.from).flat_map(
                caller_remarks(command_name@, command@),
            ),
        ),
{
    let ghost callers = name_map::ordered_keys(command@.from);
    let ghost check = caller_check(command_name@, command@, config@, scope);
    let ghost remarks = caller_remarks(command_name@, command@);
    proof {
        validate::lemma_nothing_yet(callers, check);
        validate::lemma_nothing_yet(callers, remarks);
    }
    let n = command.from.len();
    for i in 0..n
        invariant
            callers == name_map::ordered_keys(command@.from),
            n == callers.len(),
            check == caller_check(command_name@, command@, config@, scope),
            remarks == caller_remarks(command_name@, command@),
            report@ == old(report)@.plus(
                callers.take(i as int).flat_map(check),
                callers.take(i as int).flat_map(remarks),
            ),
    {
        validate_caller(
            command_name,
            command.from.name_at(i).as_str(),
            command.from.value_at(i),
            config,
            scope,
            report,
        );
        proof {
            callers.lemma_flat_map_take_append(check, i as int);
            callers.lemma_flat_map_take_append(remarks, i as int);
            report::lemma_plus_plus(
                old(report)@,
                callers.take(i as int).flat_map(check),
                callers.take(i as int).flat_map(remarks),
                check(callers[i as int]),
                remarks(callers[i as int]),
            );
        }
    }
    proof {
        validate::lemma_all_gathered(callers, check);
        validate::lemma_all_gathered(callers, remarks);
    }
}

fn validate_bypass(
    command_name: &str,
    command: &CommandPolicyConfig,
    report: &mut CommandPolicyValidationReport,
)
    ensures
        final(report)@ == old(report)@.plus(
            bypass_errors(command_name@, command@),
            bypass_warnings(command_name@, command@),
        ),
{
    if command.allow_direct_exec_bypass.len() > 0 {
        let label = text::cat3("commands.", command_name, ".allow_direct_exec_bypass");
        validate::validate_absolute_file_path_list(
            label.as_str(),
            &command.allow_direct_exec_bypass,
            report,
        );
        report.warning(
            "direct_exec_bypass",
            text::cat3(
                "command '",
                command_name,
                "' allows direct canonical exec bypass outside child-ETI",
            ),
        );
        if command_uses_credentials(command) && !command.allow_direct_exec_bypass_with_credentials {
            report.error(
                "credential_bypass_requires_opt_in",
                text::cat3(
                    "command '",
                    command_name,
                    "' uses credentials and allow_direct_exec_bypass without allow_direct_exec_bypass_with_credentials",
                ),
            );
        }
    }
}

fn validate_session_policy(
    command_name: &str,
    command: &CommandPolicyConfig,
    report: &mut CommandPolicyValidationReport,
)
    ensures
        final(report)@ == old(report)@.plus_errors(session_errors(command_name@, command@)),
{
    if let Some(session_policy) = command.from.get("session") {
        if command.sandbox.is_some() {
            report.error(
                "ambiguous_session_policy",
                text::cat3(
                    "command '",
                    command_name,
                    "' defines both top-level sandbox and from.session",
                ),
            );
        }
        if session_policy.is_explicit_deny() && command.sandbox.is_some() {
            report.error(
                "conflicting_session_deny",
                text::cat3(
                    "command '",
                    command_name,
                    "' defines sandbox and from.session = \"deny\"",
                ),
            );
        }
    }
}

fn validate_entry(
    command_name: &str,
    command: &CommandPolicyConfig,
    report: &mut CommandPolicyValidationReport,
)
    ensures
        final(report)@ == old(report)@.plus_errors(entry_errors(command_name@, command@)),
{
    let can_use_label = text::cat3("commands.", command_name, ".can_use");
    validate::validate_identifier_list(can_use_label.as_str(), &command.can_use, report);
    if let Some(executable) = &command.executable {
        let label = text::cat3("commands.", command_name, ".executable");
        validate::validate_absolute_file_path(label.as_str(), executable.as_str(), report);
    }
    validate_session_policy(command_name, command, report);
}

fn validate_own_sandbox(
    command_name: &str,
    command: &CommandPolicyConfig,
    config: &CommandPoliciesConfig,
    scope: CommandPolicyValidationScope,
    report: &mut CommandPolicyValidationReport,
)
    ensures
        final(report)@ == old(report)@.plus(
            own_sandbox_errors(command_name@, command@, config@, scope),
            own_sandbox_warnings(command_name@, command@),
        ),
{
    if let Some(sandbox) = &command.sandbox {
        validate::validate_sandbox(command_name, "session", sandbox, config, scope, report);
    } else {
        proof {
            report::lemma_plus_errors(report@, Seq::empty());
        }
    }
}

/// Reports what is wrong with, or worth knowing about, the policy of one
/// command.
pub fn validate_command(
    command_name: &str,
    command: &CommandPolicyConfig,
    config: &CommandPoliciesConfig,
    scope: CommandPolicyValidationScope,
    report: &mut CommandPolicyValidationReport,
)
    ensures
        final(report)@ == old(report)@.plus(
            command_errors(command_name@, command@, config@, scope),
            command_warnings(command_name@, command@),
        ),
{
    validate_entry(command_name, command, report);
    validate_bypass(command_name, command, report);
    validate_own_sandbox(command_name, command, config, scope, report);
    validate_callers(command_name, command, config, scope, report);
    proof {
        let start = old(report)@;
        let none = Seq::<FindingModel>::empty();
        let e1 = entry_errors(command_name@, command@);
        let e2 = bypass_errors(command_name@, command@);
        let w2 = bypass_warnings(command_name@, command@);
        let e3 = own_sandbox_errors(command_name@, command@, config@, scope);
        let w3 = own_sandbox_warnings(command_name@, command@);
        let callers = name_map::ordered_keys(command@.from);
        let e4 = callers.flat_map(caller_check(command_name@, command@, config@, scope));
        let w4 = callers.flat_map(caller_remarks(command_name@, command@));
        report::lemma_plus_errors(start, e1);
        report::lemma_plus_plus(start, e1, none, e2, w2);
        assert(none + w2 =~= w2);
        report::lemma_plus_plus(start, e1 + e2, w2, e3, w3);
        report::lemma_plus_plus(start, e1 + e2 + e3, w2 + w3, e4, w4);
    }
}

// ---------------------------------------------------------------------------
// References between commands
// ---------------------------------------------------------------------------

/// The command explicitly denies the caller.
pub open spec fn denies(command: CommandModel, caller: Seq<char>) -> bool {
    command.from.dom().contains(caller) && command_policy::explicit_deny(command.from[caller])
}

fn command_denies(command: &CommandPolicyConfig, caller: &str) -> (r: bool)
    ensures
        r == denies(command@, caller@),
{
    match command.from.get(caller) {
        Some(from_policy) => from_policy.is_explicit_deny(),
        None => false,
    }
}

/// The check on one command that the session may use.
pub open spec fn session_reference_check(commands: Map<Seq<char>, CommandModel>) -> spec_fn(
    Seq<char>,
) -> Seq<FindingModel> {
    |name: Seq<char>|
        if !commands.dom().contains(name) {
            seq![
                report::finding(
                    "unknown_session_command"@,
                    "session_can_use references unknown command '"@ + name + "'"@,
                ),
            ]
        } else {
            validate::when(
                denies(commands[name], "session"@),
                report::finding(
                    "contradictory_session_allow"@,
                    "session_can_use includes '"@ + name
                        + "' but from.session is explicit deny"@,
                ),
            )
        }
}

/// The check on one command that another may use.
pub open spec fn chained_reference_check(
    commands: Map<Seq<char>, CommandModel>,
    caller: Seq<char>,
) -> spec_fn(Seq<char>) -> Seq<FindingModel> {
    |callee: Seq<char>|
        if !commands.dom().contains(callee) {
            seq![
                report::finding(
                    "unknown_chained_command"@,
                    "command '"@ + caller + "' can_use references unknown command '"@ + callee
                        + "'"@,
                ),
            ]
        } else {
            validate::when(
                denies(commands[callee], caller),
                report::finding(
                    "contradictory_chained_allow"@,
                    "command '"@ + caller + "' can_use includes '"@ + callee + "' but "@ + callee
                        + ".from."@ + caller + " is explicit deny"@,
                ),
            )
        }
}

/// The check on everything that one command may use.
pub open spec fn callee_check(commands: Map<Seq<char>, CommandModel>) -> spec_fn(Seq<char>) -> Seq<
    FindingModel,
> {
    |caller: Seq<char>| commands[caller].can_use.flat_map(chained_reference_check(commands, caller))
}

/// The errors of the references of a resolved configuration.
pub open spec fn reference_errors(config: PoliciesModel) -> Seq<FindingModel> {
    config.session_can_use.flat_map(session_reference_check(config.commands))
        + name_map::ordered_keys(config.commands).flat_map(callee_check(config.commands))
}

fn validate_session_references(
    config: &CommandPoliciesConfig,
    report: &mut CommandPolicyValidationReport,
)
    ensures
        final(report)@ == old(report)@.plus_errors(
            config@.session_can_use.flat_map(session_reference_check(config@.commands)),
        ),
{
    let ghost all = config@.session_can_use;
    let ghost check = session_reference_check(config@.commands);
    proof {
        validate::lemma_nothing_yet(all, check);
    }
    for i in 0..config.session_can_use.len()
        invariant
            all == config@.session_can_use,
            check == session_reference_check(config@.commands),
            report@ == old(report)@.plus_errors(all.take(i as int).flat_map(check)),
    {
        let command_name = config.session_can_use[i].as_str();
        match config.commands.get(command_name) {
            None => {
                report.error(
                    "unknown_session_command",
                    text::cat3(
                        "session_can_use references unknown command '",
                        command_name,
                        "'",
                    ),
                );
            },
            Some(command) => {
                if command_denies(command, "session") {
                    report.error(
                        "contradictory_session_allow",
                        text::cat3(
                            "session_can_use includes '",
                            command_name,
                            "' but from.session is explicit deny",
                        ),
                    );
                }
            },
        }
        proof {
            all.lemma_flat_map_take_append(check, i as int);
            assert(all[i as int] == command_name@);
        }
    }
    proof {
        validate::lemma_all_gathered(all, check);
    }
}

fn validate_chained_references(
    caller_name: &str,
    can_use: &Vec<String>,
    config: &CommandPoliciesConfig,
    report: &mut CommandPolicyValidationReport,
)
    ensures
        final(report)@ == old(report)@.plus_errors(
            text::texts(can_use@).flat_map(
                chained_reference_check(config@.commands, caller_name@),
            ),
        ),
{
    let ghost all = text::texts(can_use@);
    let ghost check = chained_reference_check(config@.commands, caller_name@);
    proof {
        validate::lemma_nothing_yet(all, check);
    }
    for i in 0..can_use.len()
        invariant
            all == text::texts(can_use@),
            check == chained_reference_check(config@.commands, caller_name@),
            report@ == old(report)@.plus_errors(all.take(i as int).flat_map(check)),
    {
        let callee_name = can_use[i].as_str();
        match config.commands.get(callee_name) {
            None => {
                report.error(
                    "unknown_chained_command",
                    text::cat5(
                        "command '",
                        caller_name,
                        "' can_use references unknown command '",
                        callee_name,
                        "'",
                    ),
                );
            },
            Some(callee_command) => {
                if command_denies(callee_command, caller_name) {
                    let beginning = text::cat4(
                        "command '",
                        caller_name,
                        "' can_use includes '",
                        callee_name,
                    );
                    report.error(
                        "contradictory_chained_allow",
                        text::cat6(
                            beginning.as_str(),
                            "' but ",
                            callee_name,
                            ".from.",
                            caller_name,
                            " is explicit deny",
                        ),
                    );
                }
            },
        }
        proof {
            all.lemma_flat_map_take_append(check, i as int);
            assert(all[i as int] == callee_name@);
        }
    }
    proof {
        validate::lemma_all_gathered(all, check);
    }
}

/// Reports every reference to a command that is unknown or refuses its caller.
pub fn validate_resolved_references(
    config: &CommandPoliciesConfig,
    report: &mut CommandPolicyValidationReport,
)
    ensures
        final(report)@ == old(report)@.plus_errors(reference_errors(config@)),
{
    validate_session_references(config, report);
    let ghost before = report@;
    let ghost callers = name_map::ordered_keys(config@.commands);
    let ghost check = callee_check(config@.commands);
    proof {
        validate::lemma_nothing_yet(callers, check);
    }
    let n = config.commands.len();
    for i in 0..n
        invariant
            callers == name_map::ordered_keys(config@.commands),
            n == callers.len(),
            check == callee_check(config@.commands),
            report@ == before.plus_errors(callers.take(i as int).flat_map(check)),
    {
        let caller_name = config.commands.name_at(i).as_str();
        let caller_command = config.commands.value_at(i);
        validate_chained_references(caller_name, &caller_command.can_use, config, report);
        proof {
            callers.lemma_flat_map_take_append(check, i as int);
        }
    }
    proof {
        validate::lemma_all_gathered(callers, check);
    }
}

// ---------------------------------------------------------------------------
// Whole configurations
// ---------------------------------------------------------------------------

/// The check on one credential definition.
pub open spec fn credential_check(credentials: Map<Seq<char>, CredentialModel>) -> spec_fn(
    Seq<char>,
) -> Seq<FindingModel> {
    |name: Seq<char>| validate::credential_errors(name, credentials[name])
}

/// The check on one command: its errors.
pub open spec fn command_check(
    config: PoliciesModel,
    scope: CommandPolicyValidationScope,
) -> spec_fn(Seq<char>) -> Seq<FindingModel> {
    |name: Seq<char>| command_errors(name, config.commands[name], config, scope)
}

/// The check on one command: its warnings.
pub open spec fn command_remarks(config: PoliciesModel) -> spec_fn(Seq<char>) -> Seq<
    FindingModel,
> {
    |name: Seq<char>| command_warnings(name, config.commands[name])
}

/// The errors of the fields of an active configuration, but for its commands.
pub open spec fn field_errors(config: PoliciesModel) -> Seq<FindingModel> {
    validate::identifier_set_errors("command"@, name_map::ordered_keys(config.commands))
        + validate::identifier_set_errors(
        "credential"@,
        name_map::ordered_keys(config.credentials),
    ) + validate::identifier_list_errors("session_can_use"@, config.session_can_use)
        + validate::path_list_errors(
        "command_policies.deny_direct_exec_bypass"@,
        config.deny_direct_exec_bypass,
    ) + name_map::ordered_keys(config.credentials).flat_map(credential_check(config.credentials))
}

/// The errors of an active configuration.
pub open spec fn active_errors(config: PoliciesModel, scope: CommandPolicyValidationScope) -> Seq<
    FindingModel,
> {
    field_errors(config) + name_map::ordered_keys(config.commands).flat_map(
        command_check(config, scope),
    ) + (if scope == CommandPolicyValidationScope::Resolved {
        reference_errors(config)
    } else {
        Seq::empty()
    })
}

/// What validation says of a configuration.
pub open spec fn validation(
    config: Option<PoliciesModel>,
    scope: CommandPolicyValidationScope,
) -> ReportModel {
    match config {
        None => report::blank_report(),
        Some(config) => if !config.active() {
            report::blank_report().plus_errors(
                validate::when(
                    config.has_other_fields(),
                    report::finding(
                        "inactive_non_empty"@,
                        "command_policies has no policy commands but contains other ETI fields"@,
                    ),
                ),
            )
        } else {
            ReportModel {
                activation: CommandPolicyActivation::Active,
                errors: active_errors(config, scope),
                warnings: name_map::ordered_keys(config.commands).flat_map(
                    command_remarks(config),
                ),
                info: seq![
                    report::finding(
                        "active"@,
                        "ETI active with "@ + text::decimal(config.commands.dom().len())
                            + " policy-controlled command(s)"@,
                    ),
                ],
            }
        },
    }
}

fn validate_credentials(
    credentials: &NameMap<command_policy::CommandCredentialConfig>,
    report: &mut CommandPolicyValidationReport,
)
    ensures
        final(report)@ == old(report)@.plus_errors(
            name_map::ordered_keys(credentials@).flat_map(credential_check(credentials@)),
        ),
{
    let ghost names = name_map::ordered_keys(credentials@);
    let ghost check = credential_check(credentials@);
    proof {
        validate::lemma_nothing_yet(names, check);
    }
    let n = credentials.len();
    for i in 0..n
        invariant
            names == name_map::ordered_keys(credentials@),
            n == names.len(),
            check == credential_check(credentials@),
            report@ == old(report)@.plus_errors(names.take(i as int).flat_map(check)),
    {
        validate::validate_credential(
            credentials.name_at(i).as_str(),
            credentials.value_at(i),
            report,
        );
        proof {
            names.lemma_flat_map_take_append(check, i as int);
        }
    }
    proof {
        validate::lemma_all_gathered(names, check);
    }
}

fn validate_commands(
    config: &CommandPoliciesConfig,
    scope: CommandPolicyValidationScope,
    report: &mut CommandPolicyValidationReport,
)
    ensures
        final(report)@ == old(report)@.plus(
            name_map::ordered_keys(config@.commands).flat_map(command_check(config@, scope)),
            name_map::ordered_keys(config@.commands).flat_map(command_remarks(config@)),
        ),
{
    let ghost names = name_map::ordered_keys(config@.commands);
    let ghost check = command_check(config@, scope);
    let ghost remarks = command_remarks(config@);
    proof {
        validate::lemma_nothing_yet(names, check);
        validate::lemma_nothing_yet(names, remarks);
    }
    let n = config.commands.len();
    for i in 0..n
        invariant
            names == name_map::ordered_keys(config@.commands),
            n == names.len(),
            check == command_check(config@, scope),
            remarks == command_remarks(config@),
            report@ == old(report)@.plus(
                names.take(i as int).flat_map(check),
                names.take(i as int).flat_map(remarks),
            ),
    {
        validate_command(
            config.commands.name_at(i).as_str(),
            config.commands.value_at(i),
            config,
            scope,
            report,
        );
        proof {
            names.lemma_flat_map_take_append(check, i as int);
            names.lemma_flat_map_take_append(remarks, i as int);
            report::lemma_plus_plus(
                old(report)@,
                names.take(i as int).flat_map(check),
                names.take(i as int).flat_map(remarks),
                check(names[i as int]),
                remarks(names[i as int]),
            );
        }
    }
    proof {
        validate::lemma_all_gathered(names, check);
        validate::lemma_all_gathered(names, remarks);
    }
}

/// Validates the command policies of a profile.
pub fn validate_command_policies(
    config: Option<&CommandPoliciesConfig>,
    scope: CommandPolicyValidationScope,
) -> (r: CommandPolicyValidationReport)
    ensures
        r@ == validation(
            match config {
                Some(config) => Some(config@),
                None => None,
            },
            scope,
        ),
{
    let mut report = CommandPolicyValidationReport::default();
    let config = match config {
        Some(config) => config,
        None => {
            return report;
        },
    };
    if !config.is_active() {
        if config.has_non_command_fields() {
            report.error(
                "inactive_non_empty",
                "command_policies has no policy commands but contains other ETI fields".to_owned(),
            );
        }
        return report;
    }
    report.activation = CommandPolicyActivation::Active;
    report.info(
        "active",
        text::cat3(
            "ETI active with ",
            text::decimal_text(config.commands.len() as u128).as_str(),
            " policy-controlled command(s)",
        ),
    );
    validate::validate_identifier_set("command", &config.commands, &mut report);
    validate::validate_identifier_set("credential", &config.credentials, &mut report);
    validate::validate_identifier_list("session_can_use", &config.session_can_use, &mut report);
    validate::validate_absolute_file_path_list(
        "command_policies.deny_direct_exec_bypass",
        &config.deny_direct_exec_bypass,
        &mut report,
    );
    validate_credentials(&config.credentials, &mut report);
    let ghost fields = report@;
    validate_commands(config, scope, &mut report);
    if scope == CommandPolicyValidationScope::Resolved {
        validate_resolved_references(config, &mut report);
    }
    proof {
        let errors = name_map::ordered_keys(config@.commands).flat_map(
            command_check(config@, scope),
        );
        let warnings = name_map::ordered_keys(config@.commands).flat_map(
            command_remarks(config@),
        );
        let references = if scope == CommandPolicyValidationScope::Resolved {
            reference_errors(config@)
        } else {
            Seq::empty()
        };
        assert(fields.errors =~= field_errors(config@));
        assert(report@ =~= fields.plus(errors, warnings).plus_errors(references));
        assert(report@.errors =~= active_errors(config@, scope));
        assert(report@.warnings =~= warnings);
    }
    report
}

} // verus!
