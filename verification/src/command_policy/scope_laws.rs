//! How syntactic and resolved validation relate.
use vstd::prelude::*;

use crate::command_policy::report::{CommandPolicyValidationScope, FindingModel};
use crate::command_policy::validate;
use crate::command_policy::validate_config;
use crate::command_policy::{
    CommandModel, CredentialModel, EnvironmentModel, FromModel, PoliciesModel, SandboxModel,
};
use crate::name_map;

verus! {

/// Codes of what only a resolved configuration can be blamed for: references
/// between commands, and the use of credentials.
pub open spec fn resolved_only(code: Seq<char>) -> bool {
    ||| code == "unknown_session_command"@
    ||| code == "contradictory_session_allow"@
    ||| code == "unknown_chained_command"@
    ||| code == "contradictory_chained_allow"@
    ||| code == "unknown_credential"@
    ||| code == "raw_file_credential_in_chained_policy"@
}

/// Findings that do not need a resolved configuration.
pub open spec fn syntactic() -> spec_fn(FindingModel) -> bool {
    |f: FindingModel| !resolved_only(f.code)
}

/// Every finding of the list satisfies `p`.
pub open spec fn all_are(list: Seq<FindingModel>, p: spec_fn(FindingModel) -> bool) -> bool {
    forall|i: int| 0 <= i < list.len() ==> p(#[trigger] list[i])
}

/// No finding of the list is syntactic.
spec fn none_syntactic(list: Seq<FindingModel>) -> bool {
    all_are(list, |f: FindingModel| !syntactic()(f))
}

// ---------------------------------------------------------------------------
// Lists of findings
// ---------------------------------------------------------------------------

proof fn lemma_all_sum(a: Seq<FindingModel>, b: Seq<FindingModel>, p: spec_fn(FindingModel) -> bool)
    requires
        all_are(a, p),
        all_are(b, p),
    ensures
        all_are(a + b, p),
{
    assert forall|i: int| 0 <= i < (a + b).len() implies p(#[trigger] (a + b)[i]) by {
        if i < a.len() {
            assert(p(a[i]));
        } else {
            assert(p(b[i - a.len()]));
        }
    }
}

/// What holds of all that a check finds at any member holds of all it finds.
proof fn lemma_all_flat_map<A>(
    list: Seq<A>,
    check: spec_fn(A) -> Seq<FindingModel>,
    p: spec_fn(FindingModel) -> bool,
)
    requires
        forall|i: int| 0 <= i < list.len() ==> all_are(check(#[trigger] list[i]), p),
    ensures
        all_are(list.flat_map(check), p),
    decreases list.len(),
{
    if list.len() == 0 {
        assert(list.map_values(check) =~= Seq::empty());
        assert(list.flat_map(check) =~= Seq::empty());
    } else {
        let n = list.len() - 1;
        let front = list.take(n);
        assert forall|i: int| 0 <= i < front.len() implies all_are(
            check(#[trigger] front[i]),
            p,
        ) by {
            assert(all_are(check(list[i]), p));
        }
        lemma_all_flat_map(front, check, p);
        list.lemma_flat_map_take_append(check, n);
        assert(list.take(n + 1) =~= list);
        assert(all_are(check(list[n]), p));
        lemma_all_sum(front.flat_map(check), check(list[n]), p);
    }
}

proof fn lemma_filter_keeps_all(list: Seq<FindingModel>, p: spec_fn(FindingModel) -> bool)
    requires
        all_are(list, p),
    ensures
        list.filter(p) == list,
    decreases list.len(),
{
    reveal(Seq::filter);
    if list.len() > 0 {
        let front = list.drop_last();
        assert forall|i: int| 0 <= i < front.len() implies p(#[trigger] front[i]) by {
            assert(p(list[i]));
        }
        lemma_filter_keeps_all(front, p);
        assert(p(list[list.len() - 1]));
        assert(front.push(list.last()) =~= list);
    }
}

proof fn lemma_filter_drops_all(list: Seq<FindingModel>)
    requires
        none_syntactic(list),
    ensures
        list.filter(syntactic()) == Seq::<FindingModel>::empty(),
    decreases list.len(),
{
    reveal(Seq::filter);
    if list.len() > 0 {
        let q = |f: FindingModel| !syntactic()(f);
        let front = list.drop_last();
        assert forall|i: int| 0 <= i < front.len() implies q(#[trigger] front[i]) by {
            assert(q(list[i]));
        }
        lemma_filter_drops_all(front);
        assert(q(list[list.len() - 1]));
    }
}

/// Picking from all that a check finds is picking at every member.
proof fn lemma_filter_flat_map<A>(
    list: Seq<A>,
    less: spec_fn(A) -> Seq<FindingModel>,
    more: spec_fn(A) -> Seq<FindingModel>,
    p: spec_fn(FindingModel) -> bool,
)
    requires
        forall|i: int| 0 <= i < list.len() ==> more(#[trigger] list[i]).filter(p) == less(list[i]),
    ensures
        list.flat_map(more).filter(p) == list.flat_map(less),
    decreases list.len(),
{
    if list.len() == 0 {
        reveal(Seq::filter);
        assert(list.map_values(less) =~= Seq::empty());
        assert(list.map_values(more) =~= Seq::empty());
        assert(list.flat_map(more) =~= Seq::empty());
        assert(list.flat_map(less) =~= Seq::empty());
    } else {
        let n = list.len() - 1;
        let front = list.take(n);
        assert forall|i: int| 0 <= i < front.len() implies more(#[trigger] front[i]).filter(p)
            == less(front[i]) by {
            assert(more(list[i]).filter(p) == less(list[i]));
        }
        lemma_filter_flat_map(front, less, more, p);
        list.lemma_flat_map_take_append(less, n);
        list.lemma_flat_map_take_append(more, n);
        assert(list.take(n + 1) =~= list);
        assert(more(list[n]).filter(p) == less(list[n]));
        Seq::filter_distributes_over_add(front.flat_map(more), more(list[n]), p);
    }
}

// ---------------------------------------------------------------------------
// Codes
// ---------------------------------------------------------------------------

proof fn lemma_resolved_only_starts(code: Seq<char>)
    requires
        resolved_only(code),
    ensures
        code.len() > 3,
        ({
            ||| code[0] == 'u' && code[1] == 'n' && code[2] == 'k'
            ||| code[0] == 'c' && code[1] == 'o' && code[2] == 'n' && code[3] == 't'
            ||| code[0] == 'r' && code[1] == 'a'
        }),
{
    reveal_strlit("unknown_session_command");
    reveal_strlit("contradictory_session_allow");
    reveal_strlit("unknown_chained_command");
    reveal_strlit("contradictory_chained_allow");
    reveal_strlit("unknown_credential");
    reveal_strlit("raw_file_credential_in_chained_policy");
}

/// No code of a finding on names, paths, credentials, callers or sandboxes is one
/// of a resolved configuration.
proof fn lemma_codes_are_syntactic()
    ensures
        !resolved_only("invalid_identifier"@),
        !resolved_only("case_fold_collision"@),
        !resolved_only("invalid_exec_bypass_path"@),
        !resolved_only("invalid_credential"@),
        !resolved_only("invalid_environment_pattern"@),
        !resolved_only("invalid_environment_set_var"@),
        !resolved_only("invalid_argv_prepend"@),
        !resolved_only("unenforceable_allowed_hosts"@),
        !resolved_only("ambiguous_session_policy"@),
        !resolved_only("conflicting_session_deny"@),
        !resolved_only("credential_bypass_requires_opt_in"@),
        !resolved_only("reserved_caller"@),
        !resolved_only("invalid_explicit_deny"@),
        !resolved_only("inactive_non_empty"@),
{
    assert forall|code: Seq<char>| #[trigger] resolved_only(code) implies code.len() > 3 && ({
        ||| code[0] == 'u' && code[1] == 'n' && code[2] == 'k'
        ||| code[0] == 'c' && code[1] == 'o' && code[2] == 'n' && code[3] == 't'
        ||| code[0] == 'r' && code[1] == 'a'
    }) by {
        lemma_resolved_only_starts(code);
    }
    reveal_strlit("invalid_identifier");
    reveal_strlit("case_fold_collision");
    reveal_strlit("invalid_exec_bypass_path");
    reveal_strlit("invalid_credential");
    reveal_strlit("invalid_environment_pattern");
    reveal_strlit("invalid_environment_set_var");
    reveal_strlit("invalid_argv_prepend");
    reveal_strlit("unenforceable_allowed_hosts");
    reveal_strlit("ambiguous_session_policy");
    reveal_strlit("conflicting_session_deny");
    reveal_strlit("credential_bypass_requires_opt_in");
    reveal_strlit("reserved_caller");
    reveal_strlit("invalid_explicit_deny");
    reveal_strlit("inactive_non_empty");
}

// ---------------------------------------------------------------------------
// Findings that are syntactic
// ---------------------------------------------------------------------------

proof fn lemma_identifiers_syntactic(label: Seq<char>, names: Seq<Seq<char>>)
    ensures
        all_are(validate::identifier_list_errors(label, names), syntactic()),
{
    lemma_codes_are_syntactic();
    lemma_all_flat_map(names, validate::identifier_check(label), syntactic());
}

proof fn lemma_identifier_set_syntactic(label: Seq<char>, names: Seq<Seq<char>>)
    ensures
        all_are(validate::identifier_set_errors(label, names), syntactic()),
    decreases names.len(),
{
    lemma_codes_are_syntactic();
    if names.len() > 0 {
        lemma_identifier_set_syntactic(label, names.drop_last());
    }
}

proof fn lemma_paths_syntactic(label: Seq<char>, paths: Seq<Seq<char>>)
    ensures
        all_are(validate::path_list_errors(label, paths), syntactic()),
{
    lemma_codes_are_syntactic();
    lemma_all_flat_map(paths, validate::path_check(label), syntactic());
}

proof fn lemma_credentials_syntactic(credentials: Map<Seq<char>, CredentialModel>)
    ensures
        all_are(
            name_map::ordered_keys(credentials).flat_map(
                validate_config::credential_check(credentials),
            ),
            syntactic(),
        ),
{
    lemma_codes_are_syntactic();
    lemma_all_flat_map(
        name_map::ordered_keys(credentials),
        validate_config::credential_check(credentials),
        syntactic(),
    );
}

proof fn lemma_environment_syntactic(
    command: Seq<char>,
    caller: Seq<char>,
    environment: EnvironmentModel,
    rejection: Option<Seq<char>>,
)
    ensures
        all_are(
            validate::environment_errors(command, caller, environment, rejection),
            syntactic(),
        ),
{
    lemma_codes_are_syntactic();
    let names = name_map::ordered_keys(environment.set_vars);
    if let Some(patterns) = environment.allow_vars {
        lemma_all_flat_map(patterns, validate::pattern_check(command, caller), syntactic());
    }
    lemma_all_flat_map(names, validate::set_name_check(command, caller), syntactic());
    lemma_all_flat_map(
        names,
        validate::set_value_check(command, caller, environment.set_vars),
        syntactic(),
    );
}

proof fn lemma_fields_syntactic(config: PoliciesModel)
    ensures
        all_are(validate_config::field_errors(config), syntactic()),
{
    lemma_identifier_set_syntactic("command"@, name_map::ordered_keys(config.commands));
    lemma_identifier_set_syntactic("credential"@, name_map::ordered_keys(config.credentials));
    lemma_identifiers_syntactic("session_can_use"@, config.session_can_use);
    lemma_paths_syntactic(
        "command_policies.deny_direct_exec_bypass"@,
        config.deny_direct_exec_bypass,
    );
    lemma_credentials_syntactic(config.credentials);
}

proof fn lemma_entry_syntactic(name: Seq<char>, command: CommandModel)
    ensures
        all_are(validate_config::entry_errors(name, command), syntactic()),
        all_are(validate_config::bypass_errors(name, command), syntactic()),
{
    lemma_codes_are_syntactic();
    lemma_identifiers_syntactic("commands."@ + name + ".can_use"@, command.can_use);
    lemma_paths_syntactic(
        "commands."@ + name + ".allow_direct_exec_bypass"@,
        command.allow_direct_exec_bypass,
    );
}

// ---------------------------------------------------------------------------
// Findings of a resolved configuration alone
// ---------------------------------------------------------------------------

proof fn lemma_credential_use_not_syntactic(
    command: Seq<char>,
    caller: Seq<char>,
    sandbox: SandboxModel,
    config: PoliciesModel,
)
    ensures
        none_syntactic(
            sandbox.use_credentials.flat_map(
                validate::credential_use_check(command, caller, sandbox, config.credentials),
            ),
        ),
{
    lemma_all_flat_map(
        sandbox.use_credentials,
        validate::credential_use_check(command, caller, sandbox, config.credentials),
        |f: FindingModel| !syntactic()(f),
    );
}

proof fn lemma_references_not_syntactic(config: PoliciesModel)
    ensures
        none_syntactic(validate_config::reference_errors(config)),
{
    let q = |f: FindingModel| !syntactic()(f);
    let names = name_map::ordered_keys(config.commands);
    let callees = validate_config::callee_check(config.commands);
    lemma_all_flat_map(
        config.session_can_use,
        validate_config::session_reference_check(config.commands),
        q,
    );
    assert forall|i: int| 0 <= i < names.len() implies all_are(
        callees(#[trigger] names[i]),
        q,
    ) by {
        lemma_all_flat_map(
            config.commands[names[i]].can_use,
            validate_config::chained_reference_check(config.commands, names[i]),
            q,
        );
    }
    lemma_all_flat_map(names, callees, q);
    lemma_all_sum(
        config.session_can_use.flat_map(
            validate_config::session_reference_check(config.commands),
        ),
        names.flat_map(callees),
        q,
    );
}

// ---------------------------------------------------------------------------
// Scopes
// ---------------------------------------------------------------------------

/// Of the errors in the resolved scope, those in the syntactic scope are the
/// syntactic ones.
spec fn scopes_relate(less: Seq<FindingModel>, more: Seq<FindingModel>) -> bool {
    all_are(less, syntactic()) && more.filter(syntactic()) == less
}

proof fn lemma_same_in_both(list: Seq<FindingModel>)
    requires
        all_are(list, syntactic()),
    ensures
        scopes_relate(list, list),
{
    lemma_filter_keeps_all(list, syntactic());
}

proof fn lemma_relate_sum(
    a: Seq<FindingModel>,
    b: Seq<FindingModel>,
    c: Seq<FindingModel>,
    d: Seq<FindingModel>,
)
    requires
        scopes_relate(a, c),
        scopes_relate(b, d),
    ensures
        scopes_relate(a + b, c + d),
{
    lemma_all_sum(a, b, syntactic());
    Seq::filter_distributes_over_add(c, d, syntactic());
}

proof fn lemma_relate_flat_map<A>(
    list: Seq<A>,
    less: spec_fn(A) -> Seq<FindingModel>,
    more: spec_fn(A) -> Seq<FindingModel>,
)
    requires
        forall|i: int| 0 <= i < list.len() ==> scopes_relate(less(#[trigger] list[i]), more(list[i])),
    ensures
        scopes_relate(list.flat_map(less), list.flat_map(more)),
{
    assert forall|i: int| 0 <= i < list.len() implies all_are(
        less(#[trigger] list[i]),
        syntactic(),
    ) by {
        assert(scopes_relate(less(list[i]), more(list[i])));
    }
    assert forall|i: int| 0 <= i < list.len() implies more(#[trigger] list[i]).filter(syntactic())
        == less(list[i]) by {
        assert(scopes_relate(less(list[i]), more(list[i])));
    }
    lemma_all_flat_map(list, less, syntactic());
    lemma_filter_flat_map(list, less, more, syntactic());
}

proof fn lemma_sandbox_scopes(
    command: Seq<char>,
    caller: Seq<char>,
    sandbox: SandboxModel,
    config: PoliciesModel,
)
    ensures
        scopes_relate(
            validate::sandbox_errors(
                command,
                caller,
                sandbox,
                config,
                CommandPolicyValidationScope::Syntax,
            ),
            validate::sandbox_errors(
                command,
                caller,
                sandbox,
                config,
                CommandPolicyValidationScope::Resolved,
            ),
        ),
{
    let less = validate::sandbox_errors(
        command,
        caller,
        sandbox,
        config,
        CommandPolicyValidationScope::Syntax,
    );
    let more = validate::sandbox_errors(
        command,
        caller,
        sandbox,
        config,
        CommandPolicyValidationScope::Resolved,
    );
    let extra = sandbox.use_credentials.flat_map(
        validate::credential_use_check(command, caller, sandbox, config.credentials),
    );
    lemma_codes_are_syntactic();
    lemma_identifiers_syntactic(
        "commands."@ + command + ".from."@ + caller + ".use_credentials"@,
        sandbox.use_credentials,
    );
    if let Some(environment) = sandbox.environment {
        lemma_environment_syntactic(
            command,
            caller,
            environment,
            match environment.allow_vars {
                Some(patterns) => validate::allow_vars_error(patterns),
                None => None,
            },
        );
    }
    lemma_all_flat_map(
        sandbox.argv_prepend,
        validate::argv_check(command, caller),
        syntactic(),
    );
    assert(all_are(less, syntactic()));
    assert(more =~= less + extra);
    lemma_credential_use_not_syntactic(command, caller, sandbox, config);
    lemma_filter_drops_all(extra);
    lemma_filter_keeps_all(less, syntactic());
    Seq::filter_distributes_over_add(less, extra, syntactic());
    assert(less + Seq::<FindingModel>::empty() =~= less);
}

proof fn lemma_caller_scopes(
    name: Seq<char>,
    caller: Seq<char>,
    from: FromModel,
    config: PoliciesModel,
)
    ensures
        scopes_relate(
            validate_config::caller_errors(
                name,
                caller,
                from,
                config,
                CommandPolicyValidationScope::Syntax,
            ),
            validate_config::caller_errors(
                name,
                caller,
                from,
                config,
                CommandPolicyValidationScope::Resolved,
            ),
        ),
{
    let syntax = CommandPolicyValidationScope::Syntax;
    let resolved = CommandPolicyValidationScope::Resolved;
    lemma_codes_are_syntactic();
    let named = validate_config::caller_name_errors(name, caller);
    lemma_same_in_both(named);
    match from {
        FromModel::Policy(policy) => {
            lemma_sandbox_scopes(name, caller, policy, config);
            lemma_relate_sum(
                named,
                validate::sandbox_errors(name, caller, policy, config, syntax),
                named,
                validate::sandbox_errors(name, caller, policy, config, resolved),
            );
        },
        FromModel::Deny(_) => {
            lemma_same_in_both(validate_config::caller_errors(name, caller, from, config, syntax));
        },
    }
}

proof fn lemma_command_scopes(name: Seq<char>, command: CommandModel, config: PoliciesModel)
    ensures
        scopes_relate(
            validate_config::command_errors(
                name,
                command,
                config,
                CommandPolicyValidationScope::Syntax,
            ),
            validate_config::command_errors(
                name,
                command,
                config,
                CommandPolicyValidationScope::Resolved,
            ),
        ),
{
    let syntax = CommandPolicyValidationScope::Syntax;
    let resolved = CommandPolicyValidationScope::Resolved;
    let start = validate_config::entry_errors(name, command) + validate_config::bypass_errors(
        name,
        command,
    );
    let own_less = validate_config::own_sandbox_errors(name, command, config, syntax);
    let own_more = validate_config::own_sandbox_errors(name, command, config, resolved);
    let callers = name_map::ordered_keys(command.from);
    let less = validate_config::caller_check(name, command, config, syntax);
    let more = validate_config::caller_check(name, command, config, resolved);
    lemma_entry_syntactic(name, command);
    lemma_same_in_both(start);
    match command.sandbox {
        Some(sandbox) => lemma_sandbox_scopes(name, "session"@, sandbox, config),
        None => lemma_same_in_both(own_less),
    }
    assert forall|i: int| 0 <= i < callers.len() implies scopes_relate(
        less(#[trigger] callers[i]),
        more(callers[i]),
    ) by {
        lemma_caller_scopes(name, callers[i], command.from[callers[i]], config);
    }
    lemma_relate_flat_map(callers, less, more);
    lemma_relate_sum(start, own_less, start, own_more);
    lemma_relate_sum(
        start + own_less,
        callers.flat_map(less),
        start + own_more,
        callers.flat_map(more),
    );
}

/// Resolved validation is stricter, and only by what needs a resolved
/// configuration: syntactic validation reports, in the same order, exactly those
/// of its errors that concern neither references between commands nor the use
/// of credentials. Warnings, remarks and activation are the same.
pub proof fn law_resolved_is_stricter(config: Option<PoliciesModel>)
    ensures
        ({
            let syntax = validate_config::validation(
                config,
                CommandPolicyValidationScope::Syntax,
            );
            let resolved = validate_config::validation(
                config,
                CommandPolicyValidationScope::Resolved,
            );
            &&& syntax.errors == resolved.errors.filter(syntactic())
            &&& forall|i: int|
                0 <= i < syntax.errors.len() ==> !resolved_only((#[trigger] syntax.errors[i]).code)
            &&& syntax.warnings == resolved.warnings
            &&& syntax.info == resolved.info
            &&& syntax.activation == resolved.activation
        }),
{
    let syntax = CommandPolicyValidationScope::Syntax;
    let resolved = CommandPolicyValidationScope::Resolved;
    let errors = validate_config::validation(config, syntax).errors;
    lemma_codes_are_syntactic();
    match config {
        Some(config) if config.active() => {
            let names = name_map::ordered_keys(config.commands);
            let less = validate_config::command_check(config, syntax);
            let more = validate_config::command_check(config, resolved);
            let fields = validate_config::field_errors(config);
            let references = validate_config::reference_errors(config);
            lemma_fields_syntactic(config);
            lemma_same_in_both(fields);
            assert forall|i: int| 0 <= i < names.len() implies scopes_relate(
                less(#[trigger] names[i]),
                more(names[i]),
            ) by {
                lemma_command_scopes(names[i], config.commands[names[i]], config);
            }
            lemma_relate_flat_map(names, less, more);
            lemma_relate_sum(fields, names.flat_map(less), fields, names.flat_map(more));
            lemma_references_not_syntactic(config);
            lemma_filter_drops_all(references);
            let none = Seq::<FindingModel>::empty();
            lemma_relate_sum(
                fields + names.flat_map(less),
                none,
                fields + names.flat_map(more),
                references,
            );
            assert(scopes_relate(errors, validate_config::validation(Some(config), resolved).errors));
        },
        _ => {
            lemma_same_in_both(errors);
        },
    }
    assert forall|i: int| 0 <= i < errors.len() implies !resolved_only(
        (#[trigger] errors[i]).code,
    ) by {
        assert(syntactic()(errors[i]));
    }
}

} // verus!
