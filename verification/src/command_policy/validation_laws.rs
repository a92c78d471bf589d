//! What validation of command policies promises.
use vstd::prelude::*;

use crate::command_policy::inspect::{InspectedModel, MatchModel};
use crate::command_policy::legacy;
use crate::command_policy::report::{CommandPolicyValidationScope, FindingModel};
use crate::command_policy::resolve;
use crate::command_policy::resolve::SearchDirModel;
use crate::command_policy::validate;
use crate::command_policy::validate_config;
use crate::command_policy::{
    CommandCredentialType, CommandModel, FromModel, PoliciesModel, SandboxModel,
};
use crate::name_map;
use crate::text;

verus! {

/// A check of a list finds nothing exactly if it finds nothing at any member.
proof fn lemma_nothing_found<A>(list: Seq<A>, check: spec_fn(A) -> Seq<FindingModel>)
    ensures
        list.flat_map(check).len() == 0 <==> (forall|i: int|
            0 <= i < list.len() ==> check(#[trigger] list[i]).len() == 0),
    decreases list.len(),
{
    if list.len() == 0 {
        assert(list.map_values(check) =~= Seq::empty());
    } else {
        let n = list.len() - 1;
        let front = list.take(n);
        lemma_nothing_found(front, check);
        list.lemma_flat_map_take_append(check, n);
        assert(list.take(n + 1) =~= list);
        assert(forall|i: int| 0 <= i < n ==> front[i] == list[i]);
        if list.flat_map(check).len() == 0 {
            assert forall|i: int| 0 <= i < list.len() implies check(
                #[trigger] list[i],
            ).len() == 0 by {
                if i < n {
                    assert(check(front[i]).len() == 0);
                }
            }
        } else if forall|i: int| 0 <= i < list.len() ==> check(#[trigger] list[i]).len() == 0 {
            assert forall|i: int| 0 <= i < front.len() implies check(
                #[trigger] front[i],
            ).len() == 0 by {
                assert(check(list[i]).len() == 0);
            }
            assert(check(list[n]).len() == 0);
        }
    }
}

// ---------------------------------------------------------------------------
// Single rules
// ---------------------------------------------------------------------------

/// Names are accepted exactly if each is usable and no two differ by case
/// alone.
pub proof fn law_names_accepted(label: Seq<char>, names: Seq<Seq<char>>)
    ensures
        validate::identifier_set_errors(label, names).len() == 0 <==> (forall|i: int|
            0 <= i < names.len() ==> validate::valid_identifier(#[trigger] names[i])) && (forall|
            i: int,
            j: int,
        |
            0 <= i < j < names.len() ==> text::ascii_folded(#[trigger] names[i])
                != text::ascii_folded(#[trigger] names[j])),
    decreases names.len(),
{
    if names.len() > 0 {
        let front = names.drop_last();
        let last = names.last();
        law_names_accepted(label, front);
        assert(forall|i: int| 0 <= i < front.len() ==> front[i] == names[i]);
        if validate::identifier_set_errors(label, names).len() == 0 {
            assert(!validate::folds_like_some(front, last));
            assert forall|i: int| 0 <= i < names.len() implies validate::valid_identifier(
                #[trigger] names[i],
            ) by {
                if i < front.len() {
                    assert(validate::valid_identifier(front[i]));
                }
            }
            assert forall|i: int, j: int| 0 <= i < j < names.len() implies text::ascii_folded(
                #[trigger] names[i],
            ) != text::ascii_folded(#[trigger] names[j]) by {
                assert(front[i] == names[i]);
                if j < front.len() {
                    assert(front[j] == names[j]);
                } else if text::ascii_folded(names[i]) == text::ascii_folded(names[j]) {
                    assert(text::ascii_folded(front[i]) == text::ascii_folded(last));
                }
            }
        }
        if (forall|i: int|
            0 <= i < names.len() ==> validate::valid_identifier(#[trigger] names[i])) && (forall|
            i: int,
            j: int,
        |
            0 <= i < j < names.len() ==> text::ascii_folded(#[trigger] names[i])
                != text::ascii_folded(#[trigger] names[j])) {
            assert(validate::valid_identifier(names[names.len() - 1]));
            assert forall|i: int| 0 <= i < front.len() implies validate::valid_identifier(
                #[trigger] front[i],
            ) by {
                assert(validate::valid_identifier(names[i]));
            }
            if validate::folds_like_some(front, last) {
                let i = choose|i: int|
                    0 <= i < front.len() && #[trigger] text::ascii_folded(front[i])
                        == text::ascii_folded(last);
                assert(text::ascii_folded(names[i]) != text::ascii_folded(
                    names[names.len() - 1],
                ));
            }
        }
    }
}

/// The references of a configuration are accepted exactly if every command that
/// the session or a command may use is policy-controlled and does not
/// explicitly deny that caller.
pub proof fn law_references_accepted(config: PoliciesModel)
    requires
        config.commands.dom().finite(),
    ensures
        validate_config::reference_errors(config).len() == 0 <==> (forall|i: int|
            0 <= i < config.session_can_use.len() ==> may_use(
                config,
                "session"@,
                #[trigger] config.session_can_use[i],
            )) && (forall|caller: Seq<char>, i: int|
            config.commands.dom().contains(caller) && 0 <= i
                < config.commands[caller].can_use.len() ==> may_use(
                config,
                caller,
                #[trigger] config.commands[caller].can_use[i],
            )),
{
    let commands = config.commands;
    let names = name_map::ordered_keys(commands);
    name_map::lemma_ordered_keys_of_finite(commands);
    lemma_nothing_found(
        config.session_can_use,
        validate_config::session_reference_check(commands),
    );
    lemma_nothing_found(names, validate_config::callee_check(commands));
    let check = validate_config::session_reference_check(commands);
    let callees = validate_config::callee_check(commands);
    assert forall|callee: Seq<char>| check(callee).len() == 0 <==> #[trigger] may_use(
        config,
        "session"@,
        callee,
    ) by {}
    assert forall|caller: Seq<char>|
        #![trigger callees(caller)]
        callees(caller).len() == 0 <==> forall|i: int|
            0 <= i < commands[caller].can_use.len() ==> may_use(
                config,
                caller,
                #[trigger] commands[caller].can_use[i],
            ) by {
        let list = commands[caller].can_use;
        let chained = validate_config::chained_reference_check(commands, caller);
        lemma_nothing_found(list, chained);
        assert forall|callee: Seq<char>| chained(callee).len() == 0 <==> #[trigger] may_use(
            config,
            caller,
            callee,
        ) by {}
    }
    let sessions = forall|i: int|
        0 <= i < config.session_can_use.len() ==> may_use(
            config,
            "session"@,
            #[trigger] config.session_can_use[i],
        );
    let chains = forall|caller: Seq<char>, i: int|
        commands.dom().contains(caller) && 0 <= i < commands[caller].can_use.len() ==> may_use(
            config,
            caller,
            #[trigger] commands[caller].can_use[i],
        );
    if validate_config::reference_errors(config).len() == 0 {
        assert forall|caller: Seq<char>, i: int|
            commands.dom().contains(caller) && 0 <= i
                < commands[caller].can_use.len() implies may_use(
            config,
            caller,
            #[trigger] commands[caller].can_use[i],
        ) by {
            let k = names.index_of(caller);
            assert(names.contains(caller));
            assert(callees(names[k]).len() == 0);
        }
    }
    if sessions && chains {
        assert forall|k: int| 0 <= k < names.len() implies callees(
            #[trigger] names[k],
        ).len() == 0 by {
            assert(names.contains(names[k]));
        }
    }
}

/// The callee is policy-controlled and does not explicitly deny the caller.
pub open spec fn may_use(config: PoliciesModel, caller: Seq<char>, callee: Seq<char>) -> bool {
    config.commands.dom().contains(callee) && !validate_config::denies(
        config.commands[callee],
        caller,
    )
}

/// Credentials that a sandbox uses are defined, and a raw file is given to a
/// chained caller only where that was opted into.
pub open spec fn credentials_guarded(
    caller: Seq<char>,
    sandbox: SandboxModel,
    config: PoliciesModel,
) -> bool {
    forall|i: int|
        0 <= i < sandbox.use_credentials.len() ==> {
            let name = #[trigger] sandbox.use_credentials[i];
            &&& config.credentials.dom().contains(name)
            &&& config.credentials[name].credential_type == CommandCredentialType::RawFile
                && caller != "session"@ ==> sandbox.allow_raw_file_credentials_in_chained_policy
        }
}

/// Hosts are restricted only where a proxy helper can enforce it.
pub open spec fn hosts_enforceable(sandbox: SandboxModel) -> bool {
    match sandbox.network {
        Some(network) => network.allowed_hosts.len() > 0 ==> !validate::unset(
            network.proxy_helper,
        ),
        None => true,
    }
}

proof fn lemma_sandbox_guarded(
    command: Seq<char>,
    caller: Seq<char>,
    sandbox: SandboxModel,
    config: PoliciesModel,
)
    requires
        validate::sandbox_errors(
            command,
            caller,
            sandbox,
            config,
            CommandPolicyValidationScope::Resolved,
        ).len() == 0,
    ensures
        credentials_guarded(caller, sandbox, config),
        hosts_enforceable(sandbox),
{
    let check = validate::credential_use_check(command, caller, sandbox, config.credentials);
    lemma_nothing_found(sandbox.use_credentials, check);
    assert(sandbox.use_credentials.flat_map(check).len() == 0);
    assert forall|i: int| 0 <= i < sandbox.use_credentials.len() implies {
        let name = #[trigger] sandbox.use_credentials[i];
        &&& config.credentials.dom().contains(name)
        &&& config.credentials[name].credential_type == CommandCredentialType::RawFile && caller
            != "session"@ ==> sandbox.allow_raw_file_credentials_in_chained_policy
    } by {
        assert(check(sandbox.use_credentials[i]).len() == 0);
    }
}

/// A configuration that resolved validation accepts is guarded: every sandbox
/// uses defined credentials only, with an opt-in where a chained caller gets a
/// raw file; restricted hosts can be enforced; and a command that uses
/// credentials is executed outside its policy only where that was opted into.
pub proof fn law_accepted_policies_are_guarded(
    config: PoliciesModel,
    name: Seq<char>,
    caller: Seq<char>,
)
    requires
        config.commands.dom().finite(),
        config.commands.dom().contains(name),
        config.commands[name].from.dom().finite(),
        validate_config::validation(
            Some(config),
            CommandPolicyValidationScope::Resolved,
        ).errors.len() == 0,
    ensures
        ({
            let command = config.commands[name];
            &&& command.sandbox matches Some(sandbox) ==> credentials_guarded(
                "session"@,
                sandbox,
                config,
            ) && hosts_enforceable(sandbox)
            &&& command.from.dom().contains(caller) && command.from[caller] is Policy
                ==> credentials_guarded(caller, command.from[caller]->Policy_0, config)
                && hosts_enforceable(command.from[caller]->Policy_0)
            &&& command.allow_direct_exec_bypass.len() > 0 && validate_config::has_credentials(
                command,
            ) ==> command.allow_direct_exec_bypass_with_credentials
            &&& !(command.sandbox is Some && command.from.dom().contains("session"@))
        }),
{
    let resolved = CommandPolicyValidationScope::Resolved;
    let command = config.commands[name];
    let names = name_map::ordered_keys(config.commands);
    let check = validate_config::command_check(config, resolved);
    name_map::lemma_ordered_keys_of_finite(config.commands);
    assert(config.active()) by {
        if config.commands.dom().len() == 0 {
            assert(config.commands.dom() =~= Set::empty());
        }
    }
    assert(names.flat_map(check).len() == 0);
    lemma_nothing_found(names, check);
    let k = names.index_of(name);
    assert(names.contains(name));
    assert(check(names[k]).len() == 0);
    assert(validate_config::command_errors(name, command, config, resolved).len() == 0);
    if let Some(sandbox) = command.sandbox {
        lemma_sandbox_guarded(name, "session"@, sandbox, config);
    }
    if command.from.dom().contains(caller) {
        let callers = name_map::ordered_keys(command.from);
        let inner = validate_config::caller_check(name, command, config, resolved);
        name_map::lemma_ordered_keys_of_finite(command.from);
        lemma_nothing_found(callers, inner);
        let m = callers.index_of(caller);
        assert(callers.contains(caller));
        assert(inner(callers[m]).len() == 0);
        if let FromModel::Policy(policy) = command.from[caller] {
            lemma_sandbox_guarded(name, caller, policy, config);
        }
    }
    assert(validate_config::bypass_errors(name, command).len() == 0);
    assert(validate_config::session_errors(name, command).len() == 0);
}

/// Legacy lists beside active policies are accepted exactly if all their names
/// are usable and every blocked command that is policy-controlled is allowed
/// again.
pub proof fn law_legacy_lists_accepted(
    config: PoliciesModel,
    blocked: Seq<Seq<char>>,
    allowed: Seq<Seq<char>>,
)
    requires
        config.active(),
    ensures
        legacy::legacy_validation(Some(config), blocked, allowed).errors.len() == 0 <==> (forall|
            i: int,
        |
            0 <= i < allowed.len() ==> validate::valid_identifier(#[trigger] allowed[i])) && (
        forall|i: int|
            0 <= i < blocked.len() ==> validate::valid_identifier(#[trigger] blocked[i]) && (
            config.commands.dom().contains(blocked[i]) ==> allowed.contains(blocked[i]))),
{
    let names = validate::identifier_check("security.allowed_commands"@);
    let check = legacy::blocked_check(allowed, config.commands);
    lemma_nothing_found(allowed, names);
    lemma_nothing_found(blocked, check);
    assert forall|name: Seq<char>| #[trigger] names(name).len() == 0
        <==> validate::valid_identifier(name) by {}
    assert forall|name: Seq<char>| #[trigger] check(name).len() == 0
        <==> validate::valid_identifier(name) && (config.commands.dom().contains(name)
        ==> allowed.contains(name)) by {}
}

// ---------------------------------------------------------------------------
// Resolution
// ---------------------------------------------------------------------------

/// Resolution that succeeds resolves every policy-controlled command and no
/// other, each under its own name.
pub proof fn law_all_commands_resolve(
    config: PoliciesModel,
    dirs: Seq<SearchDirModel>,
    outcomes: Seq<Seq<InspectedModel>>,
)
    requires
        config.commands.dom().finite(),
    ensures
        ({
            let names = name_map::ordered_keys(config.commands);
            resolve::resolution(config, dirs, outcomes, names.len()) matches Ok(binaries) ==> {
                &&& binaries.commands.dom() == config.commands.dom()
                &&& forall|name: Seq<char>| #[trigger]
                    binaries.commands.dom().contains(name) ==> binaries.commands[name].name == name
            }
        }),
{
    let names = name_map::ordered_keys(config.commands);
    name_map::lemma_ordered_keys_of_finite(config.commands);
    lemma_resolved_names(config, dirs, outcomes, names.len());
    if let Ok(binaries) = resolve::resolution(config, dirs, outcomes, names.len()) {
        assert(names.take(names.len() as int) =~= names);
        assert forall|name: Seq<char>| binaries.commands.dom().contains(name)
            == config.commands.dom().contains(name) by {
            assert(names.contains(name) <==> config.commands.dom().contains(name));
            assert(names.take(names.len() as int).contains(name) <==> names.contains(name));
        }
        assert(binaries.commands.dom() =~= config.commands.dom());
    }
}

proof fn lemma_resolved_names(
    config: PoliciesModel,
    dirs: Seq<SearchDirModel>,
    outcomes: Seq<Seq<InspectedModel>>,
    n: nat,
)
    requires
        n <= name_map::ordered_keys(config.commands).len(),
    ensures
        resolve::resolution(config, dirs, outcomes, n) matches Ok(binaries) ==> {
            &&& forall|name: Seq<char>| #[trigger]
                binaries.commands.dom().contains(name) <==> name_map::ordered_keys(
                    config.commands,
                ).take(n as int).contains(name)
            &&& forall|name: Seq<char>| #[trigger]
                binaries.commands.dom().contains(name) ==> binaries.commands[name].name == name
        },
    decreases n,
{
    let names = name_map::ordered_keys(config.commands);
    if n > 0 {
        let before = (n - 1) as nat;
        lemma_resolved_names(config, dirs, outcomes, before);
        assert(names.take(n as int) =~= names.take(before as int).push(names[n - 1]));
        assert forall|name: Seq<char>|
            names.take(n as int).contains(name) <==> names.take(before as int).contains(name)
                || name == names[n - 1] by {
            vstd::seq_lib::lemma_seq_contains_after_push(
                names.take(before as int),
                names[n - 1],
                name,
            );
        }
    }
}

/// The first outcome that is a match gives the first match found.
proof fn lemma_first_found(outcomes: Seq<InspectedModel>)
    ensures
        outcomes.flat_map(resolve::found()).len() == 0 <==> forall|i: int|
            0 <= i < outcomes.len() ==> !(#[trigger] outcomes[i] is Match),
        outcomes.flat_map(resolve::found()).len() > 0 ==> exists|k: int|
            0 <= k < outcomes.len() && first_match_at(outcomes, k) && #[trigger] outcomes[k]
                == InspectedModel::Match(outcomes.flat_map(resolve::found())[0]),
    decreases outcomes.len(),
{
    let found = resolve::found();
    if outcomes.len() == 0 {
        assert(outcomes.map_values(found) =~= Seq::empty());
    } else {
        let n = outcomes.len() - 1;
        let front = outcomes.take(n);
        lemma_first_found(front);
        outcomes.lemma_flat_map_take_append(found, n);
        assert(outcomes.take(n + 1) =~= outcomes);
        assert(forall|i: int| 0 <= i < n ==> front[i] == outcomes[i]);
        if front.flat_map(found).len() > 0 {
            let k = choose|k: int|
                0 <= k < front.len() && first_match_at(front, k) && #[trigger] front[k]
                    == InspectedModel::Match(front.flat_map(found)[0]);
            assert(front[k] == outcomes[k]);
            assert(first_match_at(outcomes, k));
            assert(outcomes.flat_map(found)[0] == front.flat_map(found)[0]);
        } else if outcomes[n] is Match {
            assert forall|i: int| 0 <= i < n implies !(#[trigger] outcomes[i] is Match) by {
                assert(!(front[i] is Match));
            }
            assert(first_match_at(outcomes, n));
        } else {
            assert forall|i: int| 0 <= i < outcomes.len() implies !(
            #[trigger] outcomes[i] is Match) by {
                if i < n {
                    assert(!(front[i] is Match));
                }
            }
        }
    }
}

/// The outcome at `k` is a match, and none before it is.
pub open spec fn first_match_at(outcomes: Seq<InspectedModel>, k: int) -> bool {
    outcomes[k] is Match && forall|i: int| 0 <= i < k ==> !(#[trigger] outcomes[i] is Match)
}

/// A command that is not bound to one file resolves to the match in the first
/// search directory that has one.
pub proof fn law_first_match_wins(
    name: Seq<char>,
    command: CommandModel,
    dirs: Seq<SearchDirModel>,
    outcomes: Seq<InspectedModel>,
)
    requires
        command.executable is None,
    ensures
        resolve::selection(name, command, dirs, outcomes) matches Ok((selected, _)) ==> exists|k: int|
            0 <= k < outcomes.len() && first_match_at(outcomes, k) && #[trigger] outcomes[k]
                == InspectedModel::Match(selected),
{
    lemma_first_found(outcomes);
}

/// Looking for a command fails exactly if a directory that the configuration
/// names made trouble; trouble elsewhere on the search path is passed over.
pub proof fn law_only_configured_dirs_fail(
    name: Seq<char>,
    dirs: Seq<SearchDirModel>,
    outcomes: Seq<InspectedModel>,
)
    requires
        outcomes.len() == dirs.len(),
    ensures
        resolve::matches_in(name, dirs, outcomes) is Err <==> exists|k: int|
            0 <= k < dirs.len() && (#[trigger] dirs[k]).explicit && outcomes[k] is Failed,
{
    lemma_explicit_errors(name, dirs, outcomes);
}

proof fn lemma_explicit_errors(
    name: Seq<char>,
    dirs: Seq<SearchDirModel>,
    outcomes: Seq<InspectedModel>,
)
    requires
        outcomes.len() == dirs.len(),
    ensures
        resolve::explicit_errors(name, dirs, outcomes).len() > 0 <==> exists|k: int|
            0 <= k < dirs.len() && (#[trigger] dirs[k]).explicit && outcomes[k] is Failed,
    decreases dirs.len(),
{
    if dirs.len() > 0 {
        let n = dirs.len() - 1;
        let front = dirs.drop_last();
        let before = outcomes.drop_last();
        lemma_explicit_errors(name, front, before);
        assert(dirs[n] == dirs.last() && outcomes[n] == outcomes.last());
        if exists|k: int|
            0 <= k < front.len() && (#[trigger] front[k]).explicit && before[k] is Failed {
            let k = choose|k: int|
                0 <= k < front.len() && (#[trigger] front[k]).explicit && before[k] is Failed;
            assert(dirs[k] == front[k] && outcomes[k] == before[k]);
        }
        if exists|k: int|
            0 <= k < dirs.len() && (#[trigger] dirs[k]).explicit && outcomes[k] is Failed {
            let k = choose|k: int|
                0 <= k < dirs.len() && (#[trigger] dirs[k]).explicit && outcomes[k] is Failed;
            if k < n {
                assert(front[k] == dirs[k] && before[k] == outcomes[k]);
            }
        }
    }
}

/// The other files that a resolved command is reported with are real ones
/// behind the first match, and none of them is the selected file.
pub proof fn law_other_paths_differ(selected: MatchModel, list: Seq<MatchModel>, path: Seq<u8>)
    requires
        resolve::other_paths(selected, list).contains(path),
    ensures
        exists|i: int|
            0 <= i < list.len() && #[trigger] list[i].canonical_path == path
                && !resolve::same_inode(list[i], selected),
    decreases list.len(),
{
    let front = list.drop_last();
    let n = list.len() - 1;
    let before = resolve::other_paths(selected, front);
    if before.contains(path) {
        law_other_paths_differ(selected, front, path);
        let i = choose|i: int|
            0 <= i < front.len() && #[trigger] front[i].canonical_path == path
                && !resolve::same_inode(front[i], selected);
        assert(list[i].canonical_path == path);
    } else {
        vstd::seq_lib::lemma_seq_contains_after_push(before, list.last().canonical_path, path);
        assert(list[n].canonical_path == path);
    }
}

/// A single file under several names gives no other file.
pub proof fn law_aliases_are_no_duplicates(selected: MatchModel, list: Seq<MatchModel>)
    requires
        forall|i: int| 0 <= i < list.len() ==> resolve::same_inode(#[trigger] list[i], selected),
    ensures
        resolve::other_paths(selected, list).len() == 0,
    decreases list.len(),
{
    if list.len() > 0 {
        let front = list.drop_last();
        assert forall|i: int| 0 <= i < front.len() implies resolve::same_inode(
            #[trigger] front[i],
            selected,
        ) by {
            assert(resolve::same_inode(list[i], selected));
        }
        assert(resolve::same_inode(list[list.len() - 1], selected));
        law_aliases_are_no_duplicates(selected, front);
    }
}

} // verus!
