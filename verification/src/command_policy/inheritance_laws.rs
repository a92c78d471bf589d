//! What a child profile adds to its base, setting by setting.
//!
//! Each relation below says of three configurations when the first is the second
//! extended by the third; the laws say that merging yields such a configuration.
use vstd::prelude::*;

use crate::command_policy::merge;
use crate::command_policy::merge_laws;
use crate::command_policy::{
    CommandModel, CredentialModel, EnvironmentModel, FromModel, NetworkModel, PoliciesModel,
    SandboxModel,
};

verus! {

/// `x` occurs in the list before any occurrence of `y`.
pub open spec fn comes_before<A>(list: Seq<A>, x: A, y: A) -> bool {
    exists|k: int|
        0 <= k < list.len() && #[trigger] list[k] == x && forall|m: int|
            0 <= m <= k ==> list[m] != y
}

/// The list holds what `base` or `child` holds, each once, in the order in which
/// they first come up when `base` is read before `child`.
pub open spec fn list_extends<A>(list: Seq<A>, base: Seq<A>, child: Seq<A>) -> bool {
    &&& forall|x: A| #[trigger] list.contains(x) <==> base.contains(x) || child.contains(x)
    &&& forall|i: int, j: int|
        0 <= i < j < list.len() ==> #[trigger] list[i] != #[trigger] list[j]
    &&& forall|i: int, j: int|
        0 <= i < j < list.len() ==> comes_before(
            base + child,
            #[trigger] list[i],
            #[trigger] list[j],
        )
}

proof fn lemma_deduped_order<A>(list: Seq<A>)
    ensures
        forall|i: int, j: int|
            0 <= i < j < merge::deduped(list).len() ==> comes_before(
                list,
                #[trigger] merge::deduped(list)[i],
                #[trigger] merge::deduped(list)[j],
            ),
    decreases list.len(),
{
    if list.len() > 0 {
        let front = list.drop_last();
        let kept = merge::deduped(front);
        let all = merge::deduped(list);
        lemma_deduped_order(front);
        merge_laws::law_deduped(front);
        assert forall|i: int, j: int| 0 <= i < j < all.len() implies comes_before(
            list,
            #[trigger] all[i],
            #[trigger] all[j],
        ) by {
            assert(all[i] == kept[i]);
            if j < kept.len() {
                assert(comes_before(front, kept[i], kept[j]));
                let k = choose|k: int|
                    0 <= k < front.len() && #[trigger] front[k] == kept[i] && forall|m: int|
                        0 <= m <= k ==> front[m] != kept[j];
                assert(list[k] == front[k]);
                assert forall|m: int| 0 <= m <= k implies list[m] != kept[j] by {
                    assert(list[m] == front[m]);
                }
            } else {
                assert(kept.contains(kept[i]));
                let k = front.index_of(kept[i]);
                assert(list[k] == front[k]);
                assert forall|m: int| 0 <= m <= k implies list[m] != all[j] by {
                    assert(list[m] == front[m]);
                    assert(front.contains(front[m]));
                }
            }
        }
    }
}

/// A merged list is the base's extended by the child's.
pub proof fn law_merged_list_extends<A>(base: Seq<A>, child: Seq<A>)
    ensures
        list_extends(merge::deduped(base + child), base, child),
{
    merge_laws::law_lists_combine(base, child);
    lemma_deduped_order(base + child);
    let merged = merge::deduped(base + child);
    assert forall|x: A| #[trigger] merged.contains(x) <==> base.contains(x) || child.contains(x) by {}
}

/// The names are those of the base and of the child; the base's values stand,
/// and the child gives only those that the base lacks.
pub open spec fn names_extend<A>(
    merged: Map<Seq<char>, A>,
    base: Map<Seq<char>, A>,
    child: Map<Seq<char>, A>,
) -> bool {
    &&& forall|k: Seq<char>| #[trigger]
        merged.dom().contains(k) <==> base.dom().contains(k) || child.dom().contains(k)
    &&& forall|k: Seq<char>| #[trigger] base.dom().contains(k) ==> merged[k] == base[k]
    &&& forall|k: Seq<char>| #[trigger]
        child.dom().contains(k) && !base.dom().contains(k) ==> merged[k] == child[k]
}

/// The network access of the base, extended by that of the child.
pub open spec fn network_extends(
    merged: NetworkModel,
    base: NetworkModel,
    child: NetworkModel,
) -> bool {
    &&& list_extends(merged.allowed_hosts, base.allowed_hosts, child.allowed_hosts)
    &&& list_extends(merged.tcp_connect_ports, base.tcp_connect_ports, child.tcp_connect_ports)
    &&& list_extends(merged.tcp_bind_ports, base.tcp_bind_ports, child.tcp_bind_ports)
    &&& child.proxy_helper is Some ==> merged.proxy_helper == child.proxy_helper
    &&& child.proxy_helper is None ==> merged.proxy_helper == base.proxy_helper
}

/// The environment of the base, extended by that of the child.
pub open spec fn environment_extends(
    merged: EnvironmentModel,
    base: EnvironmentModel,
    child: EnvironmentModel,
) -> bool {
    &&& base.allow_vars is None ==> merged.allow_vars == child.allow_vars
    &&& child.allow_vars is None ==> merged.allow_vars == base.allow_vars
    &&& base.allow_vars is Some && child.allow_vars is Some ==> merged.allow_vars is Some
        && list_extends(merged.allow_vars->0, base.allow_vars->0, child.allow_vars->0)
    &&& names_extend(merged.set_vars, base.set_vars, child.set_vars)
}

/// The sandbox of the base, extended by that of the child: it grants what either
/// grants, and its prepended arguments are the base's, then the child's.
pub open spec fn sandbox_extends(
    merged: SandboxModel,
    base: SandboxModel,
    child: SandboxModel,
) -> bool {
    &&& list_extends(merged.fs_read, base.fs_read, child.fs_read)
    &&& list_extends(merged.fs_read_file, base.fs_read_file, child.fs_read_file)
    &&& list_extends(merged.fs_write, base.fs_write, child.fs_write)
    &&& list_extends(merged.fs_write_file, base.fs_write_file, child.fs_write_file)
    &&& list_extends(merged.use_credentials, base.use_credentials, child.use_credentials)
    &&& merged.argv_prepend.len() == base.argv_prepend.len() + child.argv_prepend.len()
    &&& forall|i: int|
        0 <= i < base.argv_prepend.len() ==> merged.argv_prepend[i] == #[trigger] base.argv_prepend[i]
    &&& forall|i: int|
        0 <= i < child.argv_prepend.len() ==> merged.argv_prepend[base.argv_prepend.len() + i]
            == #[trigger] child.argv_prepend[i]
    &&& base.network is None ==> merged.network == child.network
    &&& child.network is None ==> merged.network == base.network
    &&& base.network is Some && child.network is Some ==> merged.network is Some
        && network_extends(merged.network->0, base.network->0, child.network->0)
    &&& base.environment is None ==> merged.environment == child.environment
    &&& child.environment is None ==> merged.environment == base.environment
    &&& base.environment is Some && child.environment is Some ==> merged.environment is Some
        && environment_extends(merged.environment->0, base.environment->0, child.environment->0)
    &&& merged.allow_raw_file_credentials_in_chained_policy <==> (
    base.allow_raw_file_credentials_in_chained_policy
        || child.allow_raw_file_credentials_in_chained_policy)
}

/// The answer of the base to a caller, extended by that of the child: a sandbox
/// only grows, and nothing turns a refusal into a sandbox or the other way
/// round.
pub open spec fn from_extends(merged: FromModel, base: FromModel, child: FromModel) -> bool {
    &&& base is Deny || child is Deny ==> merged == base
    &&& base is Policy && child is Policy ==> merged is Policy && sandbox_extends(
        merged->Policy_0,
        base->Policy_0,
        child->Policy_0,
    )
}

/// The command policy of the base, extended by that of the child.
pub open spec fn command_extends(
    merged: CommandModel,
    base: CommandModel,
    child: CommandModel,
) -> bool {
    &&& base.executable is Some ==> merged.executable == base.executable
    &&& base.executable is None ==> merged.executable == child.executable
    &&& list_extends(merged.can_use, base.can_use, child.can_use)
    &&& list_extends(
        merged.allow_direct_exec_bypass,
        base.allow_direct_exec_bypass,
        child.allow_direct_exec_bypass,
    )
    &&& merged.allow_direct_exec_bypass_with_credentials <==> (
    base.allow_direct_exec_bypass_with_credentials
        || child.allow_direct_exec_bypass_with_credentials)
    &&& base.sandbox is None ==> merged.sandbox == child.sandbox
    &&& child.sandbox is None ==> merged.sandbox == base.sandbox
    &&& base.sandbox is Some && child.sandbox is Some ==> merged.sandbox is Some
        && sandbox_extends(merged.sandbox->0, base.sandbox->0, child.sandbox->0)
    &&& forall|caller: Seq<char>| #[trigger]
        merged.from.dom().contains(caller) <==> base.from.dom().contains(caller)
            || child.from.dom().contains(caller)
    &&& forall|caller: Seq<char>| #[trigger]
        base.from.dom().contains(caller) && !child.from.dom().contains(caller)
            ==> merged.from[caller] == base.from[caller]
    &&& forall|caller: Seq<char>| #[trigger]
        child.from.dom().contains(caller) && !base.from.dom().contains(caller)
            ==> merged.from[caller] == child.from[caller]
    &&& forall|caller: Seq<char>|
        base.from.dom().contains(caller) && #[trigger] child.from.dom().contains(caller)
            ==> from_extends(merged.from[caller], base.from[caller], child.from[caller])
}

/// The command policies of the base, extended by those of the child.
pub open spec fn policies_extend(
    merged: PoliciesModel,
    base: PoliciesModel,
    child: PoliciesModel,
) -> bool {
    &&& list_extends(merged.executable_dirs, base.executable_dirs, child.executable_dirs)
    &&& list_extends(merged.session_can_use, base.session_can_use, child.session_can_use)
    &&& list_extends(
        merged.deny_direct_exec_bypass,
        base.deny_direct_exec_bypass,
        child.deny_direct_exec_bypass,
    )
    &&& names_extend::<CredentialModel>(merged.credentials, base.credentials, child.credentials)
    &&& forall|name: Seq<char>| #[trigger]
        merged.commands.dom().contains(name) <==> base.commands.dom().contains(name)
            || child.commands.dom().contains(name)
    &&& forall|name: Seq<char>| #[trigger]
        base.commands.dom().contains(name) && !child.commands.dom().contains(name)
            ==> merged.commands[name] == base.commands[name]
    &&& forall|name: Seq<char>| #[trigger]
        child.commands.dom().contains(name) && !base.commands.dom().contains(name)
            ==> merged.commands[name] == child.commands[name]
    &&& forall|name: Seq<char>|
        base.commands.dom().contains(name) && #[trigger] child.commands.dom().contains(name)
            ==> command_extends(
            merged.commands[name],
            base.commands[name],
            child.commands[name],
        )
}

/// Merged network access holds the hosts and ports of both sides, each once and
/// the base's first; a proxy helper of the child takes the place of the base's.
pub proof fn law_network_extends(base: NetworkModel, child: NetworkModel)
    ensures
        network_extends(merge::merged_network(base, child), base, child),
{
    law_merged_list_extends(base.allowed_hosts, child.allowed_hosts);
    law_merged_list_extends(base.tcp_connect_ports, child.tcp_connect_ports);
    law_merged_list_extends(base.tcp_bind_ports, child.tcp_bind_ports);
}

/// A merged environment lets through the variables of both sides, and sets the
/// base's variables and those of the child that the base does not set.
pub proof fn law_environment_extends(base: EnvironmentModel, child: EnvironmentModel)
    ensures
        environment_extends(merge::merged_environment(base, child), base, child),
{
    if let (Some(x), Some(y)) = (base.allow_vars, child.allow_vars) {
        law_merged_list_extends(x, y);
    }
}

/// A merged sandbox grants what either side grants.
pub proof fn law_sandbox_extends(base: SandboxModel, child: SandboxModel)
    ensures
        sandbox_extends(merge::merged_sandbox(base, child), base, child),
{
    law_merged_list_extends(base.fs_read, child.fs_read);
    law_merged_list_extends(base.fs_read_file, child.fs_read_file);
    law_merged_list_extends(base.fs_write, child.fs_write);
    law_merged_list_extends(base.fs_write_file, child.fs_write_file);
    law_merged_list_extends(base.use_credentials, child.use_credentials);
    if let (Some(x), Some(y)) = (base.network, child.network) {
        law_network_extends(x, y);
    }
    if let (Some(x), Some(y)) = (base.environment, child.environment) {
        law_environment_extends(x, y);
    }
}

/// A merged answer to a caller is the base's, but that a sandbox grows by the
/// child's.
pub proof fn law_from_extends(base: FromModel, child: FromModel)
    ensures
        from_extends(merge::merged_from(base, child), base, child),
{
    if let (FromModel::Policy(x), FromModel::Policy(y)) = (base, child) {
        law_sandbox_extends(x, y);
    }
}

/// A merged command may use what either side lets it use, and answers the
/// callers of both.
pub proof fn law_command_extends(base: CommandModel, child: CommandModel)
    ensures
        command_extends(merge::merged_command(base, child), base, child),
{
    let merged = merge::merged_command(base, child);
    law_merged_list_extends(base.can_use, child.can_use);
    law_merged_list_extends(base.allow_direct_exec_bypass, child.allow_direct_exec_bypass);
    if let (Some(x), Some(y)) = (base.sandbox, child.sandbox) {
        law_sandbox_extends(x, y);
    }
    assert forall|caller: Seq<char>|
        base.from.dom().contains(caller) && #[trigger] child.from.dom().contains(
            caller,
        ) implies from_extends(merged.from[caller], base.from[caller], child.from[caller]) by {
        law_from_extends(base.from[caller], child.from[caller]);
    }
}

/// Merged policies are the base's extended by the child's, down to every list,
/// name and switch.
pub proof fn law_policies_extend(base: PoliciesModel, child: PoliciesModel)
    ensures
        policies_extend(merge::merged_policies(base, child), base, child),
{
    let merged = merge::merged_policies(base, child);
    law_merged_list_extends(base.executable_dirs, child.executable_dirs);
    law_merged_list_extends(base.session_can_use, child.session_can_use);
    law_merged_list_extends(base.deny_direct_exec_bypass, child.deny_direct_exec_bypass);
    assert forall|name: Seq<char>|
        base.commands.dom().contains(name) && #[trigger] child.commands.dom().contains(
            name,
        ) implies command_extends(
        merged.commands[name],
        base.commands[name],
        child.commands[name],
    ) by {
        law_command_extends(base.commands[name], child.commands[name]);
    }
}

} // verus!
