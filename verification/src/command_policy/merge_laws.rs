//! What inheritance of command policies promises.
use vstd::prelude::*;

use crate::command_policy;
use crate::command_policy::merge;
use crate::command_policy::{
    CommandModel, EnvironmentModel, FromModel, NetworkModel, PoliciesModel, SandboxModel,
};

verus! {

/// A list holds exactly the members of two others.
pub open spec fn holds_both<A>(list: Seq<A>, base: Seq<A>, child: Seq<A>) -> bool {
    forall|x: A| #[trigger] list.contains(x) <==> base.contains(x) || child.contains(x)
}

/// Removing repetitions keeps exactly the members, each once.
pub proof fn law_deduped<A>(list: Seq<A>)
    ensures
        merge::deduped(list).no_duplicates(),
        forall|x: A| #[trigger] merge::deduped(list).contains(x) <==> list.contains(x),
    decreases list.len(),
{
    if list.len() > 0 {
        let front = list.drop_last();
        law_deduped(front);
        assert(list =~= front.push(list.last()));
        assert forall|x: A| #[trigger] merge::deduped(list).contains(x) <==> list.contains(x) by {
            vstd::seq_lib::lemma_seq_contains_after_push(front, list.last(), x);
            vstd::seq_lib::lemma_seq_contains_after_push(
                merge::deduped(front),
                list.last(),
                x,
            );
            assert(merge::deduped(front).contains(x) <==> front.contains(x));
        }
    }
}

/// A merged list begins with the members of the base, in their order.
pub proof fn law_base_comes_first<A>(base: Seq<A>, child: Seq<A>)
    ensures
        merge::deduped(base).is_prefix_of(merge::deduped(base + child)),
    decreases child.len(),
{
    if child.len() == 0 {
        assert(base + child =~= base);
        let all = merge::deduped(base);
        assert(all =~= all.subrange(0, all.len() as int));
    } else {
        law_base_comes_first(base, child.drop_last());
        assert((base + child).drop_last() =~= base + child.drop_last());
        let kept = merge::deduped(base + child.drop_last());
        let all = merge::deduped(base + child);
        let n = merge::deduped(base).len() as int;
        assert(all.subrange(0, n) =~= kept.subrange(0, n));
    }
}

/// A merged list holds exactly the members of both lists.
pub proof fn law_lists_combine<A>(base: Seq<A>, child: Seq<A>)
    ensures
        holds_both(merge::deduped(base + child), base, child),
        merge::deduped(base + child).no_duplicates(),
{
    let both = base + child;
    law_deduped(both);
    assert forall|x: A| #[trigger] merge::deduped(both).contains(x) <==> base.contains(x)
        || child.contains(x) by {
        assert(merge::deduped(both).contains(x) <==> both.contains(x));
        if base.contains(x) {
            let i = base.index_of(x);
            assert(both[i] == x);
        }
        if child.contains(x) {
            let i = child.index_of(x);
            assert(both[base.len() + i] == x);
        }
        if both.contains(x) {
            let i = both.index_of(x);
            if i < base.len() {
                assert(base[i] == x);
            } else {
                assert(child[i - base.len()] == x);
            }
        }
    }
}

/// Repetitions removed early make no difference in the first list.
proof fn lemma_dedup_left<A>(base: Seq<A>, child: Seq<A>)
    ensures
        merge::deduped(merge::deduped(base) + child) == merge::deduped(base + child),
    decreases base.len() + child.len(),
{
    let kept = merge::deduped(base);
    if child.len() > 0 {
        lemma_dedup_left(base, child.drop_last());
        assert((kept + child).drop_last() =~= kept + child.drop_last());
        assert((base + child).drop_last() =~= base + child.drop_last());
    } else {
        assert(kept + child =~= kept);
        assert(base + child =~= base);
        if base.len() > 0 {
            let front = base.drop_last();
            let inner = merge::deduped(front);
            let none = Seq::<A>::empty();
            lemma_dedup_left(front, none);
            assert(inner + none =~= inner);
            assert(front + none =~= front);
            if !inner.contains(base.last()) {
                assert(kept.drop_last() =~= inner);
            }
        }
    }
}

/// Repetitions removed early make no difference in the second list.
proof fn lemma_dedup_right<A>(base: Seq<A>, child: Seq<A>)
    ensures
        merge::deduped(base + merge::deduped(child)) == merge::deduped(base + child),
    decreases child.len(),
{
    let kept = merge::deduped(child);
    if child.len() > 0 {
        let front = child.drop_last();
        let inner = merge::deduped(front);
        lemma_dedup_right(base, front);
        assert((base + child).drop_last() =~= base + front);
        if inner.contains(child.last()) {
            law_deduped(front);
            law_lists_combine(base, front);
            assert(front.contains(child.last()));
            assert(merge::deduped(base + front).contains(child.last()));
        } else {
            assert((base + kept).drop_last() =~= base + inner);
        }
    }
}

/// Merging lists is associative.
pub proof fn law_list_merge_associative<A>(a: Seq<A>, b: Seq<A>, c: Seq<A>)
    ensures
        merge::deduped(merge::deduped(a + b) + c) == merge::deduped(a + merge::deduped(b + c)),
{
    lemma_dedup_left(a + b, c);
    lemma_dedup_right(a, b + c);
    assert(a + b + c =~= a + (b + c));
}

proof fn lemma_network_associative(a: NetworkModel, b: NetworkModel, c: NetworkModel)
    ensures
        merge::merged_network(merge::merged_network(a, b), c) == merge::merged_network(
            a,
            merge::merged_network(b, c),
        ),
{
    law_list_merge_associative(a.allowed_hosts, b.allowed_hosts, c.allowed_hosts);
    law_list_merge_associative(a.tcp_connect_ports, b.tcp_connect_ports, c.tcp_connect_ports);
    law_list_merge_associative(a.tcp_bind_ports, b.tcp_bind_ports, c.tcp_bind_ports);
}

proof fn lemma_environment_associative(
    a: EnvironmentModel,
    b: EnvironmentModel,
    c: EnvironmentModel,
)
    ensures
        merge::merged_environment(merge::merged_environment(a, b), c)
            == merge::merged_environment(a, merge::merged_environment(b, c)),
{
    if let (Some(x), Some(y), Some(z)) = (a.allow_vars, b.allow_vars, c.allow_vars) {
        law_list_merge_associative(x, y, z);
    }
    let left = merge::merged_environment(merge::merged_environment(a, b), c);
    let right = merge::merged_environment(a, merge::merged_environment(b, c));
    assert(left.set_vars =~= right.set_vars);
}

/// Merging sandboxes is associative: it does not matter in which order a chain
/// of profiles is folded.
pub proof fn law_sandbox_merge_associative(a: SandboxModel, b: SandboxModel, c: SandboxModel)
    ensures
        merge::merged_sandbox(merge::merged_sandbox(a, b), c) == merge::merged_sandbox(
            a,
            merge::merged_sandbox(b, c),
        ),
{
    law_list_merge_associative(a.fs_read, b.fs_read, c.fs_read);
    law_list_merge_associative(a.fs_read_file, b.fs_read_file, c.fs_read_file);
    law_list_merge_associative(a.fs_write, b.fs_write, c.fs_write);
    law_list_merge_associative(a.fs_write_file, b.fs_write_file, c.fs_write_file);
    law_list_merge_associative(a.use_credentials, b.use_credentials, c.use_credentials);
    if let (Some(x), Some(y), Some(z)) = (a.network, b.network, c.network) {
        lemma_network_associative(x, y, z);
    }
    if let (Some(x), Some(y), Some(z)) = (a.environment, b.environment, c.environment) {
        lemma_environment_associative(x, y, z);
    }
    let left = merge::merged_sandbox(merge::merged_sandbox(a, b), c);
    let right = merge::merged_sandbox(a, merge::merged_sandbox(b, c));
    assert(left.argv_prepend =~= right.argv_prepend);
}

proof fn lemma_from_associative(a: FromModel, b: FromModel, c: FromModel)
    requires
        !(a is Policy && b is Deny && c is Policy),
    ensures
        merge::merged_from(merge::merged_from(a, b), c) == merge::merged_from(
            a,
            merge::merged_from(b, c),
        ),
{
    if let (FromModel::Policy(x), FromModel::Policy(y), FromModel::Policy(z)) = (a, b, c) {
        law_sandbox_merge_associative(x, y, z);
    }
}

/// The middle command policy refuses nobody to whom the first and the last both
/// give a sandbox.
pub open spec fn agree_on_callers(a: CommandModel, b: CommandModel, c: CommandModel) -> bool {
    forall|caller: Seq<char>|
        a.from.dom().contains(caller) && b.from.dom().contains(caller)
            && #[trigger] c.from.dom().contains(caller) ==> !(a.from[caller] is Policy
            && b.from[caller] is Deny && c.from[caller] is Policy)
}

proof fn lemma_command_associative(a: CommandModel, b: CommandModel, c: CommandModel)
    requires
        agree_on_callers(a, b, c),
    ensures
        merge::merged_command(merge::merged_command(a, b), c) == merge::merged_command(
            a,
            merge::merged_command(b, c),
        ),
{
    let left = merge::merged_command(merge::merged_command(a, b), c);
    let right = merge::merged_command(a, merge::merged_command(b, c));
    law_list_merge_associative(a.can_use, b.can_use, c.can_use);
    law_list_merge_associative(
        a.allow_direct_exec_bypass,
        b.allow_direct_exec_bypass,
        c.allow_direct_exec_bypass,
    );
    if let (Some(x), Some(y), Some(z)) = (a.sandbox, b.sandbox, c.sandbox) {
        law_sandbox_merge_associative(x, y, z);
    }
    assert forall|caller: Seq<char>| #[trigger] left.from.dom().contains(caller) implies left.from[caller]
        == right.from[caller] by {
        if a.from.dom().contains(caller) && b.from.dom().contains(caller)
            && c.from.dom().contains(caller) {
            lemma_from_associative(a.from[caller], b.from[caller], c.from[caller]);
        }
    }
    assert(left.from =~= right.from);
    assert(left =~= right);
}

/// Merging command policies is associative, where no profile in the middle
/// refuses a caller to whom those around it give a sandbox: such a refusal stands
/// against the profile below it, but not against the one above.
pub proof fn law_policies_merge_associative(a: PoliciesModel, b: PoliciesModel, c: PoliciesModel)
    requires
        forall|name: Seq<char>|
            a.commands.dom().contains(name) && b.commands.dom().contains(name)
                && #[trigger] c.commands.dom().contains(name) ==> agree_on_callers(
                a.commands[name],
                b.commands[name],
                c.commands[name],
            ),
    ensures
        merge::merged_policies(merge::merged_policies(a, b), c) == merge::merged_policies(
            a,
            merge::merged_policies(b, c),
        ),
{
    let left = merge::merged_policies(merge::merged_policies(a, b), c);
    let right = merge::merged_policies(a, merge::merged_policies(b, c));
    law_list_merge_associative(a.executable_dirs, b.executable_dirs, c.executable_dirs);
    law_list_merge_associative(a.session_can_use, b.session_can_use, c.session_can_use);
    law_list_merge_associative(
        a.deny_direct_exec_bypass,
        b.deny_direct_exec_bypass,
        c.deny_direct_exec_bypass,
    );
    assert(left.credentials =~= right.credentials);
    assert forall|name: Seq<char>| #[trigger] left.commands.dom().contains(name) implies left.commands[name]
        == right.commands[name] by {
        if a.commands.dom().contains(name) && b.commands.dom().contains(name)
            && c.commands.dom().contains(name) {
            lemma_command_associative(a.commands[name], b.commands[name], c.commands[name]);
        }
    }
    assert(left.commands =~= right.commands);
    assert(left =~= right);
}

/// A merged sandbox grants exactly what the base or the child grants.
pub proof fn law_sandbox_grants_combine(base: SandboxModel, child: SandboxModel)
    ensures
        ({
            let merged = merge::merged_sandbox(base, child);
            &&& holds_both(merged.fs_read, base.fs_read, child.fs_read)
            &&& holds_both(merged.fs_read_file, base.fs_read_file, child.fs_read_file)
            &&& holds_both(merged.fs_write, base.fs_write, child.fs_write)
            &&& holds_both(merged.fs_write_file, base.fs_write_file, child.fs_write_file)
            &&& holds_both(merged.use_credentials, base.use_credentials, child.use_credentials)
        }),
{
    law_lists_combine(base.fs_read, child.fs_read);
    law_lists_combine(base.fs_read_file, child.fs_read_file);
    law_lists_combine(base.fs_write, child.fs_write);
    law_lists_combine(base.fs_write_file, child.fs_write_file);
    law_lists_combine(base.use_credentials, child.use_credentials);
}

/// Merged policies control exactly the commands of the base and of the child,
/// and define exactly their credentials.
pub proof fn law_merge_unites_names(base: PoliciesModel, child: PoliciesModel)
    ensures
        merge::merged_policies(base, child).commands.dom() == base.commands.dom().union(
            child.commands.dom(),
        ),
        merge::merged_policies(base, child).credentials.dom() == base.credentials.dom().union(
            child.credentials.dom(),
        ),
{
    let merged = merge::merged_policies(base, child);
    assert(merged.commands.dom() =~= base.commands.dom().union(child.commands.dom()));
    assert(merged.credentials.dom() =~= base.credentials.dom().union(child.credentials.dom()));
}

/// Inherited decisions are monotonic: what the base denies a caller stays
/// denied word for word, and what it allows stays allowed, whatever the child
/// says.
pub proof fn law_inherited_decisions_stand(
    base: PoliciesModel,
    child: PoliciesModel,
    name: Seq<char>,
    caller: Seq<char>,
)
    requires
        base.commands.dom().contains(name),
        base.commands[name].from.dom().contains(caller),
    ensures
        ({
            let merged = merge::merged_policies(base, child);
            let before = base.commands[name].from[caller];
            &&& merged.commands.dom().contains(name)
            &&& merged.commands[name].from.dom().contains(caller)
            &&& before is Deny ==> merged.commands[name].from[caller] == before
            &&& before is Policy ==> merged.commands[name].from[caller] is Policy
            &&& command_policy::explicit_deny(before) == command_policy::explicit_deny(
                merged.commands[name].from[caller],
            )
        }),
{
}

/// What the base fixes the child cannot change: its credentials and the
/// executables of its commands.
pub proof fn law_base_settings_stand(
    base: PoliciesModel,
    child: PoliciesModel,
    name: Seq<char>,
)
    ensures
        base.credentials.dom().contains(name) ==> merge::merged_policies(
            base,
            child,
        ).credentials[name] == base.credentials[name],
        base.commands.dom().contains(name) && base.commands[name].executable is Some
            ==> merge::merged_policies(base, child).commands[name].executable
            == base.commands[name].executable,
{
}

/// A variable that the base sets keeps the base's value.
pub proof fn law_base_variables_stand(
    base: EnvironmentModel,
    child: EnvironmentModel,
    name: Seq<char>,
)
    requires
        base.set_vars.dom().contains(name),
    ensures
        merge::merged_environment(base, child).set_vars.dom().contains(name),
        merge::merged_environment(base, child).set_vars[name] == base.set_vars[name],
{
}

/// A child that says nothing changes nothing but to remove repetitions.
pub proof fn law_empty_child(base: PoliciesModel)
    ensures
        merge::merged_policies(base, command_policy::no_policies()) == (PoliciesModel {
            executable_dirs: merge::deduped(base.executable_dirs),
            session_can_use: merge::deduped(base.session_can_use),
            deny_direct_exec_bypass: merge::deduped(base.deny_direct_exec_bypass),
            ..base
        }),
{
    let none = command_policy::no_policies();
    let merged = merge::merged_policies(base, none);
    assert(base.executable_dirs + none.executable_dirs =~= base.executable_dirs);
    assert(base.session_can_use + none.session_can_use =~= base.session_can_use);
    assert(base.deny_direct_exec_bypass + none.deny_direct_exec_bypass
        =~= base.deny_direct_exec_bypass);
    assert(merged.commands =~= base.commands);
    assert(merged.credentials =~= base.credentials);
}

/// A base that says nothing leaves the child as it is but for repetitions.
pub proof fn law_empty_base(child: PoliciesModel)
    ensures
        merge::merged_policies(command_policy::no_policies(), child) == (PoliciesModel {
            executable_dirs: merge::deduped(child.executable_dirs),
            session_can_use: merge::deduped(child.session_can_use),
            deny_direct_exec_bypass: merge::deduped(child.deny_direct_exec_bypass),
            ..child
        }),
{
    let none = command_policy::no_policies();
    let merged = merge::merged_policies(none, child);
    assert(none.executable_dirs + child.executable_dirs =~= child.executable_dirs);
    assert(none.session_can_use + child.session_can_use =~= child.session_can_use);
    assert(none.deny_direct_exec_bypass + child.deny_direct_exec_bypass
        =~= child.deny_direct_exec_bypass);
    assert(merged.commands =~= child.commands);
    assert(merged.credentials =~= child.credentials);
}

} // verus!
