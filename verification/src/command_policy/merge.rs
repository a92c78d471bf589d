//! Inheritance of command policies: a child profile extends its base, and
//! cannot take back what the base decided.
use vstd::prelude::*;

use crate::command_policy::{
    CommandCredentialConfig, CommandEnvironmentConfig, CommandFromConfig, CommandNetworkConfig,
    CommandPoliciesConfig, CommandPolicyConfig, CommandSandboxConfig,
};
use crate::command_policy::{
    CommandModel, CredentialModel, EnvironmentModel, FromModel, NetworkModel, PoliciesModel,
    SandboxModel,
};
use crate::name_map;
use crate::name_map::{NameMap, Replicate};
use crate::text;

verus! {

/// The members of a list in order, each at its first occurrence only.
pub open spec fn deduped<A>(list: Seq<A>) -> Seq<A>
    decreases list.len(),
{
    if list.len() == 0 {
        Seq::empty()
    } else {
        let kept = deduped(list.drop_last());
        if kept.contains(list.last()) {
            kept
        } else {
            kept.push(list.last())
        }
    }
}

/// Members of a list that can be compared and copied.
pub trait ListItem: Replicate {
    fn same(&self, other: &Self) -> (r: bool)
        ensures
            r == (self@ == other@),
    ;
}

impl ListItem for String {
    fn same(&self, other: &Self) -> (r: bool) {
        text::text_eq(self.as_str(), other.as_str())
    }
}

impl Replicate for u16 {
    fn replicate(&self) -> (r: Self) {
        *self
    }
}

impl ListItem for u16 {
    fn same(&self, other: &Self) -> (r: bool) {
        *self == *other
    }
}

/// Appends a copy of `item` unless the list already holds an equal one.
fn push_new<T: ListItem>(list: &mut Vec<T>, item: &T)
    ensures
        text::views(final(list)@) == (if text::views(old(list)@).contains(item@) {
            text::views(old(list)@)
        } else {
            text::views(old(list)@).push(item@)
        }),
{
    for i in 0..list.len()
        invariant
            list@ == old(list)@,
            forall|j: int| 0 <= j < i ==> text::views(list@)[j] != item@,
    {
        assert(text::views(list@)[i as int] == list@[i as int]@);
        if list[i].same(item) {
            return ;
        }
    }
    list.push(item.replicate());
    assert(text::views(list@) =~= text::views(old(list)@).push(item@));
}

/// The members of `base`, then those of `child`, each at its first occurrence
/// only.
pub fn dedup_append<T: ListItem>(base: &Vec<T>, child: &Vec<T>) -> (r: Vec<T>)
    ensures
        text::views(r@) == deduped(text::views(base@) + text::views(child@)),
{
    let mut out: Vec<T> = Vec::new();
    let ghost all = text::views(base@) + text::views(child@);
    assert(text::views(out@) =~= Seq::empty());
    for i in 0..base.len()
        invariant
            all == text::views(base@) + text::views(child@),
            text::views(out@) == deduped(all.take(i as int)),
    {
        proof {
            assert(all.take(i + 1).drop_last() =~= all.take(i as int));
            assert(all.take(i + 1).last() == base@[i as int]@);
        }
        push_new(&mut out, &base[i]);
    }
    for i in 0..child.len()
        invariant
            all == text::views(base@) + text::views(child@),
            text::views(out@) == deduped(all.take(base@.len() + i)),
    {
        proof {
            let k = base@.len() + i;
            assert(all.take(k + 1).drop_last() =~= all.take(k));
            assert(all.take(k + 1).last() == child@[i as int]@);
        }
        push_new(&mut out, &child[i]);
    }
    assert(all.take(all.len() as int) =~= all);
    out
}

/// The arguments of `base` followed by those of `child`.
pub fn append_args(base: &Vec<String>, child: &Vec<String>) -> (r: Vec<String>)
    ensures
        text::texts(r@) == text::texts(base@) + text::texts(child@),
{
    let mut out = text::copy_texts(base);
    for i in 0..child.len()
        invariant
            text::texts(out@) == text::texts(base@) + text::texts(child@).take(i as int),
    {
        let ghost before = out@;
        out.push(child[i].clone());
        assert(text::texts(out@) =~= text::texts(before).push(child@[i as int]@));
        assert(text::texts(child@).take(i + 1) =~= text::texts(child@).take(i as int).push(
            child@[i as int]@,
        ));
    }
    assert(text::texts(child@).take(child@.len() as int) =~= text::texts(child@));
    out
}

/// Two maps as one: names of both sides combine by `both`, the rest carry over.
pub open spec fn inherited<A>(
    base: Map<Seq<char>, A>,
    child: Map<Seq<char>, A>,
    both: spec_fn(A, A) -> A,
) -> Map<Seq<char>, A> {
    Map::new(
        |k: Seq<char>| base.dom().contains(k) || child.dom().contains(k),
        |k: Seq<char>|
            if base.dom().contains(k) && child.dom().contains(k) {
                both(base[k], child[k])
            } else if base.dom().contains(k) {
                base[k]
            } else {
                child[k]
            },
    )
}

/// Two optional settings as one: both present combine by `both`, else
/// whichever is present stands.
pub open spec fn inherited_option<A>(
    base: Option<A>,
    child: Option<A>,
    both: spec_fn(A, A) -> A,
) -> Option<A> {
    match (base, child) {
        (None, None) => None,
        (Some(base), None) => Some(base),
        (None, Some(child)) => Some(child),
        (Some(base), Some(child)) => Some(both(base, child)),
    }
}

/// Values of a named setting that a child profile can extend.
pub trait Inherit: Replicate {
    spec fn combined(base: Self::V, child: Self::V) -> Self::V;

    fn inherit(&self, child: &Self) -> (r: Self)
        ensures
            r@ == Self::combined(self@, child@),
    ;
}

impl Inherit for String {
    open spec fn combined(base: Seq<char>, child: Seq<char>) -> Seq<char> {
        base
    }

    fn inherit(&self, child: &Self) -> (r: Self) {
        self.clone()
    }
}

impl Inherit for CommandCredentialConfig {
    open spec fn combined(base: CredentialModel, child: CredentialModel) -> CredentialModel {
        base
    }

    fn inherit(&self, child: &Self) -> (r: Self) {
        self.clone()
    }
}

impl Inherit for CommandFromConfig {
    open spec fn combined(base: FromModel, child: FromModel) -> FromModel {
        merged_from(base, child)
    }

    fn inherit(&self, child: &Self) -> (r: Self) {
        self.merge_child(child)
    }
}

impl Inherit for CommandPolicyConfig {
    open spec fn combined(base: CommandModel, child: CommandModel) -> CommandModel {
        merged_command(base, child)
    }

    fn inherit(&self, child: &Self) -> (r: Self) {
        self.merge_child(child)
    }
}

/// Merges two maps name by name.
pub fn merge_names<A: Inherit>(base: &NameMap<A>, child: &NameMap<A>) -> (r: NameMap<A>)
    ensures
        r@ == inherited(base@, child@, |x: A::V, y: A::V| A::combined(x, y)),
{
    let mut out = base.replicate_all();
    let ghost keys = name_map::ordered_keys(child@);
    let n = child.len();
    for i in 0..n
        invariant
            n == keys.len(),
            keys == name_map::ordered_keys(child@),
            name_map::lists_keys(keys, child@),
            forall|k: Seq<char>| #[trigger]
                out@.dom().contains(k) <==> base@.dom().contains(k) || keys.take(i as int).contains(
                    k,
                ),
            forall|k: Seq<char>| #[trigger]
                out@.dom().contains(k) ==> out@[k] == (if keys.take(i as int).contains(k)
                    && base@.dom().contains(k) {
                    A::combined(base@[k], child@[k])
                } else if base@.dom().contains(k) {
                    base@[k]
                } else {
                    child@[k]
                }),
    {
        let name = child.name_at(i);
        let value = child.value_at(i);
        let merged = match base.get(name.as_str()) {
            Some(inherited) => inherited.inherit(value),
            None => value.replicate(),
        };
        out.insert(name.clone(), merged);
        proof {
            assert(keys.take(i + 1) =~= keys.take(i as int).push(keys[i as int]));
            assert forall|k: Seq<char>| #[trigger]
                keys.take(i + 1).contains(k) <==> (keys.take(i as int).contains(k) || k
                    == keys[i as int]) by {
                if keys.take(i as int).contains(k) {
                    let j = choose|j: int| 0 <= j < i && keys.take(i as int)[j] == k;
                    assert(keys.take(i + 1)[j] == k);
                }
                assert(keys.take(i + 1)[i as int] == keys[i as int]);
            }
        }
    }
    proof {
        assert(keys.take(n as int) =~= keys);
        assert(out@ =~= inherited(base@, child@, |x: A::V, y: A::V| A::combined(x, y)));
    }
    out
}

/// The network access of `base` extended by `child`; the child's proxy helper
/// takes the place of the base's.
pub open spec fn merged_network(base: NetworkModel, child: NetworkModel) -> NetworkModel {
    NetworkModel {
        allowed_hosts: deduped(base.allowed_hosts + child.allowed_hosts),
        tcp_connect_ports: deduped(base.tcp_connect_ports + child.tcp_connect_ports),
        tcp_bind_ports: deduped(base.tcp_bind_ports + child.tcp_bind_ports),
        proxy_helper: if child.proxy_helper is Some {
            child.proxy_helper
        } else {
            base.proxy_helper
        },
    }
}

/// The environment of `base` extended by `child`; a variable that the base
/// sets keeps the base's value.
pub open spec fn merged_environment(
    base: EnvironmentModel,
    child: EnvironmentModel,
) -> EnvironmentModel {
    EnvironmentModel {
        allow_vars: inherited_option(
            base.allow_vars,
            child.allow_vars,
            |x: Seq<Seq<char>>, y: Seq<Seq<char>>| deduped(x + y),
        ),
        set_vars: inherited(base.set_vars, child.set_vars, |x: Seq<char>, y: Seq<char>| x),
    }
}

/// The sandbox of `base` extended by `child`.
pub open spec fn merged_sandbox(base: SandboxModel, child: SandboxModel) -> SandboxModel {
    SandboxModel {
        fs_read: deduped(base.fs_read + child.fs_read),
        fs_read_file: deduped(base.fs_read_file + child.fs_read_file),
        fs_write: deduped(base.fs_write + child.fs_write),
        fs_write_file: deduped(base.fs_write_file + child.fs_write_file),
        use_credentials: deduped(base.use_credentials + child.use_credentials),
        argv_prepend: base.argv_prepend + child.argv_prepend,
        network: inherited_option(
            base.network,
            child.network,
            |x: NetworkModel, y: NetworkModel| merged_network(x, y),
        ),
        environment: inherited_option(
            base.environment,
            child.environment,
            |x: EnvironmentModel, y: EnvironmentModel| merged_environment(x, y),
        ),
        allow_raw_file_credentials_in_chained_policy:
            base.allow_raw_file_credentials_in_chained_policy
            || child.allow_raw_file_credentials_in_chained_policy,
    }
}

/// Two sandboxes combine; in every other case the base decision stands.
pub open spec fn merged_from(base: FromModel, child: FromModel) -> FromModel {
    match (base, child) {
        (FromModel::Policy(base), FromModel::Policy(child)) => FromModel::Policy(
            merged_sandbox(base, child),
        ),
        (base, _) => base,
    }
}

/// The command policy of `base` extended by `child`.
pub open spec fn merged_command(base: CommandModel, child: CommandModel) -> CommandModel {
    CommandModel {
        executable: if base.executable is Some {
            base.executable
        } else {
            child.executable
        },
        can_use: deduped(base.can_use + child.can_use),
        sandbox: inherited_option(
            base.sandbox,
            child.sandbox,
            |x: SandboxModel, y: SandboxModel| merged_sandbox(x, y),
        ),
        from: inherited(base.from, child.from, |x: FromModel, y: FromModel| merged_from(x, y)),
        allow_direct_exec_bypass: deduped(
            base.allow_direct_exec_bypass + child.allow_direct_exec_bypass,
        ),
        allow_direct_exec_bypass_with_credentials: base.allow_direct_exec_bypass_with_credentials
            || child.allow_direct_exec_bypass_with_credentials,
    }
}

/// The command policies of `base` extended by `child`; a credential of the
/// base keeps the base's definition.
pub open spec fn merged_policies(base: PoliciesModel, child: PoliciesModel) -> PoliciesModel {
    PoliciesModel {
        executable_dirs: deduped(base.executable_dirs + child.executable_dirs),
        session_can_use: deduped(base.session_can_use + child.session_can_use),
        credentials: inherited(
            base.credentials,
            child.credentials,
            |x: CredentialModel, y: CredentialModel| x,
        ),
        commands: inherited(
            base.commands,
            child.commands,
            |x: CommandModel, y: CommandModel| merged_command(x, y),
        ),
        deny_direct_exec_bypass: deduped(
            base.deny_direct_exec_bypass + child.deny_direct_exec_bypass,
        ),
    }
}

impl CommandNetworkConfig {
    /// Extends this network access by that of a child profile.
    pub fn merge_child(&self, child: &Self) -> (r: Self)
        ensures
            r@ == merged_network(self@, child@),
    {
        let r = CommandNetworkConfig {
            allowed_hosts: dedup_append(&self.allowed_hosts, &child.allowed_hosts),
            tcp_connect_ports: dedup_append(&self.tcp_connect_ports, &child.tcp_connect_ports),
            tcp_bind_ports: dedup_append(&self.tcp_bind_ports, &child.tcp_bind_ports),
            proxy_helper: match &child.proxy_helper {
                Some(helper) => Some(helper.clone()),
                None => text::copy_opt_text(&self.proxy_helper),
            },
        };
        proof {
            assert forall|v: Seq<u16>| #[trigger] text::views(v) == v by {
                assert(text::views(v) =~= v);
            }
        }
        r
    }
}

/// Two optional network settings as one.
pub fn merge_optional_network(
    base: &Option<CommandNetworkConfig>,
    child: &Option<CommandNetworkConfig>,
) -> (r: Option<CommandNetworkConfig>)
    ensures
        crate::command_policy::opt_view(r) == inherited_option(
            crate::command_policy::opt_view(*base),
            crate::command_policy::opt_view(*child),
            |x: NetworkModel, y: NetworkModel| merged_network(x, y),
        ),
{
    match (base, child) {
        (None, None) => None,
        (Some(base), None) => Some(base.clone()),
        (None, Some(child)) => Some(child.clone()),
        (Some(base), Some(child)) => Some(base.merge_child(child)),
    }
}

impl CommandEnvironmentConfig {
    /// Extends this environment by that of a child profile.
    pub fn merge_child(&self, child: &Self) -> (r: Self)
        ensures
            r@ == merged_environment(self@, child@),
    {
        let r = CommandEnvironmentConfig {
            allow_vars: match (&self.allow_vars, &child.allow_vars) {
                (None, None) => None,
                (Some(base), None) => Some(text::copy_texts(base)),
                (None, Some(child_vars)) => Some(text::copy_texts(child_vars)),
                (Some(base), Some(child_vars)) => Some(dedup_append(base, child_vars)),
            },
            set_vars: merge_names(&self.set_vars, &child.set_vars),
        };
        assert(r@ =~= merged_environment(self@, child@));
        r
    }
}

/// Two optional environments as one.
pub fn merge_optional_environment(
    base: &Option<CommandEnvironmentConfig>,
    child: &Option<CommandEnvironmentConfig>,
) -> (r: Option<CommandEnvironmentConfig>)
    ensures
        crate::command_policy::opt_view(r) == inherited_option(
            crate::command_policy::opt_view(*base),
            crate::command_policy::opt_view(*child),
            |x: EnvironmentModel, y: EnvironmentModel| merged_environment(x, y),
        ),
{
    match (base, child) {
        (None, None) => None,
        (Some(base), None) => Some(base.clone()),
        (None, Some(child)) => Some(child.clone()),
        (Some(base), Some(child)) => Some(base.merge_child(child)),
    }
}

impl CommandSandboxConfig {
    /// Extends this sandbox by that of a child profile.
    pub fn merge_child(&self, child: &Self) -> (r: Self)
        ensures
            r@ == merged_sandbox(self@, child@),
    {
        CommandSandboxConfig {
            fs_read: dedup_append(&self.fs_read, &child.fs_read),
            fs_read_file: dedup_append(&self.fs_read_file, &child.fs_read_file),
            fs_write: dedup_append(&self.fs_write, &child.fs_write),
            fs_write_file: dedup_append(&self.fs_write_file, &child.fs_write_file),
            use_credentials: dedup_append(&self.use_credentials, &child.use_credentials),
            argv_prepend: append_args(&self.argv_prepend, &child.argv_prepend),
            network: merge_optional_network(&self.network, &child.network),
            environment: merge_optional_environment(&self.environment, &child.environment),
            allow_raw_file_credentials_in_chained_policy: self.allow_raw_file_credentials_in_chained_policy
                || child.allow_raw_file_credentials_in_chained_policy,
        }
    }
}

/// Two optional sandboxes as one.
pub fn merge_optional_sandbox(
    base: &Option<CommandSandboxConfig>,
    child: &Option<CommandSandboxConfig>,
) -> (r: Option<CommandSandboxConfig>)
    ensures
        crate::command_policy::opt_view(r) == inherited_option(
            crate::command_policy::opt_view(*base),
            crate::command_policy::opt_view(*child),
            |x: SandboxModel, y: SandboxModel| merged_sandbox(x, y),
        ),
{
    match (base, child) {
        (None, None) => None,
        (Some(base), None) => Some(base.clone()),
        (None, Some(child)) => Some(child.clone()),
        (Some(base), Some(child)) => Some(base.merge_child(child)),
    }
}

impl CommandFromConfig {
    /// Extends this caller entry by that of a child profile. Entries are
    /// monotonic: a child cannot erase an inherited decision by changing its
    /// kind.
    pub fn merge_child(&self, child: &Self) -> (r: Self)
        ensures
            r@ == merged_from(self@, child@),
    {
        match (self, child) {
            (CommandFromConfig::Policy(base), CommandFromConfig::Policy(child_policy)) => {
                CommandFromConfig::Policy(Box::new((**base).merge_child(&**child_policy)))
            },
            (base, _) => base.clone(),
        }
    }
}

impl CommandPolicyConfig {
    /// Extends this command policy by that of a child profile.
    pub fn merge_child(&self, child: &Self) -> (r: Self)
        ensures
            r@ == merged_command(self@, child@),
    {
        let r = CommandPolicyConfig {
            executable: match &self.executable {
                Some(executable) => Some(executable.clone()),
                None => text::copy_opt_text(&child.executable),
            },
            can_use: dedup_append(&self.can_use, &child.can_use),
            sandbox: merge_optional_sandbox(&self.sandbox, &child.sandbox),
            from: merge_names(&self.from, &child.from),
            allow_direct_exec_bypass: dedup_append(
                &self.allow_direct_exec_bypass,
                &child.allow_direct_exec_bypass,
            ),
            allow_direct_exec_bypass_with_credentials: self.allow_direct_exec_bypass_with_credentials
                || child.allow_direct_exec_bypass_with_credentials,
        };
        assert(r@ =~= merged_command(self@, child@));
        r
    }
}

impl CommandPoliciesConfig {
    /// Extends these command policies by those of a child profile.
    pub fn merge_child(&self, child: &Self) -> (r: Self)
        ensures
            r@ == merged_policies(self@, child@),
    {
        let r = CommandPoliciesConfig {
            executable_dirs: dedup_append(&self.executable_dirs, &child.executable_dirs),
            session_can_use: dedup_append(&self.session_can_use, &child.session_can_use),
            credentials: merge_names(&self.credentials, &child.credentials),
            commands: merge_names(&self.commands, &child.commands),
            deny_direct_exec_bypass: dedup_append(
                &self.deny_direct_exec_bypass,
                &child.deny_direct_exec_bypass,
            ),
        };
        assert(r@ =~= merged_policies(self@, child@));
        r
    }
}

} // verus!
