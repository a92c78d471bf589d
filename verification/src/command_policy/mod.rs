//! Ephemeral Tool Isolation profile model.
//!
//! A profile names the commands that are policy-controlled, the credentials
//! they may use and the sandbox each of them runs in. The configuration types
//! stand here; merging, validation and resolution build on them.
use vstd::prelude::*;

use crate::name_map::{NameMap, Replicate};
use crate::text;

pub mod executable;
pub mod fault_laws;
pub mod inheritance_laws;
pub mod inspect;
pub mod inspection_laws;
pub mod legacy;
pub mod merge;
pub mod merge_laws;
pub mod report;
pub mod resolution_laws;
pub mod resolve;
pub mod scope_laws;
pub mod validate;
pub mod validate_config;
pub mod validation_laws;
pub mod view_laws;

verus! {

/// What kind of credential a command is given.
#[derive(Debug, Clone, Copy, PartialEq, Eq, Hash, Structural)]
pub enum CommandCredentialType {
    SshAgent,
    RawFile,
}

/// A credential that a command policy can refer to by name.
#[derive(Debug, PartialEq, Eq)]
pub struct CommandCredentialConfig {
    pub credential_type: CommandCredentialType,
    pub socket: Option<String>,
    pub path: Option<String>,
    pub env_var: Option<String>,
}

/// What a credential configuration stands for.
#[verifier::ext_equal]
pub struct CredentialModel {
    pub credential_type: CommandCredentialType,
    pub socket: Option<Seq<char>>,
    pub path: Option<Seq<char>>,
    pub env_var: Option<Seq<char>>,
}

impl View for CommandCredentialConfig {
    type V = CredentialModel;

    open spec fn view(&self) -> CredentialModel {
        CredentialModel {
            credential_type: self.credential_type,
            socket: text::opt_text(self.socket),
            path: text::opt_text(self.path),
            env_var: text::opt_text(self.env_var),
        }
    }
}

impl Clone for CommandCredentialConfig {
    fn clone(&self) -> (r: Self)
        ensures
            r@ == self@,
    {
        CommandCredentialConfig {
            credential_type: self.credential_type,
            socket: text::copy_opt_text(&self.socket),
            path: text::copy_opt_text(&self.path),
            env_var: text::copy_opt_text(&self.env_var),
        }
    }
}

impl Replicate for CommandCredentialConfig {
    fn replicate(&self) -> (r: Self) {
        self.clone()
    }
}

/// Network access of a sandbox.
#[derive(Debug, PartialEq, Eq)]
pub struct CommandNetworkConfig {
    pub allowed_hosts: Vec<String>,
    pub tcp_connect_ports: Vec<u16>,
    pub tcp_bind_ports: Vec<u16>,
    pub proxy_helper: Option<String>,
}

/// What a network configuration stands for.
#[verifier::ext_equal]
pub struct NetworkModel {
    pub allowed_hosts: Seq<Seq<char>>,
    pub tcp_connect_ports: Seq<u16>,
    pub tcp_bind_ports: Seq<u16>,
    pub proxy_helper: Option<Seq<char>>,
}

impl View for CommandNetworkConfig {
    type V = NetworkModel;

    open spec fn view(&self) -> NetworkModel {
        NetworkModel {
            allowed_hosts: text::texts(self.allowed_hosts@),
            tcp_connect_ports: self.tcp_connect_ports@,
            tcp_bind_ports: self.tcp_bind_ports@,
            proxy_helper: text::opt_text(self.proxy_helper),
        }
    }
}

impl Clone for CommandNetworkConfig {
    fn clone(&self) -> (r: Self)
        ensures
            r@ == self@,
    {
        let r = CommandNetworkConfig {
            allowed_hosts: text::copy_texts(&self.allowed_hosts),
            tcp_connect_ports: self.tcp_connect_ports.clone(),
            tcp_bind_ports: self.tcp_bind_ports.clone(),
            proxy_helper: text::copy_opt_text(&self.proxy_helper),
        };
        assert(r.tcp_connect_ports@ =~= self.tcp_connect_ports@);
        assert(r.tcp_bind_ports@ =~= self.tcp_bind_ports@);
        r
    }
}

impl Default for CommandNetworkConfig {
    fn default() -> (r: Self)
        ensures
            r@ == no_network(),
    {
        let r = CommandNetworkConfig {
            allowed_hosts: Vec::new(),
            tcp_connect_ports: Vec::new(),
            tcp_bind_ports: Vec::new(),
            proxy_helper: None,
        };
        assert(r@ =~= no_network());
        r
    }
}

/// A network configuration that grants nothing.
pub open spec fn no_network() -> NetworkModel {
    NetworkModel {
        allowed_hosts: Seq::empty(),
        tcp_connect_ports: Seq::empty(),
        tcp_bind_ports: Seq::empty(),
        proxy_helper: None,
    }
}

/// Environment variables of a sandbox.
#[derive(Debug, PartialEq, Eq)]
pub struct CommandEnvironmentConfig {
    pub allow_vars: Option<Vec<String>>,
    pub set_vars: NameMap<String>,
}

/// What an environment configuration stands for.
#[verifier::ext_equal]
pub struct EnvironmentModel {
    pub allow_vars: Option<Seq<Seq<char>>>,
    pub set_vars: Map<Seq<char>, Seq<char>>,
}

/// The texts of an optional list of strings.
pub open spec fn opt_texts(list: Option<Vec<String>>) -> Option<Seq<Seq<char>>> {
    match list {
        Some(list) => Some(text::texts(list@)),
        None => None,
    }
}

impl View for CommandEnvironmentConfig {
    type V = EnvironmentModel;

    open spec fn view(&self) -> EnvironmentModel {
        EnvironmentModel { allow_vars: opt_texts(self.allow_vars), set_vars: self.set_vars@ }
    }
}

impl Clone for CommandEnvironmentConfig {
    fn clone(&self) -> (r: Self)
        ensures
            r@ == self@,
    {
        CommandEnvironmentConfig {
            allow_vars: match &self.allow_vars {
                Some(list) => Some(text::copy_texts(list)),
                None => None,
            },
            set_vars: self.set_vars.replicate_all(),
        }
    }
}

impl Default for CommandEnvironmentConfig {
    fn default() -> (r: Self)
        ensures
            r@ == no_environment(),
    {
        CommandEnvironmentConfig { allow_vars: None, set_vars: NameMap::new() }
    }
}

/// An environment configuration that says nothing.
pub open spec fn no_environment() -> EnvironmentModel {
    EnvironmentModel { allow_vars: None, set_vars: Map::empty() }
}

/// The sandbox that a policy-controlled command runs in.
#[derive(Debug, PartialEq, Eq)]
pub struct CommandSandboxConfig {
    pub fs_read: Vec<String>,
    pub fs_read_file: Vec<String>,
    pub fs_write: Vec<String>,
    pub fs_write_file: Vec<String>,
    pub use_credentials: Vec<String>,
    pub argv_prepend: Vec<String>,
    pub network: Option<CommandNetworkConfig>,
    pub environment: Option<CommandEnvironmentConfig>,
    pub allow_raw_file_credentials_in_chained_policy: bool,
}

/// What a sandbox configuration stands for.
#[verifier::ext_equal]
pub struct SandboxModel {
    pub fs_read: Seq<Seq<char>>,
    pub fs_read_file: Seq<Seq<char>>,
    pub fs_write: Seq<Seq<char>>,
    pub fs_write_file: Seq<Seq<char>>,
    pub use_credentials: Seq<Seq<char>>,
    pub argv_prepend: Seq<Seq<char>>,
    pub network: Option<NetworkModel>,
    pub environment: Option<EnvironmentModel>,
    pub allow_raw_file_credentials_in_chained_policy: bool,
}

/// What an optional value stands for.
pub open spec fn opt_view<A: View>(value: Option<A>) -> Option<A::V> {
    match value {
        Some(value) => Some(value@),
        None => None,
    }
}

impl View for CommandSandboxConfig {
    type V = SandboxModel;

    open spec fn view(&self) -> SandboxModel {
        SandboxModel {
            fs_read: text::texts(self.fs_read@),
            fs_read_file: text::texts(self.fs_read_file@),
            fs_write: text::texts(self.fs_write@),
            fs_write_file: text::texts(self.fs_write_file@),
            use_credentials: text::texts(self.use_credentials@),
            argv_prepend: text::texts(self.argv_prepend@),
            network: opt_view(self.network),
            environment: opt_view(self.environment),
            allow_raw_file_credentials_in_chained_policy:
                self.allow_raw_file_credentials_in_chained_policy,
        }
    }
}

impl Clone for CommandSandboxConfig {
    fn clone(&self) -> (r: Self)
        ensures
            r@ == self@,
    {
        CommandSandboxConfig {
            fs_read: text::copy_texts(&self.fs_read),
            fs_read_file: text::copy_texts(&self.fs_read_file),
            fs_write: text::copy_texts(&self.fs_write),
            fs_write_file: text::copy_texts(&self.fs_write_file),
            use_credentials: text::copy_texts(&self.use_credentials),
            argv_prepend: text::copy_texts(&self.argv_prepend),
            network: match &self.network {
                Some(network) => Some(network.clone()),
                None => None,
            },
            environment: match &self.environment {
                Some(environment) => Some(environment.clone()),
                None => None,
            },
            allow_raw_file_credentials_in_chained_policy: self.allow_raw_file_credentials_in_chained_policy,
        }
    }
}

impl Default for CommandSandboxConfig {
    fn default() -> (r: Self)
        ensures
            r@ == empty_sandbox(),
    {
        let r = CommandSandboxConfig {
            fs_read: Vec::new(),
            fs_read_file: Vec::new(),
            fs_write: Vec::new(),
            fs_write_file: Vec::new(),
            use_credentials: Vec::new(),
            argv_prepend: Vec::new(),
            network: None,
            environment: None,
            allow_raw_file_credentials_in_chained_policy: false,
        };
        assert(r@ =~= empty_sandbox());
        r
    }
}

/// A sandbox that grants nothing.
pub open spec fn empty_sandbox() -> SandboxModel {
    SandboxModel {
        fs_read: Seq::empty(),
        fs_read_file: Seq::empty(),
        fs_write: Seq::empty(),
        fs_write_file: Seq::empty(),
        use_credentials: Seq::empty(),
        argv_prepend: Seq::empty(),
        network: None,
        environment: None,
        allow_raw_file_credentials_in_chained_policy: false,
    }
}

/// How a command answers one caller: an explicit refusal, or a sandbox.
#[derive(Debug, PartialEq, Eq)]
pub enum CommandFromConfig {
    Deny(String),
    Policy(Box<CommandSandboxConfig>),
}

/// What a caller entry stands for.
#[verifier::ext_equal]
pub enum FromModel {
    Deny(Seq<char>),
    Policy(SandboxModel),
}

impl View for CommandFromConfig {
    type V = FromModel;

    open spec fn view(&self) -> FromModel {
        match self {
            CommandFromConfig::Deny(value) => FromModel::Deny(value@),
            CommandFromConfig::Policy(policy) => FromModel::Policy((**policy)@),
        }
    }
}

impl Clone for CommandFromConfig {
    fn clone(&self) -> (r: Self)
        ensures
            r@ == self@,
    {
        match self {
            CommandFromConfig::Deny(value) => CommandFromConfig::Deny(value.clone()),
            CommandFromConfig::Policy(policy) => CommandFromConfig::Policy(
                Box::new((**policy).clone()),
            ),
        }
    }
}

impl Replicate for CommandFromConfig {
    fn replicate(&self) -> (r: Self) {
        self.clone()
    }
}

/// A caller entry that refuses the caller.
pub open spec fn explicit_deny(from: FromModel) -> bool {
    from == FromModel::Deny("deny"@)
}

impl CommandFromConfig {
    /// Tells whether this entry refuses the caller.
    pub fn is_explicit_deny(&self) -> (r: bool)
        ensures
            r == explicit_deny(self@),
    {
        match self {
            CommandFromConfig::Deny(value) => text::text_eq(value.as_str(), "deny"),
            CommandFromConfig::Policy(_) => false,
        }
    }
}

/// The policy of one command.
#[derive(Debug, PartialEq, Eq)]
pub struct CommandPolicyConfig {
    pub executable: Option<String>,
    pub can_use: Vec<String>,
    pub sandbox: Option<CommandSandboxConfig>,
    pub from: NameMap<CommandFromConfig>,
    pub allow_direct_exec_bypass: Vec<String>,
    pub allow_direct_exec_bypass_with_credentials: bool,
}

/// What a command policy stands for.
#[verifier::ext_equal]
pub struct CommandModel {
    pub executable: Option<Seq<char>>,
    pub can_use: Seq<Seq<char>>,
    pub sandbox: Option<SandboxModel>,
    pub from: Map<Seq<char>, FromModel>,
    pub allow_direct_exec_bypass: Seq<Seq<char>>,
    pub allow_direct_exec_bypass_with_credentials: bool,
}

impl View for CommandPolicyConfig {
    type V = CommandModel;

    open spec fn view(&self) -> CommandModel {
        CommandModel {
            executable: text::opt_text(self.executable),
            can_use: text::texts(self.can_use@),
            sandbox: opt_view(self.sandbox),
            from: self.from@,
            allow_direct_exec_bypass: text::texts(self.allow_direct_exec_bypass@),
            allow_direct_exec_bypass_with_credentials:
                self.allow_direct_exec_bypass_with_credentials,
        }
    }
}

impl Clone for CommandPolicyConfig {
    fn clone(&self) -> (r: Self)
        ensures
            r@ == self@,
    {
        CommandPolicyConfig {
            executable: text::copy_opt_text(&self.executable),
            can_use: text::copy_texts(&self.can_use),
            sandbox: match &self.sandbox {
                Some(sandbox) => Some(sandbox.clone()),
                None => None,
            },
            from: self.from.replicate_all(),
            allow_direct_exec_bypass: text::copy_texts(&self.allow_direct_exec_bypass),
            allow_direct_exec_bypass_with_credentials: self.allow_direct_exec_bypass_with_credentials,
        }
    }
}

impl Replicate for CommandPolicyConfig {
    fn replicate(&self) -> (r: Self) {
        self.clone()
    }
}

impl Default for CommandPolicyConfig {
    fn default() -> (r: Self)
        ensures
            r@ == empty_command(),
    {
        let r = CommandPolicyConfig {
            executable: None,
            can_use: Vec::new(),
            sandbox: None,
            from: NameMap::new(),
            allow_direct_exec_bypass: Vec::new(),
            allow_direct_exec_bypass_with_credentials: false,
        };
        assert(r@ =~= empty_command());
        r
    }
}

/// A command policy that says nothing.
pub open spec fn empty_command() -> CommandModel {
    CommandModel {
        executable: None,
        can_use: Seq::empty(),
        sandbox: None,
        from: Map::empty(),
        allow_direct_exec_bypass: Seq::empty(),
        allow_direct_exec_bypass_with_credentials: false,
    }
}

/// The command policies of a profile.
#[derive(Debug, PartialEq, Eq)]
pub struct CommandPoliciesConfig {
    pub executable_dirs: Vec<String>,
    pub session_can_use: Vec<String>,
    pub credentials: NameMap<CommandCredentialConfig>,
    pub commands: NameMap<CommandPolicyConfig>,
    pub deny_direct_exec_bypass: Vec<String>,
}

/// What the command policies of a profile stand for.
#[verifier::ext_equal]
pub struct PoliciesModel {
    pub executable_dirs: Seq<Seq<char>>,
    pub session_can_use: Seq<Seq<char>>,
    pub credentials: Map<Seq<char>, CredentialModel>,
    pub commands: Map<Seq<char>, CommandModel>,
    pub deny_direct_exec_bypass: Seq<Seq<char>>,
}

impl View for CommandPoliciesConfig {
    type V = PoliciesModel;

    open spec fn view(&self) -> PoliciesModel {
        PoliciesModel {
            executable_dirs: text::texts(self.executable_dirs@),
            session_can_use: text::texts(self.session_can_use@),
            credentials: self.credentials@,
            commands: self.commands@,
            deny_direct_exec_bypass: text::texts(self.deny_direct_exec_bypass@),
        }
    }
}

impl Clone for CommandPoliciesConfig {
    fn clone(&self) -> (r: Self)
        ensures
            r@ == self@,
    {
        CommandPoliciesConfig {
            executable_dirs: text::copy_texts(&self.executable_dirs),
            session_can_use: text::copy_texts(&self.session_can_use),
            credentials: self.credentials.replicate_all(),
            commands: self.commands.replicate_all(),
            deny_direct_exec_bypass: text::copy_texts(&self.deny_direct_exec_bypass),
        }
    }
}

impl Default for CommandPoliciesConfig {
    fn default() -> (r: Self)
        ensures
            r@ == no_policies(),
    {
        let r = CommandPoliciesConfig {
            executable_dirs: Vec::new(),
            session_can_use: Vec::new(),
            credentials: NameMap::new(),
            commands: NameMap::new(),
            deny_direct_exec_bypass: Vec::new(),
        };
        assert(r@ =~= no_policies());
        r
    }
}

/// Command policies that say nothing.
pub open spec fn no_policies() -> PoliciesModel {
    PoliciesModel {
        executable_dirs: Seq::empty(),
        session_can_use: Seq::empty(),
        credentials: Map::empty(),
        commands: Map::empty(),
        deny_direct_exec_bypass: Seq::empty(),
    }
}

impl PoliciesModel {
    /// Isolation is active when at least one command is policy-controlled.
    pub open spec fn active(self) -> bool {
        self.commands != Map::<Seq<char>, CommandModel>::empty()
    }

    /// Something other than a command is configured.
    pub open spec fn has_other_fields(self) -> bool {
        ||| self.executable_dirs.len() > 0
        ||| self.session_can_use.len() > 0
        ||| self.credentials != Map::<Seq<char>, CredentialModel>::empty()
        ||| self.deny_direct_exec_bypass.len() > 0
    }
}

impl CommandPoliciesConfig {
    /// Tells whether at least one command is policy-controlled.
    pub fn is_active(&self) -> (r: bool)
        ensures
            r == self@.active(),
    {
        !self.commands.is_empty()
    }

    /// Tells whether anything other than a command is configured.
    pub fn has_non_command_fields(&self) -> (r: bool)
        ensures
            r == self@.has_other_fields(),
    {
        self.executable_dirs.len() > 0 || self.session_can_use.len() > 0
            || !self.credentials.is_empty() || self.deny_direct_exec_bypass.len() > 0
    }
}

} // verus!
