//! What the values of this library stand for, field by field.
use vstd::prelude::*;

use crate::command_policy::{
    CommandCredentialConfig, CommandEnvironmentConfig, CommandNetworkConfig, CommandPoliciesConfig,
    CommandPolicyConfig, CommandSandboxConfig,
};
use crate::command_policy::executable::ResolvedExecutableShape;
use crate::command_policy::inspect::CommandMatch;
use crate::command_policy::report::{CommandPolicyFinding, CommandPolicyValidationReport};
use crate::command_policy::resolve::{
    CommandSearchDir, ResolvedCommandBinaries, ResolvedCommandBinary,
};
use crate::text_laws;

verus! {

/// A `ResolvedExecutableShape` stands for its fields, each under its own name.
pub proof fn law_resolved_executable_shape_view(value: ResolvedExecutableShape)
    ensures
        value@.kind == value.kind,
        text_laws::stands_for(value@.interpreter, value.interpreter),
        text_laws::stand_for(value@.interpreter_args, value.interpreter_args@),
{
}

/// A `CommandMatch` stands for its fields, each under its own name.
pub proof fn law_command_match_view(value: CommandMatch)
    ensures
        value@.canonical_path == value.canonical_path@,
        value@.dev == value.dev,
        value@.ino == value.ino,
        value@.size == value.size,
        value@.mtime_nanos == value.mtime_nanos as int,
        value@.sha256 == value.sha256@,
        value@.shape == value.shape@,
{
}

/// A `CommandCredentialConfig` stands for its fields, each under its own name.
pub proof fn law_command_credential_config_view(value: CommandCredentialConfig)
    ensures
        value@.credential_type == value.credential_type,
        text_laws::stands_for(value@.socket, value.socket),
        text_laws::stands_for(value@.path, value.path),
        text_laws::stands_for(value@.env_var, value.env_var),
{
}

/// A `CommandNetworkConfig` stands for its fields, each under its own name.
pub proof fn law_command_network_config_view(value: CommandNetworkConfig)
    ensures
        text_laws::stand_for(value@.allowed_hosts, value.allowed_hosts@),
        value@.tcp_connect_ports == value.tcp_connect_ports@,
        value@.tcp_bind_ports == value.tcp_bind_ports@,
        text_laws::stands_for(value@.proxy_helper, value.proxy_helper),
{
}

/// A `CommandEnvironmentConfig` stands for its fields, each under its own name.
pub proof fn law_command_environment_config_view(value: CommandEnvironmentConfig)
    ensures
        value@.allow_vars is Some <==> value.allow_vars is Some,
        value.allow_vars is Some ==> text_laws::stand_for(
            value@.allow_vars->0,
            (value.allow_vars->0)@,
        ),
        value@.set_vars == value.set_vars@,
{
}

/// A `CommandSandboxConfig` stands for its fields, each under its own name.
pub proof fn law_command_sandbox_config_view(value: CommandSandboxConfig)
    ensures
        text_laws::stand_for(value@.fs_read, value.fs_read@),
        text_laws::stand_for(value@.fs_read_file, value.fs_read_file@),
        text_laws::stand_for(value@.fs_write, value.fs_write@),
        text_laws::stand_for(value@.fs_write_file, value.fs_write_file@),
        text_laws::stand_for(value@.use_credentials, value.use_credentials@),
        text_laws::stand_for(value@.argv_prepend, value.argv_prepend@),
        text_laws::stands_for(value@.network, value.network),
        text_laws::stands_for(value@.environment, value.environment),
        value@.allow_raw_file_credentials_in_chained_policy == value.allow_raw_file_credentials_in_chained_policy,
{
}

/// A `CommandPolicyConfig` stands for its fields, each under its own name.
pub proof fn law_command_policy_config_view(value: CommandPolicyConfig)
    ensures
        text_laws::stands_for(value@.executable, value.executable),
        text_laws::stand_for(value@.can_use, value.can_use@),
        text_laws::stands_for(value@.sandbox, value.sandbox),
        value@.from == value.from@,
        text_laws::stand_for(value@.allow_direct_exec_bypass, value.allow_direct_exec_bypass@),
        value@.allow_direct_exec_bypass_with_credentials == value.allow_direct_exec_bypass_with_credentials,
{
}

/// A `CommandPoliciesConfig` stands for its fields, each under its own name.
pub proof fn law_command_policies_config_view(value: CommandPoliciesConfig)
    ensures
        text_laws::stand_for(value@.executable_dirs, value.executable_dirs@),
        text_laws::stand_for(value@.session_can_use, value.session_can_use@),
        value@.credentials == value.credentials@,
        value@.commands == value.commands@,
        text_laws::stand_for(value@.deny_direct_exec_bypass, value.deny_direct_exec_bypass@),
{
}

/// A `CommandPolicyFinding` stands for its fields, each under its own name.
pub proof fn law_command_policy_finding_view(value: CommandPolicyFinding)
    ensures
        value@.code == value.code@,
        value@.message == value.message@,
{
}

/// A `CommandPolicyValidationReport` stands for its fields, each under its own name.
pub proof fn law_command_policy_validation_report_view(value: CommandPolicyValidationReport)
    ensures
        value@.activation == value.activation,
        text_laws::stand_for(value@.errors, value.errors@),
        text_laws::stand_for(value@.warnings, value.warnings@),
        text_laws::stand_for(value@.info, value.info@),
{
}

/// A `CommandSearchDir` stands for its fields, each under its own name.
pub proof fn law_command_search_dir_view(value: CommandSearchDir)
    ensures
        value@.path == value.path@,
        value@.explicit == value.explicit,
{
}

/// A `ResolvedCommandBinary` stands for its fields, each under its own name.
pub proof fn law_resolved_command_binary_view(value: ResolvedCommandBinary)
    ensures
        value@.name == value.name@,
        value@.canonical_path == value.canonical_path@,
        value@.dev == value.dev,
        value@.ino == value.ino,
        value@.size == value.size,
        value@.mtime_nanos == value.mtime_nanos as int,
        value@.sha256 == value.sha256@,
        text_laws::stand_for(value@.duplicate_paths, value.duplicate_paths@),
        value@.shape == value.shape@,
{
}

/// A `ResolvedCommandBinaries` stands for its fields, each under its own name.
pub proof fn law_resolved_command_binaries_view(value: ResolvedCommandBinaries)
    ensures
        value@.commands == value.commands@,
        text_laws::stand_for(value@.warnings, value.warnings@),
{
}

} // verus!
