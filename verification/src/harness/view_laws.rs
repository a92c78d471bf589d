//! What the values of this library stand for, field by field.
use vstd::prelude::*;

use crate::harness::collect::ScanOutput;
use crate::harness::ipc::{ShimRequest, ShimResponse, ShimStartMessage};
use crate::harness::measure::Measured;
use crate::harness::probe::ProbeSummary;
use crate::harness::process::{EnvVar, ScanFlags, TopologyAuth};
use crate::harness::roles::{AutoShim, HelperReport};
use crate::harness::rules::ExtraRule;
use crate::harness::scan::Exclusion;
use crate::harness::smoke::{Command, Facts};
use crate::harness::smoke::report::Exhibit;
use crate::harness::summary::{JsonExclusion, JsonSummary};
use crate::text_laws;

verus! {

/// A `ScanOutput` stands for its fields, each under its own name.
pub proof fn law_scan_output_view(value: ScanOutput)
    ensures
        text_laws::stand_for(value@.executable_files, value.executable_files@),
        text_laws::stand_for(value@.support_dirs, value.support_dirs@),
        text_laws::stand_for(value@.support_files, value.support_files@),
        text_laws::stand_for(value@.excluded, value.excluded@),
        value@.stats == value.stats,
{
}

/// A `ShimRequest` stands for its fields, each under its own name.
pub proof fn law_shim_request_view(value: ShimRequest)
    ensures
        value@.command == value.command@,
        text_laws::stands_for(value@.helper_role, value.helper_role),
{
}

/// A `ShimStartMessage` stands for its fields, each under its own name.
pub proof fn law_shim_start_message_view(value: ShimStartMessage)
    ensures
        value@.grandchild_pid == value.grandchild_pid,
        text_laws::stands_for(value@.spawn_error, value.spawn_error),
{
}

/// A `ShimResponse` stands for its fields, each under its own name.
pub proof fn law_shim_response_view(value: ShimResponse)
    ensures
        value@.exit_code == value.exit_code,
        value@.signal == value.signal,
        text_laws::stands_for(value@.spawn_error, value.spawn_error),
{
}

/// A `Measured` stands for its fields, each under its own name.
pub proof fn law_measured_view(value: Measured)
    ensures
        value@.abi == value.abi,
        value@.scan == value.scan@,
        value@.scan_ms == value.scan_ms,
        value@.build_ms == value.build_ms,
        value@.restrict_ms == value.restrict_ms,
        text_laws::stand_for(value@.probes, value.probes@),
{
}

/// A `ProbeSummary` stands for its fields, each under its own name.
pub proof fn law_probe_summary_view(value: ProbeSummary)
    ensures
        value@.path == value.path@,
        value@.expected == value.expected,
        value@.outcome == value.outcome@,
        value@.matched == value.matched,
{
}

/// A `ScanFlags` stands for its fields, each under its own name.
pub proof fn law_scan_flags_view(value: ScanFlags)
    ensures
        text_laws::stand_for(value@.exec_dirs, value.exec_dirs@),
        text_laws::stand_for(value@.support_dirs, value.support_dirs@),
        text_laws::stand_for(value@.support_files, value.support_files@),
{
}

/// A `EnvVar` stands for its fields, each under its own name.
pub proof fn law_env_var_view(value: EnvVar)
    ensures
        value@.name == value.name@,
        value@.value == value.value@,
{
}

/// A `TopologyAuth` stands for its fields, each under its own name.
pub proof fn law_topology_auth_view(value: TopologyAuth)
    ensures
        value@.peer_pid == value.peer_pid,
        value@.peer_uid == value.peer_uid,
        value@.peer_gid == value.peer_gid,
        value@.peer_exe == value.peer_exe@,
        value@.peer_id == value.peer_id,
{
}

/// A `AutoShim` stands for its fields, each under its own name.
pub proof fn law_auto_shim_view(value: AutoShim)
    ensures
        value@.command_name == value.command_name@,
        value@.policy_key == value.policy_key@,
        value@.helper_key == value.helper_key@,
{
}

/// A `HelperReport` stands for its fields, each under its own name.
pub proof fn law_helper_report_view(value: HelperReport)
    ensures
        text_laws::stand_for(value@.stdout, value.stdout@),
        text_laws::stand_for(value@.stderr, value.stderr@),
        value@.end == value.end@,
{
}

/// A `ExtraRule` stands for its fields, each under its own name.
pub proof fn law_extra_rule_view(value: ExtraRule)
    ensures
        value@.path == value.path@,
        value@.access == value.access,
{
}

/// A `Exclusion` stands for its fields, each under its own name.
pub proof fn law_exclusion_view(value: Exclusion)
    ensures
        value@.requested == value.requested@,
        value@.canonical == value.canonical@,
        value@.id == value.id,
{
}

/// A `Command` stands for its fields, each under its own name.
pub proof fn law_command_view(value: Command)
    ensures
        value@.auth == value.auth@,
        value@.request == value.request@,
        value@.pid == value.pid,
        value@.response == value.response@,
{
}

/// A `Facts` stands for its fields, each under its own name.
pub proof fn law_facts_view(value: Facts)
    ensures
        value@.smoke == value.smoke,
        value@.flags == value.flags@,
        value@.requested == value.requested@,
        text_laws::stands_for(value@.helper, value.helper),
        text_laws::stands_for(value@.payload, value.payload),
        value@.search_path == value.search_path@,
        value@.executable == value.executable@,
        value@.policy == value.policy@,
        value@.work_dir == value.work_dir@,
        value@.binary_dir == value.binary_dir@,
        value@.shim_dir == value.shim_dir@,
        value@.key_dir == value.key_dir@,
        value@.shim == value.shim@,
        value@.shim_id == value.shim_id,
        value@.first == value.first@,
        value@.chained == value.chained@,
        value@.related == value.related,
        text_laws::stands_for(value@.spawn_error, value.spawn_error),
        value@.transcript == value.transcript@,
        value@.session_success == value.session_success,
        value@.session_status == value.session_status@,
        value@.stdout == value.stdout@,
        value@.stderr == value.stderr@,
{
}

/// A `Exhibit` stands for its fields, each under its own name.
pub proof fn law_exhibit_view(value: Exhibit)
    ensures
        value@.name == value.name@,
        value@.content == value.content@,
{
}

/// A `JsonExclusion` stands for its fields, each under its own name.
pub proof fn law_json_exclusion_view(value: JsonExclusion)
    ensures
        value@.requested == value.requested@,
        value@.canonical == value.canonical@,
        value@.dev == value.dev,
        value@.ino == value.ino,
{
}

/// A `JsonSummary` stands for its fields, each under its own name.
pub proof fn law_json_summary_view(value: JsonSummary)
    ensures
        value@.landlock_abi == value.landlock_abi@,
        value@.scan == value.scan,
        value@.timings == value.timings,
        text_laws::stand_for(value@.excluded, value.excluded@),
        text_laws::stand_for(value@.probes, value.probes@),
{
}

} // verus!
