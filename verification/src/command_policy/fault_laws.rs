//! What validation blames a configuration for.
//!
//! A fault is described here by what is wrong with the configuration; the laws
//! say that validation reports exactly the faults.
use vstd::prelude::*;

use crate::command_policy::legacy;
use crate::command_policy::report;
use crate::command_policy::report::{
    CommandPolicyValidationScope, FindingModel, ReportModel,
};
use crate::command_policy::validate;
use crate::command_policy::validate_config;
use crate::command_policy::{
    CommandCredentialType, CommandModel, CredentialModel, EnvironmentModel, FromModel,
    NetworkModel, PoliciesModel, SandboxModel,
};
use crate::error::ErrorModel;
use crate::name_map;
use crate::text;

verus! {

// ---------------------------------------------------------------------------
// Lists of findings
// ---------------------------------------------------------------------------

proof fn lemma_in_sum(a: Seq<FindingModel>, b: Seq<FindingModel>, f: FindingModel)
    ensures
        (a + b).contains(f) <==> a.contains(f) || b.contains(f),
{
    if a.contains(f) {
        assert((a + b)[a.index_of(f)] == f);
    }
    if b.contains(f) {
        assert((a + b)[a.len() + b.index_of(f)] == f);
    }
    if (a + b).contains(f) {
        let i = (a + b).index_of(f);
        if i < a.len() {
            assert(a[i] == f);
        } else {
            assert(b[i - a.len()] == f);
        }
    }
}

proof fn lemma_in_when(condition: bool, g: FindingModel, f: FindingModel)
    ensures
        validate::when(condition, g).contains(f) <==> condition && f == g,
{
    let list = validate::when(condition, g);
    if condition {
        assert(list[0] == g);
    }
}

proof fn lemma_in_one(g: FindingModel, f: FindingModel)
    ensures
        seq![g].contains(f) <==> f == g,
{
    assert(seq![g][0] == g);
}

proof fn lemma_in_flat_map<A>(
    list: Seq<A>,
    check: spec_fn(A) -> Seq<FindingModel>,
    f: FindingModel,
)
    ensures
        list.flat_map(check).contains(f) <==> exists|i: int|
            0 <= i < list.len() && check(#[trigger] list[i]).contains(f),
    decreases list.len(),
{
    if list.len() == 0 {
        assert(list.map_values(check) =~= Seq::empty());
        assert(list.flat_map(check) =~= Seq::empty());
    } else {
        let n = list.len() - 1;
        let front = list.take(n);
        lemma_in_flat_map(front, check, f);
        list.lemma_flat_map_take_append(check, n);
        assert(list.take(n + 1) =~= list);
        lemma_in_sum(front.flat_map(check), check(list[n]), f);
        if front.flat_map(check).contains(f) {
            let i = choose|i: int| 0 <= i < front.len() && check(#[trigger] front[i]).contains(f);
            assert(check(list[i]).contains(f));
        }
        if exists|i: int| 0 <= i < list.len() && check(#[trigger] list[i]).contains(f) {
            let i = choose|i: int| 0 <= i < list.len() && check(#[trigger] list[i]).contains(f);
            if i < n {
                assert(check(front[i]).contains(f));
            }
        }
    }
}

proof fn lemma_in_names<A>(
    map: Map<Seq<char>, A>,
    check: spec_fn(Seq<char>) -> Seq<FindingModel>,
    f: FindingModel,
)
    requires
        map.dom().finite(),
    ensures
        name_map::ordered_keys(map).flat_map(check).contains(f) <==> exists|k: Seq<char>| #[trigger]
            map.dom().contains(k) && check(k).contains(f),
{
    let names = name_map::ordered_keys(map);
    name_map::lemma_ordered_keys_of_finite(map);
    lemma_in_flat_map(names, check, f);
    if names.flat_map(check).contains(f) {
        let i = choose|i: int| 0 <= i < names.len() && check(#[trigger] names[i]).contains(f);
        assert(names.contains(names[i]));
        assert(map.dom().contains(names[i]));
    }
    if exists|k: Seq<char>| #[trigger] map.dom().contains(k) && check(k).contains(f) {
        let k = choose|k: Seq<char>| #[trigger] map.dom().contains(k) && check(k).contains(f);
        assert(names.contains(k));
        assert(check(names[names.index_of(k)]).contains(f));
    }
}

// ---------------------------------------------------------------------------
// Names and paths
// ---------------------------------------------------------------------------

/// A finding in so many words.
pub open spec fn blame(code: Seq<char>, message: Seq<char>) -> FindingModel {
    FindingModel { code, message }
}

/// The same character, or the same ASCII letter in another case.
pub open spec fn same_letter(a: char, b: char) -> bool {
    ||| a == b
    ||| 'A' <= a <= 'Z' && b as int == a as int + 32
    ||| 'A' <= b <= 'Z' && a as int == b as int + 32
}

/// The same name, but for the case of ASCII letters.
pub open spec fn names_clash(a: Seq<char>, b: Seq<char>) -> bool {
    a.len() == b.len() && forall|i: int| 0 <= i < a.len() ==> same_letter(#[trigger] a[i], b[i])
}

/// Letters and digits of ASCII, and four signs.
pub open spec fn name_char(c: char) -> bool {
    ||| 'a' <= c <= 'z'
    ||| 'A' <= c <= 'Z'
    ||| '0' <= c <= '9'
    ||| c == '.'
    ||| c == '_'
    ||| c == '+'
    ||| c == '-'
}

/// A name that a command or credential may have.
pub open spec fn usable_name(name: Seq<char>) -> bool {
    &&& name.len() > 0
    &&& forall|i: int| 0 <= i < name.len() ==> name_char(#[trigger] name[i])
    &&& name != "."@
    &&& name != ".."@
    &&& !names_clash(name, "session"@)
}

proof fn lemma_folded(a: Seq<char>, b: Seq<char>)
    ensures
        text::ascii_folded(a) == text::ascii_folded(b) <==> names_clash(a, b),
{
    let x = text::ascii_folded(a);
    let y = text::ascii_folded(b);
    if x == y {
        assert(a.len() == x.len() && b.len() == y.len());
        assert forall|i: int| 0 <= i < a.len() implies same_letter(#[trigger] a[i], b[i]) by {
            assert(x[i] == text::ascii_lower(a[i]));
            assert(y[i] == text::ascii_lower(b[i]));
        }
    }
    if names_clash(a, b) {
        assert forall|i: int| 0 <= i < a.len() implies x[i] == y[i] by {
            assert(same_letter(a[i], b[i]));
        }
        assert(x =~= y);
    }
}

proof fn lemma_usable(name: Seq<char>)
    ensures
        validate::valid_identifier(name) <==> usable_name(name),
{
    lemma_folded(name, "session"@);
    if validate::valid_identifier(name) {
        assert forall|i: int| 0 <= i < name.len() implies name_char(#[trigger] name[i]) by {
            assert(validate::identifier_char(name[i]));
        }
    }
    if usable_name(name) {
        assert forall|i: int| 0 <= i < name.len() implies #[trigger] validate::identifier_char(
            name[i],
        ) by {
            assert(name_char(name[i]));
        }
    }
}

/// The name is not usable, and the finding says so.
pub open spec fn name_fault(label: Seq<char>, name: Seq<char>, f: FindingModel) -> bool {
    !usable_name(name) && f == blame(
        "invalid_identifier"@,
        label + " name '"@ + name
            + "' must match [A-Za-z0-9._+-]+ and must not be '.', '..', 'session', contain '/', or contain NUL"@,
    )
}

/// A name of the list is not usable.
pub open spec fn name_list_fault(label: Seq<char>, names: Seq<Seq<char>>, f: FindingModel) -> bool {
    exists|i: int| 0 <= i < names.len() && name_fault(label, #[trigger] names[i], f)
}

/// The name is another spelling of an earlier one.
pub open spec fn clash_fault(
    label: Seq<char>,
    earlier: Seq<char>,
    name: Seq<char>,
    f: FindingModel,
) -> bool {
    &&& text::precedes(earlier, name)
    &&& names_clash(earlier, name)
    &&& f == blame(
        "case_fold_collision"@,
        label + " name '"@ + name + "' collides with another "@ + label + " name by case"@,
    )
}

/// A name of the set is not usable, or another spelling of an earlier one.
pub open spec fn name_set_fault(
    label: Seq<char>,
    names: Set<Seq<char>>,
    f: FindingModel,
) -> bool {
    ||| exists|name: Seq<char>| #[trigger] names.contains(name) && name_fault(label, name, f)
    ||| exists|a: Seq<char>, b: Seq<char>| #[trigger]
        names.contains(a) && #[trigger] names.contains(b) && clash_fault(label, a, b, f)
}

proof fn lemma_name(label: Seq<char>, name: Seq<char>, f: FindingModel)
    ensures
        validate::identifier_errors(label, name).contains(f) <==> name_fault(label, name, f),
{
    lemma_usable(name);
    lemma_in_when(
        !validate::valid_identifier(name),
        blame(
            "invalid_identifier"@,
            label + " name '"@ + name
                + "' must match [A-Za-z0-9._+-]+ and must not be '.', '..', 'session', contain '/', or contain NUL"@,
        ),
        f,
    );
}

proof fn lemma_name_list(label: Seq<char>, names: Seq<Seq<char>>, f: FindingModel)
    ensures
        validate::identifier_list_errors(label, names).contains(f) <==> name_list_fault(
            label,
            names,
            f,
        ),
{
    let check = validate::identifier_check(label);
    lemma_in_flat_map(names, check, f);
    assert forall|i: int| 0 <= i < names.len() implies check(#[trigger] names[i]).contains(f)
        == name_fault(label, names[i], f) by {
        lemma_name(label, names[i], f);
    }
}

/// Two places in a list with names that clash.
spec fn clash_at(label: Seq<char>, names: Seq<Seq<char>>, i: int, j: int, f: FindingModel) -> bool {
    &&& 0 <= i < j < names.len()
    &&& names_clash(names[i], names[j])
    &&& f == blame(
        "case_fold_collision"@,
        label + " name '"@ + names[j] + "' collides with another "@ + label + " name by case"@,
    )
}

proof fn lemma_name_seq(label: Seq<char>, names: Seq<Seq<char>>, f: FindingModel)
    ensures
        validate::identifier_set_errors(label, names).contains(f) <==> (name_list_fault(
            label,
            names,
            f,
        ) || exists|i: int, j: int| #[trigger] clash_at(label, names, i, j, f)),
    decreases names.len(),
{
    if names.len() > 0 {
        let n = names.len() - 1;
        let earlier = names.drop_last();
        let name = names.last();
        lemma_name_seq(label, earlier, f);
        lemma_name(label, name, f);
        let g = blame(
            "case_fold_collision"@,
            label + " name '"@ + name + "' collides with another "@ + label + " name by case"@,
        );
        let before = validate::identifier_set_errors(label, earlier);
        let own = validate::identifier_errors(label, name);
        let clash = validate::when(validate::folds_like_some(earlier, name), g);
        lemma_in_when(validate::folds_like_some(earlier, name), g, f);
        lemma_in_sum(before, own, f);
        lemma_in_sum(before + own, clash, f);
        assert(forall|i: int| 0 <= i < n ==> earlier[i] == names[i]);
        // forwards
        if name_list_fault(label, earlier, f) {
            let i = choose|i: int|
                0 <= i < earlier.len() && name_fault(label, #[trigger] earlier[i], f);
            assert(name_fault(label, names[i], f));
        }
        if exists|i: int, j: int| #[trigger] clash_at(label, earlier, i, j, f) {
            let (i, j) = choose|i: int, j: int| #[trigger] clash_at(label, earlier, i, j, f);
            assert(clash_at(label, names, i, j, f));
        }
        if own.contains(f) {
            assert(name_fault(label, names[n], f));
        }
        if clash.contains(f) {
            let i = choose|i: int|
                0 <= i < earlier.len() && #[trigger] text::ascii_folded(earlier[i])
                    == text::ascii_folded(name);
            lemma_folded(earlier[i], name);
            assert(clash_at(label, names, i, n, f));
        }
        // backwards
        if name_list_fault(label, names, f) {
            let i = choose|i: int|
                0 <= i < names.len() && name_fault(label, #[trigger] names[i], f);
            if i < n {
                assert(name_fault(label, earlier[i], f));
            }
        }
        if exists|i: int, j: int| #[trigger] clash_at(label, names, i, j, f) {
            let (i, j) = choose|i: int, j: int| #[trigger] clash_at(label, names, i, j, f);
            if j < n {
                assert(clash_at(label, earlier, i, j, f));
            } else {
                lemma_folded(earlier[i], name);
                assert(text::ascii_folded(earlier[i]) == text::ascii_folded(name));
            }
        }
    }
}

proof fn lemma_name_set<A>(label: Seq<char>, map: Map<Seq<char>, A>, f: FindingModel)
    requires
        map.dom().finite(),
    ensures
        validate::identifier_set_errors(label, name_map::ordered_keys(map)).contains(f)
            <==> name_set_fault(label, map.dom(), f),
{
    let names = name_map::ordered_keys(map);
    let set = map.dom();
    name_map::lemma_ordered_keys_of_finite(map);
    lemma_name_seq(label, names, f);
    if name_list_fault(label, names, f) {
        let i = choose|i: int| 0 <= i < names.len() && name_fault(label, #[trigger] names[i], f);
        assert(names.contains(names[i]));
        assert(set.contains(names[i]));
    }
    if exists|i: int, j: int| #[trigger] clash_at(label, names, i, j, f) {
        let (i, j) = choose|i: int, j: int| #[trigger] clash_at(label, names, i, j, f);
        assert(names.contains(names[i]) && names.contains(names[j]));
        assert(text::precedes(names[i], names[j]));
        assert(set.contains(names[i]) && set.contains(names[j]) && clash_fault(
            label,
            names[i],
            names[j],
            f,
        ));
    }
    if exists|name: Seq<char>| #[trigger] set.contains(name) && name_fault(label, name, f) {
        let name = choose|name: Seq<char>| #[trigger]
            set.contains(name) && name_fault(label, name, f);
        assert(names.contains(name));
        assert(name_fault(label, names[names.index_of(name)], f));
    }
    if exists|a: Seq<char>, b: Seq<char>| #[trigger]
        set.contains(a) && #[trigger] set.contains(b) && clash_fault(label, a, b, f) {
        let (a, b) = choose|a: Seq<char>, b: Seq<char>| #[trigger]
            set.contains(a) && #[trigger] set.contains(b) && clash_fault(label, a, b, f);
        assert(names.contains(a) && names.contains(b));
        let i = names.index_of(a);
        let j = names.index_of(b);
        if i >= j {
            if i > j {
                assert(text::precedes(names[j], names[i]));
                text::lemma_precedes_transitive(a, b, a);
            }
            text::lemma_precedes_irreflexive(a);
        }
        assert(clash_at(label, names, i, j, f));
    }
}

/// The path does not begin at the root, or holds a NUL.
pub open spec fn path_fault(label: Seq<char>, path: Seq<char>, f: FindingModel) -> bool {
    ||| (path.len() == 0 || path[0] != '/') && f == blame(
        "invalid_exec_bypass_path"@,
        label + " entry '"@ + path + "' must be an absolute file path"@,
    )
    ||| path.contains('\0') && f == blame(
        "invalid_exec_bypass_path"@,
        label + " entry contains NUL"@,
    )
}

/// A path of the list is at fault.
pub open spec fn path_list_fault(label: Seq<char>, paths: Seq<Seq<char>>, f: FindingModel) -> bool {
    exists|i: int| 0 <= i < paths.len() && path_fault(label, #[trigger] paths[i], f)
}

proof fn lemma_path(label: Seq<char>, path: Seq<char>, f: FindingModel)
    ensures
        validate::path_errors(label, path).contains(f) <==> path_fault(label, path, f),
{
    let g = blame(
        "invalid_exec_bypass_path"@,
        label + " entry '"@ + path + "' must be an absolute file path"@,
    );
    let h = blame("invalid_exec_bypass_path"@, label + " entry contains NUL"@);
    lemma_in_when(!validate::absolute_path(path), g, f);
    lemma_in_when(path.contains('\0'), h, f);
    lemma_in_sum(
        validate::when(!validate::absolute_path(path), g),
        validate::when(path.contains('\0'), h),
        f,
    );
}

proof fn lemma_path_list(label: Seq<char>, paths: Seq<Seq<char>>, f: FindingModel)
    ensures
        validate::path_list_errors(label, paths).contains(f) <==> path_list_fault(label, paths, f),
{
    let check = validate::path_check(label);
    lemma_in_flat_map(paths, check, f);
    assert forall|i: int| 0 <= i < paths.len() implies check(#[trigger] paths[i]).contains(f)
        == path_fault(label, paths[i], f) by {
        lemma_path(label, paths[i], f);
    }
}

// ---------------------------------------------------------------------------
// Credentials
// ---------------------------------------------------------------------------

/// A setting that is there and says something.
pub open spec fn given(field: Option<Seq<char>>) -> bool {
    field matches Some(value) && value.len() > 0
}

/// The definition lacks what its kind needs, or has what its kind has not.
pub open spec fn credential_fault(
    name: Seq<char>,
    credential: CredentialModel,
    f: FindingModel,
) -> bool {
    let agent = credential.credential_type == CommandCredentialType::SshAgent;
    let file = credential.credential_type == CommandCredentialType::RawFile;
    ||| agent && !given(credential.socket) && f == blame(
        "invalid_credential"@,
        "ssh-agent credential '"@ + name + "' must define socket"@,
    )
    ||| agent && (credential.path is Some || credential.env_var is Some) && f == blame(
        "invalid_credential"@,
        "ssh-agent credential '"@ + name + "' cannot define path or env_var"@,
    )
    ||| file && !given(credential.path) && f == blame(
        "invalid_credential"@,
        "raw-file credential '"@ + name + "' must define path"@,
    )
    ||| file && credential.socket is Some && f == blame(
        "invalid_credential"@,
        "raw-file credential '"@ + name + "' cannot define socket"@,
    )
}

proof fn lemma_credential(name: Seq<char>, credential: CredentialModel, f: FindingModel)
    ensures
        validate::credential_errors(name, credential).contains(f) <==> credential_fault(
            name,
            credential,
            f,
        ),
{
    let (c, g, d, h) = match credential.credential_type {
        CommandCredentialType::SshAgent => (
            validate::unset(credential.socket),
            blame(
                "invalid_credential"@,
                "ssh-agent credential '"@ + name + "' must define socket"@,
            ),
            credential.path is Some || credential.env_var is Some,
            blame(
                "invalid_credential"@,
                "ssh-agent credential '"@ + name + "' cannot define path or env_var"@,
            ),
        ),
        CommandCredentialType::RawFile => (
            validate::unset(credential.path),
            blame("invalid_credential"@, "raw-file credential '"@ + name + "' must define path"@),
            credential.socket is Some,
            blame(
                "invalid_credential"@,
                "raw-file credential '"@ + name + "' cannot define socket"@,
            ),
        ),
    };
    lemma_in_when(c, g, f);
    lemma_in_when(d, h, f);
    lemma_in_sum(validate::when(c, g), validate::when(d, h), f);
}

// ---------------------------------------------------------------------------
// Sandboxes
// ---------------------------------------------------------------------------

/// Whom a finding on a sandbox concerns.
pub open spec fn subject(command: Seq<char>, caller: Seq<char>) -> Seq<char> {
    "command '"@ + command + "' from."@ + caller
}

/// An asterisk stands before the last place.
pub open spec fn early_asterisk(pattern: Seq<char>) -> bool {
    exists|i: int| 0 <= i && i + 1 < pattern.len() && #[trigger] pattern[i] == '*'
}

/// The pattern is empty or has more than one asterisk.
pub open spec fn pattern_fault(
    command: Seq<char>,
    caller: Seq<char>,
    pattern: Seq<char>,
    f: FindingModel,
) -> bool {
    ||| pattern.len() == 0 && f == blame(
        "invalid_environment_pattern"@,
        subject(command, caller) + " has empty allow_vars pattern"@,
    )
    ||| (exists|i: int, j: int|
        0 <= i < j < pattern.len() && #[trigger] pattern[i] == '*' && #[trigger] pattern[j]
            == '*') && f == blame(
        "invalid_environment_pattern"@,
        subject(command, caller) + " allow_vars pattern '"@ + pattern
            + "' contains multiple wildcards"@,
    )
}

/// The first pattern with an asterisk before its last place.
pub open spec fn early_asterisk_fault(
    command: Seq<char>,
    caller: Seq<char>,
    patterns: Seq<Seq<char>>,
    f: FindingModel,
) -> bool {
    exists|i: int|
        0 <= i < patterns.len() && early_asterisk(#[trigger] patterns[i]) && (forall|j: int|
            0 <= j < i ==> !early_asterisk(#[trigger] patterns[j])) && f == blame(
            "invalid_environment_pattern"@,
            subject(command, caller) + ": "@ + ("invalid environment variable pattern '"@
                + patterns[i] + "': '*' is only allowed at the end"@),
        )
}

/// A variable that no policy may set.
pub open spec fn unsettable(name: Seq<char>) -> bool {
    ||| name.len() == 0
    ||| name == "PATH"@
    ||| name.len() >= 5 && name.take(5) == "NONO_"@
    ||| name.contains('*')
    ||| name.contains('=')
    ||| name.contains('\0')
}

/// The environment lets through or sets what it may not.
pub open spec fn environment_fault(
    command: Seq<char>,
    caller: Seq<char>,
    environment: EnvironmentModel,
    f: FindingModel,
) -> bool {
    ||| environment.allow_vars matches Some(patterns) && exists|i: int|
        0 <= i < patterns.len() && pattern_fault(command, caller, #[trigger] patterns[i], f)
    ||| environment.allow_vars matches Some(patterns) && early_asterisk_fault(
        command,
        caller,
        patterns,
        f,
    )
    ||| exists|name: Seq<char>| #[trigger]
        environment.set_vars.dom().contains(name) && unsettable(name) && f == blame(
            "invalid_environment_set_var"@,
            subject(command, caller) + " has invalid set_vars name '"@ + name + "'"@,
        )
    ||| exists|name: Seq<char>| #[trigger]
        environment.set_vars.dom().contains(name) && environment.set_vars[name].contains('\0')
            && f == blame(
            "invalid_environment_set_var"@,
            subject(command, caller) + " set_vars value for '"@ + name + "' contains NUL"@,
        )
}

/// Hosts are restricted, and nothing is there to enforce it.
pub open spec fn network_fault(
    command: Seq<char>,
    caller: Seq<char>,
    network: NetworkModel,
    f: FindingModel,
) -> bool {
    network.allowed_hosts.len() > 0 && !given(network.proxy_helper) && f == blame(
        "unenforceable_allowed_hosts"@,
        subject(command, caller) + " uses allowed_hosts without proxy_helper"@,
    )
}

/// A credential that the sandbox uses is not defined; or a raw file is given to a
/// chained caller without an opt-in.
pub open spec fn credential_use_fault(
    command: Seq<char>,
    caller: Seq<char>,
    sandbox: SandboxModel,
    credentials: Map<Seq<char>, CredentialModel>,
    name: Seq<char>,
    f: FindingModel,
) -> bool {
    ||| !credentials.dom().contains(name) && f == blame(
        "unknown_credential"@,
        subject(command, caller) + " references unknown credential '"@ + name + "'"@,
    )
    ||| credentials.dom().contains(name) && credentials[name].credential_type
        == CommandCredentialType::RawFile && caller != "session"@
        && !sandbox.allow_raw_file_credentials_in_chained_policy && f == blame(
        "raw_file_credential_in_chained_policy"@,
        subject(command, caller) + " references raw-file credential '"@ + name
            + "' without allow_raw_file_credentials_in_chained_policy"@,
    )
}

/// What is wrong with a sandbox.
pub open spec fn sandbox_fault(
    command: Seq<char>,
    caller: Seq<char>,
    sandbox: SandboxModel,
    config: PoliciesModel,
    resolved: bool,
    f: FindingModel,
) -> bool {
    ||| name_list_fault(
        "commands."@ + command + ".from."@ + caller + ".use_credentials"@,
        sandbox.use_credentials,
        f,
    )
    ||| sandbox.environment matches Some(environment) && environment_fault(
        command,
        caller,
        environment,
        f,
    )
    ||| (exists|i: int|
        0 <= i < sandbox.argv_prepend.len() && (#[trigger] sandbox.argv_prepend[i]).contains('\0'))
        && f == blame(
        "invalid_argv_prepend"@,
        subject(command, caller) + " argv_prepend contains NUL"@,
    )
    ||| sandbox.network matches Some(network) && network_fault(command, caller, network, f)
    ||| resolved && exists|i: int|
        0 <= i < sandbox.use_credentials.len() && credential_use_fault(
            command,
            caller,
            sandbox,
            config.credentials,
            #[trigger] sandbox.use_credentials[i],
            f,
        )
}

proof fn lemma_pattern(
    command: Seq<char>,
    caller: Seq<char>,
    pattern: Seq<char>,
    f: FindingModel,
)
    ensures
        validate::pattern_errors(command, caller, pattern).contains(f) <==> pattern_fault(
            command,
            caller,
            pattern,
            f,
        ),
{
    let g = blame(
        "invalid_environment_pattern"@,
        subject(command, caller) + " has empty allow_vars pattern"@,
    );
    let h = blame(
        "invalid_environment_pattern"@,
        subject(command, caller) + " allow_vars pattern '"@ + pattern
            + "' contains multiple wildcards"@,
    );
    lemma_in_when(pattern.len() == 0, g, f);
    lemma_in_when(text::repeats(pattern, '*'), h, f);
    lemma_in_sum(
        validate::when(pattern.len() == 0, g),
        validate::when(text::repeats(pattern, '*'), h),
        f,
    );
}

/// The first pattern with an early asterisk decides what is said.
proof fn lemma_allow_vars(patterns: Seq<Seq<char>>)
    ensures
        match validate::allow_vars_error(patterns) {
            Some(reason) => exists|i: int|
                0 <= i < patterns.len() && early_asterisk(#[trigger] patterns[i]) && (forall|j: int|
                    0 <= j < i ==> !early_asterisk(#[trigger] patterns[j])) && reason
                    == "invalid environment variable pattern '"@ + patterns[i]
                    + "': '*' is only allowed at the end"@,
            None => forall|i: int| 0 <= i < patterns.len() ==> !early_asterisk(#[trigger] patterns[i]),
        },
    decreases patterns.len(),
{
    if patterns.len() > 0 {
        let rest = patterns.drop_first();
        lemma_allow_vars(rest);
        let first = patterns[0];
        if early_asterisk(first) {
            let i = choose|i: int| 0 <= i && i + 1 < first.len() && #[trigger] first[i] == '*';
            assert(first[i] == '*');
        } else {
            assert(!validate::misplaced_wildcard(first)) by {
                if validate::misplaced_wildcard(first) {
                    let i = choose|i: int| 0 <= i < first.len() - 1 && #[trigger] first[i] == '*';
                    assert(first[i] == '*');
                }
            }
            if validate::allow_vars_error(rest) is Some {
                let reason = validate::allow_vars_error(rest)->0;
                let i = choose|i: int|
                    0 <= i < rest.len() && early_asterisk(#[trigger] rest[i]) && (forall|j: int|
                        0 <= j < i ==> !early_asterisk(#[trigger] rest[j])) && reason
                        == "invalid environment variable pattern '"@ + rest[i]
                        + "': '*' is only allowed at the end"@;
                assert(patterns[i + 1] == rest[i]);
                assert forall|j: int| 0 <= j < i + 1 implies !early_asterisk(
                    #[trigger] patterns[j],
                ) by {
                    if j > 0 {
                        assert(patterns[j] == rest[j - 1]);
                    }
                }
            } else {
                assert forall|i: int| 0 <= i < patterns.len() implies !early_asterisk(
                    #[trigger] patterns[i],
                ) by {
                    if i > 0 {
                        assert(patterns[i] == rest[i - 1]);
                    }
                }
            }
        }
    }
}

proof fn lemma_rejection(
    command: Seq<char>,
    caller: Seq<char>,
    patterns: Seq<Seq<char>>,
    f: FindingModel,
)
    ensures
        validate::rejection_errors(
            command,
            caller,
            validate::allow_vars_error(patterns),
        ).contains(f) <==> early_asterisk_fault(command, caller, patterns, f),
{
    lemma_allow_vars(patterns);
    if let Some(reason) = validate::allow_vars_error(patterns) {
        let i = choose|i: int|
            0 <= i < patterns.len() && early_asterisk(#[trigger] patterns[i]) && (forall|j: int|
                0 <= j < i ==> !early_asterisk(#[trigger] patterns[j])) && reason
                == "invalid environment variable pattern '"@ + patterns[i]
                + "': '*' is only allowed at the end"@;
        lemma_in_one(
            blame("invalid_environment_pattern"@, subject(command, caller) + ": "@ + reason),
            f,
        );
        if early_asterisk_fault(command, caller, patterns, f) {
            let k = choose|k: int|
                0 <= k < patterns.len() && early_asterisk(#[trigger] patterns[k]) && (forall|j: int|
                    0 <= j < k ==> !early_asterisk(#[trigger] patterns[j])) && f == blame(
                    "invalid_environment_pattern"@,
                    subject(command, caller) + ": "@ + ("invalid environment variable pattern '"@
                        + patterns[k] + "': '*' is only allowed at the end"@),
                );
            assert(k == i) by {
                if k < i {
                    assert(early_asterisk(patterns[k]));
                }
                if i < k {
                    assert(early_asterisk(patterns[i]));
                }
            }
        }
    }
}

proof fn lemma_settable(name: Seq<char>)
    ensures
        validate::settable_var(name) <==> !unsettable(name),
{
    reveal_strlit("NONO_");
    if name.len() >= 5 {
        assert(name.take(5) =~= name.subrange(0, 5));
    }
}

proof fn lemma_environment(
    command: Seq<char>,
    caller: Seq<char>,
    environment: EnvironmentModel,
    f: FindingModel,
)
    requires
        environment.set_vars.dom().finite(),
    ensures
        validate::environment_errors(
            command,
            caller,
            environment,
            match environment.allow_vars {
                Some(patterns) => validate::allow_vars_error(patterns),
                None => None,
            },
        ).contains(f) <==> environment_fault(command, caller, environment, f),
{
    let vars = environment.set_vars;
    let names = name_map::ordered_keys(vars);
    let naming = validate::set_name_check(command, caller);
    let setting = validate::set_value_check(command, caller, vars);
    let start = match environment.allow_vars {
        Some(patterns) => patterns.flat_map(validate::pattern_check(command, caller))
            + validate::rejection_errors(command, caller, validate::allow_vars_error(patterns)),
        None => Seq::empty(),
    };
    if let Some(patterns) = environment.allow_vars {
        let check = validate::pattern_check(command, caller);
        lemma_in_flat_map(patterns, check, f);
        assert forall|i: int| 0 <= i < patterns.len() implies check(#[trigger] patterns[i]).contains(
            f,
        ) == pattern_fault(command, caller, patterns[i], f) by {
            lemma_pattern(command, caller, patterns[i], f);
        }
        lemma_rejection(command, caller, patterns, f);
        lemma_in_sum(
            patterns.flat_map(check),
            validate::rejection_errors(command, caller, validate::allow_vars_error(patterns)),
            f,
        );
    }
    lemma_in_names(vars, naming, f);
    lemma_in_names(vars, setting, f);
    assert forall|name: Seq<char>| #[trigger] vars.dom().contains(name) implies naming(
        name,
    ).contains(f) == (unsettable(name) && f == blame(
        "invalid_environment_set_var"@,
        subject(command, caller) + " has invalid set_vars name '"@ + name + "'"@,
    )) by {
        lemma_settable(name);
        lemma_in_when(
            !validate::settable_var(name),
            blame(
                "invalid_environment_set_var"@,
                subject(command, caller) + " has invalid set_vars name '"@ + name + "'"@,
            ),
            f,
        );
    }
    assert forall|name: Seq<char>| #[trigger] vars.dom().contains(name) implies setting(
        name,
    ).contains(f) == (vars[name].contains('\0') && f == blame(
        "invalid_environment_set_var"@,
        subject(command, caller) + " set_vars value for '"@ + name + "' contains NUL"@,
    )) by {
        lemma_in_when(
            vars[name].contains('\0'),
            blame(
                "invalid_environment_set_var"@,
                subject(command, caller) + " set_vars value for '"@ + name + "' contains NUL"@,
            ),
            f,
        );
    }
    lemma_in_sum(start, names.flat_map(naming), f);
    lemma_in_sum(start + names.flat_map(naming), names.flat_map(setting), f);
}

/// The maps of a sandbox are finite.
pub open spec fn finite_sandbox(sandbox: SandboxModel) -> bool {
    sandbox.environment matches Some(environment) ==> environment.set_vars.dom().finite()
}

/// The scope in which validation runs.
pub open spec fn scope_of(resolved: bool) -> CommandPolicyValidationScope {
    if resolved {
        CommandPolicyValidationScope::Resolved
    } else {
        CommandPolicyValidationScope::Syntax
    }
}

proof fn lemma_argv(command: Seq<char>, caller: Seq<char>, argv: Seq<Seq<char>>, f: FindingModel)
    ensures
        argv.flat_map(validate::argv_check(command, caller)).contains(f) <==> (exists|i: int|
            0 <= i < argv.len() && (#[trigger] argv[i]).contains('\0')) && f == blame(
            "invalid_argv_prepend"@,
            subject(command, caller) + " argv_prepend contains NUL"@,
        ),
{
    let check = validate::argv_check(command, caller);
    let g = blame(
        "invalid_argv_prepend"@,
        subject(command, caller) + " argv_prepend contains NUL"@,
    );
    lemma_in_flat_map(argv, check, f);
    assert forall|i: int| 0 <= i < argv.len() implies check(#[trigger] argv[i]).contains(f) == (
    argv[i].contains('\0') && f == g) by {
        lemma_in_when(argv[i].contains('\0'), g, f);
    }
}

proof fn lemma_credential_use(
    command: Seq<char>,
    caller: Seq<char>,
    sandbox: SandboxModel,
    credentials: Map<Seq<char>, CredentialModel>,
    f: FindingModel,
)
    ensures
        sandbox.use_credentials.flat_map(
            validate::credential_use_check(command, caller, sandbox, credentials),
        ).contains(f) <==> exists|i: int|
            0 <= i < sandbox.use_credentials.len() && credential_use_fault(
                command,
                caller,
                sandbox,
                credentials,
                #[trigger] sandbox.use_credentials[i],
                f,
            ),
{
    let check = validate::credential_use_check(command, caller, sandbox, credentials);
    let list = sandbox.use_credentials;
    lemma_in_flat_map(list, check, f);
    assert forall|i: int| 0 <= i < list.len() implies check(#[trigger] list[i]).contains(f)
        == credential_use_fault(command, caller, sandbox, credentials, list[i], f) by {
        let name = list[i];
        let g = blame(
            "unknown_credential"@,
            subject(command, caller) + " references unknown credential '"@ + name + "'"@,
        );
        let h = blame(
            "raw_file_credential_in_chained_policy"@,
            subject(command, caller) + " references raw-file credential '"@ + name
                + "' without allow_raw_file_credentials_in_chained_policy"@,
        );
        lemma_in_one(g, f);
        lemma_in_when(
            caller != "session"@ && credentials[name].credential_type
                == CommandCredentialType::RawFile
                && !sandbox.allow_raw_file_credentials_in_chained_policy,
            h,
            f,
        );
    }
}

proof fn lemma_sandbox(
    command: Seq<char>,
    caller: Seq<char>,
    sandbox: SandboxModel,
    config: PoliciesModel,
    resolved: bool,
    f: FindingModel,
)
    requires
        finite_sandbox(sandbox),
    ensures
        validate::sandbox_errors(command, caller, sandbox, config, scope_of(resolved)).contains(f)
            <==> sandbox_fault(command, caller, sandbox, config, resolved, f),
{
    let label = "commands."@ + command + ".from."@ + caller + ".use_credentials"@;
    let a = validate::identifier_list_errors(label, sandbox.use_credentials);
    let b = match sandbox.environment {
        Some(environment) => validate::environment_errors(
            command,
            caller,
            environment,
            match environment.allow_vars {
                Some(patterns) => validate::allow_vars_error(patterns),
                None => None,
            },
        ),
        None => Seq::empty(),
    };
    let c = sandbox.argv_prepend.flat_map(validate::argv_check(command, caller));
    let d = match sandbox.network {
        Some(network) => validate::network_errors(command, caller, network),
        None => Seq::empty(),
    };
    let e = if resolved {
        sandbox.use_credentials.flat_map(
            validate::credential_use_check(command, caller, sandbox, config.credentials),
        )
    } else {
        Seq::empty()
    };
    lemma_name_list(label, sandbox.use_credentials, f);
    if let Some(environment) = sandbox.environment {
        lemma_environment(command, caller, environment, f);
    }
    lemma_argv(command, caller, sandbox.argv_prepend, f);
    if let Some(network) = sandbox.network {
        lemma_in_when(
            network.allowed_hosts.len() > 0 && validate::unset(network.proxy_helper),
            blame(
                "unenforceable_allowed_hosts"@,
                subject(command, caller) + " uses allowed_hosts without proxy_helper"@,
            ),
            f,
        );
    }
    lemma_credential_use(command, caller, sandbox, config.credentials, f);
    lemma_in_sum(a, b, f);
    lemma_in_sum(a + b, c, f);
    lemma_in_sum(a + b + c, d, f);
    lemma_in_sum(a + b + c + d, e, f);
}

// ---------------------------------------------------------------------------
// Commands
// ---------------------------------------------------------------------------

/// The command is given a credential, for the session or for some caller.
pub open spec fn is_given_credentials(command: CommandModel) -> bool {
    ||| command.sandbox is Some && command.sandbox->0.use_credentials.len() > 0
    ||| exists|caller: Seq<char>| #[trigger]
        command.from.dom().contains(caller) && command.from[caller] is Policy
            && command.from[caller]->Policy_0.use_credentials.len() > 0
}

/// What is wrong with what a command answers one caller.
pub open spec fn caller_fault(
    name: Seq<char>,
    caller: Seq<char>,
    from: FromModel,
    config: PoliciesModel,
    resolved: bool,
    f: FindingModel,
) -> bool {
    ||| caller == "user"@ && f == blame(
        "reserved_caller"@,
        "command '"@ + name + "' uses from.user; use from.session"@,
    )
    ||| caller != "user"@ && caller != "session"@ && name_fault(
        "commands."@ + name + ".from"@,
        caller,
        f,
    )
    ||| from is Deny && from->Deny_0 != "deny"@ && f == blame(
        "invalid_explicit_deny"@,
        "command '"@ + name + "' from."@ + caller + " string value must be \"deny\""@,
    )
    ||| from is Policy && sandbox_fault(name, caller, from->Policy_0, config, resolved, f)
}

/// What is wrong with a command policy.
pub open spec fn command_fault(
    name: Seq<char>,
    command: CommandModel,
    config: PoliciesModel,
    resolved: bool,
    f: FindingModel,
) -> bool {
    ||| name_list_fault("commands."@ + name + ".can_use"@, command.can_use, f)
    ||| command.executable is Some && path_fault(
        "commands."@ + name + ".executable"@,
        command.executable->0,
        f,
    )
    ||| command.sandbox is Some && command.from.dom().contains("session"@) && f == blame(
        "ambiguous_session_policy"@,
        "command '"@ + name + "' defines both top-level sandbox and from.session"@,
    )
    ||| command.sandbox is Some && command.from.dom().contains("session"@)
        && command.from["session"@] == FromModel::Deny("deny"@) && f == blame(
        "conflicting_session_deny"@,
        "command '"@ + name + "' defines sandbox and from.session = \"deny\""@,
    )
    ||| path_list_fault(
        "commands."@ + name + ".allow_direct_exec_bypass"@,
        command.allow_direct_exec_bypass,
        f,
    )
    ||| command.allow_direct_exec_bypass.len() > 0 && is_given_credentials(command)
        && !command.allow_direct_exec_bypass_with_credentials && f == blame(
        "credential_bypass_requires_opt_in"@,
        "command '"@ + name
            + "' uses credentials and allow_direct_exec_bypass without allow_direct_exec_bypass_with_credentials"@,
    )
    ||| command.sandbox is Some && sandbox_fault(
        name,
        "session"@,
        command.sandbox->0,
        config,
        resolved,
        f,
    )
    ||| exists|caller: Seq<char>| #[trigger]
        command.from.dom().contains(caller) && caller_fault(
            name,
            caller,
            command.from[caller],
            config,
            resolved,
            f,
        )
}

/// The maps of a command policy are finite.
pub open spec fn finite_command(command: CommandModel) -> bool {
    &&& command.from.dom().finite()
    &&& command.sandbox matches Some(sandbox) ==> finite_sandbox(sandbox)
    &&& forall|caller: Seq<char>| #[trigger]
        command.from.dom().contains(caller) && command.from[caller] is Policy ==> finite_sandbox(
            command.from[caller]->Policy_0,
        )
}

proof fn lemma_caller(
    name: Seq<char>,
    caller: Seq<char>,
    from: FromModel,
    config: PoliciesModel,
    resolved: bool,
    f: FindingModel,
)
    requires
        from is Policy ==> finite_sandbox(from->Policy_0),
    ensures
        validate_config::caller_errors(name, caller, from, config, scope_of(resolved)).contains(f)
            <==> caller_fault(name, caller, from, config, resolved, f),
{
    let scope = scope_of(resolved);
    let own = validate_config::caller_name_errors(name, caller);
    lemma_in_one(
        blame(
            "reserved_caller"@,
            "command '"@ + name + "' uses from.user; use from.session"@,
        ),
        f,
    );
    lemma_name("commands."@ + name + ".from"@, caller, f);
    match from {
        FromModel::Deny(value) => {
            let g = blame(
                "invalid_explicit_deny"@,
                "command '"@ + name + "' from."@ + caller + " string value must be \"deny\""@,
            );
            lemma_in_when(value != "deny"@, g, f);
            lemma_in_sum(own, validate::when(value != "deny"@, g), f);
        },
        FromModel::Policy(policy) => {
            lemma_sandbox(name, caller, policy, config, resolved, f);
            lemma_in_sum(
                own,
                validate::sandbox_errors(name, caller, policy, config, scope),
                f,
            );
        },
    }
}

proof fn lemma_given_credentials(command: CommandModel)
    ensures
        validate_config::has_credentials(command) <==> is_given_credentials(command),
{
    if validate_config::has_credentials(command) && !(command.sandbox is Some
        && command.sandbox->0.use_credentials.len() > 0) {
        let caller = choose|caller: Seq<char>|
            command.from.dom().contains(caller) && #[trigger] validate_config::from_has_credentials(
                command.from[caller],
            );
        assert(command.from.dom().contains(caller));
    }
    if exists|caller: Seq<char>| #[trigger]
        command.from.dom().contains(caller) && command.from[caller] is Policy
            && command.from[caller]->Policy_0.use_credentials.len() > 0 {
        let caller = choose|caller: Seq<char>| #[trigger]
            command.from.dom().contains(caller) && command.from[caller] is Policy
                && command.from[caller]->Policy_0.use_credentials.len() > 0;
        assert(validate_config::from_has_credentials(command.from[caller]));
    }
}

proof fn lemma_entry(name: Seq<char>, command: CommandModel, f: FindingModel)
    ensures
        validate_config::entry_errors(name, command).contains(f) <==> (name_list_fault(
            "commands."@ + name + ".can_use"@,
            command.can_use,
            f,
        ) || command.executable is Some && path_fault(
            "commands."@ + name + ".executable"@,
            command.executable->0,
            f,
        ) || command.sandbox is Some && command.from.dom().contains("session"@) && f == blame(
            "ambiguous_session_policy"@,
            "command '"@ + name + "' defines both top-level sandbox and from.session"@,
        ) || command.sandbox is Some && command.from.dom().contains("session"@)
            && command.from["session"@] == FromModel::Deny("deny"@) && f == blame(
            "conflicting_session_deny"@,
            "command '"@ + name + "' defines sandbox and from.session = \"deny\""@,
        )),
{
    let a = validate::identifier_list_errors("commands."@ + name + ".can_use"@, command.can_use);
    let b = match command.executable {
        Some(executable) => validate::path_errors(
            "commands."@ + name + ".executable"@,
            executable,
        ),
        None => Seq::empty(),
    };
    let c = validate_config::session_errors(name, command);
    lemma_name_list("commands."@ + name + ".can_use"@, command.can_use, f);
    if let Some(executable) = command.executable {
        lemma_path("commands."@ + name + ".executable"@, executable, f);
    }
    let g = blame(
        "ambiguous_session_policy"@,
        "command '"@ + name + "' defines both top-level sandbox and from.session"@,
    );
    let h = blame(
        "conflicting_session_deny"@,
        "command '"@ + name + "' defines sandbox and from.session = \"deny\""@,
    );
    let denied = command.from["session"@] == FromModel::Deny("deny"@);
    lemma_in_one(g, f);
    lemma_in_when(denied, h, f);
    lemma_in_sum(seq![g], validate::when(denied, h), f);
    lemma_in_sum(a, b, f);
    lemma_in_sum(a + b, c, f);
}

proof fn lemma_bypass(name: Seq<char>, command: CommandModel, f: FindingModel)
    ensures
        validate_config::bypass_errors(name, command).contains(f) <==> (path_list_fault(
            "commands."@ + name + ".allow_direct_exec_bypass"@,
            command.allow_direct_exec_bypass,
            f,
        ) || command.allow_direct_exec_bypass.len() > 0 && is_given_credentials(command)
            && !command.allow_direct_exec_bypass_with_credentials && f == blame(
            "credential_bypass_requires_opt_in"@,
            "command '"@ + name
                + "' uses credentials and allow_direct_exec_bypass without allow_direct_exec_bypass_with_credentials"@,
        )),
{
    let label = "commands."@ + name + ".allow_direct_exec_bypass"@;
    let g = blame(
        "credential_bypass_requires_opt_in"@,
        "command '"@ + name
            + "' uses credentials and allow_direct_exec_bypass without allow_direct_exec_bypass_with_credentials"@,
    );
    let condition = validate_config::has_credentials(command)
        && !command.allow_direct_exec_bypass_with_credentials;
    lemma_given_credentials(command);
    lemma_path_list(label, command.allow_direct_exec_bypass, f);
    lemma_in_when(condition, g, f);
    lemma_in_sum(
        validate::path_list_errors(label, command.allow_direct_exec_bypass),
        validate::when(condition, g),
        f,
    );
}

proof fn lemma_command(
    name: Seq<char>,
    command: CommandModel,
    config: PoliciesModel,
    resolved: bool,
    f: FindingModel,
)
    requires
        finite_command(command),
    ensures
        validate_config::command_errors(name, command, config, scope_of(resolved)).contains(f)
            <==> command_fault(name, command, config, resolved, f),
{
    let scope = scope_of(resolved);
    let a = validate_config::entry_errors(name, command);
    let b = validate_config::bypass_errors(name, command);
    let c = validate_config::own_sandbox_errors(name, command, config, scope);
    let check = validate_config::caller_check(name, command, config, scope);
    let d = name_map::ordered_keys(command.from).flat_map(check);
    lemma_entry(name, command, f);
    lemma_bypass(name, command, f);
    if let Some(sandbox) = command.sandbox {
        lemma_sandbox(name, "session"@, sandbox, config, resolved, f);
    }
    lemma_in_names(command.from, check, f);
    assert forall|caller: Seq<char>| #[trigger] command.from.dom().contains(caller) implies check(
        caller,
    ).contains(f) == caller_fault(name, caller, command.from[caller], config, resolved, f) by {
        lemma_caller(name, caller, command.from[caller], config, resolved, f);
    }
    lemma_in_sum(a, b, f);
    lemma_in_sum(a + b, c, f);
    lemma_in_sum(a + b + c, d, f);
}

// ---------------------------------------------------------------------------
// References
// ---------------------------------------------------------------------------

/// The command answers the caller with the word that refuses.
pub open spec fn refuses(command: CommandModel, caller: Seq<char>) -> bool {
    command.from.dom().contains(caller) && command.from[caller] is Deny
        && command.from[caller]->Deny_0 == "deny"@
}

/// The session may use a command that is not there, or that refuses it.
pub open spec fn session_use_fault(
    config: PoliciesModel,
    name: Seq<char>,
    f: FindingModel,
) -> bool {
    ||| !config.commands.dom().contains(name) && f == blame(
        "unknown_session_command"@,
        "session_can_use references unknown command '"@ + name + "'"@,
    )
    ||| config.commands.dom().contains(name) && refuses(config.commands[name], "session"@) && f
        == blame(
        "contradictory_session_allow"@,
        "session_can_use includes '"@ + name + "' but from.session is explicit deny"@,
    )
}

/// A command may use another that is not there, or that refuses it.
pub open spec fn chained_use_fault(
    config: PoliciesModel,
    caller: Seq<char>,
    callee: Seq<char>,
    f: FindingModel,
) -> bool {
    ||| !config.commands.dom().contains(callee) && f == blame(
        "unknown_chained_command"@,
        "command '"@ + caller + "' can_use references unknown command '"@ + callee + "'"@,
    )
    ||| config.commands.dom().contains(callee) && refuses(config.commands[callee], caller) && f
        == blame(
        "contradictory_chained_allow"@,
        "command '"@ + caller + "' can_use includes '"@ + callee + "' but "@ + callee + ".from."@
            + caller + " is explicit deny"@,
    )
}

/// What is wrong with the references of a configuration.
pub open spec fn reference_fault(config: PoliciesModel, f: FindingModel) -> bool {
    ||| exists|i: int|
        0 <= i < config.session_can_use.len() && session_use_fault(
            config,
            #[trigger] config.session_can_use[i],
            f,
        )
    ||| exists|caller: Seq<char>, i: int|
        config.commands.dom().contains(caller) && 0 <= i < config.commands[caller].can_use.len()
            && chained_use_fault(config, caller, #[trigger] config.commands[caller].can_use[i], f)
}

proof fn lemma_refuses(command: CommandModel, caller: Seq<char>)
    ensures
        validate_config::denies(command, caller) <==> refuses(command, caller),
{
}

proof fn lemma_session_uses(config: PoliciesModel, f: FindingModel)
    ensures
        config.session_can_use.flat_map(
            validate_config::session_reference_check(config.commands),
        ).contains(f) <==> exists|i: int|
            0 <= i < config.session_can_use.len() && session_use_fault(
                config,
                #[trigger] config.session_can_use[i],
                f,
            ),
{
    let commands = config.commands;
    let own = validate_config::session_reference_check(commands);
    let used = config.session_can_use;
    lemma_in_flat_map(used, own, f);
    assert forall|i: int| 0 <= i < used.len() implies own(#[trigger] used[i]).contains(f)
        == session_use_fault(config, used[i], f) by {
        let name = used[i];
        lemma_refuses(commands[name], "session"@);
        lemma_in_one(
            blame(
                "unknown_session_command"@,
                "session_can_use references unknown command '"@ + name + "'"@,
            ),
            f,
        );
        lemma_in_when(
            validate_config::denies(commands[name], "session"@),
            blame(
                "contradictory_session_allow"@,
                "session_can_use includes '"@ + name + "' but from.session is explicit deny"@,
            ),
            f,
        );
    }
}

proof fn lemma_chained_uses(config: PoliciesModel, caller: Seq<char>, f: FindingModel)
    ensures
        validate_config::callee_check(config.commands)(caller).contains(f) <==> exists|i: int|
            0 <= i < config.commands[caller].can_use.len() && chained_use_fault(
                config,
                caller,
                #[trigger] config.commands[caller].can_use[i],
                f,
            ),
{
    let commands = config.commands;
    let list = commands[caller].can_use;
    let check = validate_config::chained_reference_check(commands, caller);
    lemma_in_flat_map(list, check, f);
    assert forall|i: int| 0 <= i < list.len() implies check(#[trigger] list[i]).contains(f)
        == chained_use_fault(config, caller, list[i], f) by {
        let callee = list[i];
        lemma_refuses(commands[callee], caller);
        lemma_in_one(
            blame(
                "unknown_chained_command"@,
                "command '"@ + caller + "' can_use references unknown command '"@ + callee + "'"@,
            ),
            f,
        );
        lemma_in_when(
            validate_config::denies(commands[callee], caller),
            blame(
                "contradictory_chained_allow"@,
                "command '"@ + caller + "' can_use includes '"@ + callee + "' but "@ + callee
                    + ".from."@ + caller + " is explicit deny"@,
            ),
            f,
        );
    }
}

proof fn lemma_references(config: PoliciesModel, f: FindingModel)
    requires
        config.commands.dom().finite(),
    ensures
        validate_config::reference_errors(config).contains(f) <==> reference_fault(config, f),
{
    let commands = config.commands;
    let own = validate_config::session_reference_check(commands);
    let callees = validate_config::callee_check(commands);
    let used = config.session_can_use;
    lemma_session_uses(config, f);
    lemma_in_names(commands, callees, f);
    assert forall|caller: Seq<char>| #[trigger] commands.dom().contains(caller) implies callees(
        caller,
    ).contains(f) == (exists|i: int|
        0 <= i < commands[caller].can_use.len() && chained_use_fault(
            config,
            caller,
            #[trigger] commands[caller].can_use[i],
            f,
        )) by {
        lemma_chained_uses(config, caller, f);
    }
    let a = used.flat_map(own);
    let b = name_map::ordered_keys(commands).flat_map(callees);
    lemma_in_sum(a, b, f);
    if b.contains(f) {
        let caller = choose|caller: Seq<char>| #[trigger]
            commands.dom().contains(caller) && callees(caller).contains(f);
        let i = choose|i: int|
            0 <= i < commands[caller].can_use.len() && chained_use_fault(
                config,
                caller,
                #[trigger] commands[caller].can_use[i],
                f,
            );
        assert(chained_use_fault(config, caller, config.commands[caller].can_use[i], f));
    }
    if exists|caller: Seq<char>, i: int|
        config.commands.dom().contains(caller) && 0 <= i < config.commands[caller].can_use.len()
            && chained_use_fault(
            config,
            caller,
            #[trigger] config.commands[caller].can_use[i],
            f,
        ) {
        let (caller, i) = choose|caller: Seq<char>, i: int|
            config.commands.dom().contains(caller) && 0 <= i
                < config.commands[caller].can_use.len() && chained_use_fault(
                config,
                caller,
                #[trigger] config.commands[caller].can_use[i],
                f,
            );
        assert(commands.dom().contains(caller));
        assert(callees(caller).contains(f));
    }
}

// ---------------------------------------------------------------------------
// Configurations
// ---------------------------------------------------------------------------

/// The maps of a configuration are finite.
pub open spec fn finite_config(config: PoliciesModel) -> bool {
    &&& config.commands.dom().finite()
    &&& config.credentials.dom().finite()
    &&& forall|name: Seq<char>| #[trigger]
        config.commands.dom().contains(name) ==> finite_command(config.commands[name])
}

proof fn lemma_active(config: PoliciesModel)
    requires
        exists|name: Seq<char>| #[trigger] config.commands.dom().contains(name),
    ensures
        config.active(),
{
    let some = choose|name: Seq<char>| #[trigger] config.commands.dom().contains(name);
    if config.commands == Map::<Seq<char>, CommandModel>::empty() {
        assert(!config.commands.dom().contains(some));
    }
}

/// What is wrong with a configuration that controls commands.
pub open spec fn config_fault(config: PoliciesModel, resolved: bool, f: FindingModel) -> bool {
    ||| name_set_fault("command"@, config.commands.dom(), f)
    ||| name_set_fault("credential"@, config.credentials.dom(), f)
    ||| name_list_fault("session_can_use"@, config.session_can_use, f)
    ||| path_list_fault(
        "command_policies.deny_direct_exec_bypass"@,
        config.deny_direct_exec_bypass,
        f,
    )
    ||| exists|name: Seq<char>| #[trigger]
        config.credentials.dom().contains(name) && credential_fault(
            name,
            config.credentials[name],
            f,
        )
    ||| exists|name: Seq<char>| #[trigger]
        config.commands.dom().contains(name) && command_fault(
            name,
            config.commands[name],
            config,
            resolved,
            f,
        )
    ||| resolved && reference_fault(config, f)
}

/// Validation of a configuration that controls commands reports exactly its
/// faults, each in its own words; references and the use of credentials count
/// once it is resolved.
pub proof fn law_faults_are_reported(config: PoliciesModel, resolved: bool, f: FindingModel)
    requires
        finite_config(config),
        exists|name: Seq<char>| #[trigger] config.commands.dom().contains(name),
    ensures
        validate_config::validation(Some(config), scope_of(resolved)).errors.contains(f)
            <==> config_fault(config, resolved, f),
{
    let scope = scope_of(resolved);
    lemma_active(config);
    let a = validate::identifier_set_errors("command"@, name_map::ordered_keys(config.commands));
    let b = validate::identifier_set_errors(
        "credential"@,
        name_map::ordered_keys(config.credentials),
    );
    let c = validate::identifier_list_errors("session_can_use"@, config.session_can_use);
    let d = validate::path_list_errors(
        "command_policies.deny_direct_exec_bypass"@,
        config.deny_direct_exec_bypass,
    );
    let defining = validate_config::credential_check(config.credentials);
    let e = name_map::ordered_keys(config.credentials).flat_map(defining);
    let checking = validate_config::command_check(config, scope);
    let g = name_map::ordered_keys(config.commands).flat_map(checking);
    let h = if resolved {
        validate_config::reference_errors(config)
    } else {
        Seq::empty()
    };
    lemma_name_set("command"@, config.commands, f);
    lemma_name_set("credential"@, config.credentials, f);
    lemma_name_list("session_can_use"@, config.session_can_use, f);
    lemma_path_list(
        "command_policies.deny_direct_exec_bypass"@,
        config.deny_direct_exec_bypass,
        f,
    );
    lemma_in_names(config.credentials, defining, f);
    assert forall|name: Seq<char>| #[trigger] config.credentials.dom().contains(
        name,
    ) implies defining(name).contains(f) == credential_fault(name, config.credentials[name], f) by {
        lemma_credential(name, config.credentials[name], f);
    }
    lemma_in_names(config.commands, checking, f);
    assert forall|name: Seq<char>| #[trigger] config.commands.dom().contains(name) implies checking(
        name,
    ).contains(f) == command_fault(name, config.commands[name], config, resolved, f) by {
        lemma_command(name, config.commands[name], config, resolved, f);
    }
    lemma_references(config, f);
    lemma_in_sum(a, b, f);
    lemma_in_sum(a + b, c, f);
    lemma_in_sum(a + b + c, d, f);
    lemma_in_sum(a + b + c + d, e, f);
    lemma_in_sum(a + b + c + d + e, g, f);
    lemma_in_sum(a + b + c + d + e + g, h, f);
}

// ---------------------------------------------------------------------------
// The order of findings
// ---------------------------------------------------------------------------

/// The findings come name by name, in the order of the names: `owners` has the
/// name that each finding is about.
pub open spec fn in_name_order(
    list: Seq<FindingModel>,
    names: Set<Seq<char>>,
    fault: spec_fn(Seq<char>, FindingModel) -> bool,
    owners: Seq<Seq<char>>,
) -> bool {
    &&& owners.len() == list.len()
    &&& forall|i: int|
        0 <= i < list.len() ==> names.contains(#[trigger] owners[i]) && fault(owners[i], list[i])
    &&& forall|i: int, j: int|
        0 <= i < j < list.len() ==> #[trigger] owners[i] == #[trigger] owners[j] || text::precedes(
            owners[i],
            owners[j],
        )
}

proof fn lemma_owners(
    names: Seq<Seq<char>>,
    check: spec_fn(Seq<char>) -> Seq<FindingModel>,
) -> (at: Seq<int>)
    ensures
        at.len() == names.flat_map(check).len(),
        forall|i: int| 0 <= i < at.len() ==> 0 <= #[trigger] at[i] < names.len(),
        forall|i: int|
            0 <= i < at.len() ==> check(names[#[trigger] at[i]]).contains(
                names.flat_map(check)[i],
            ),
        forall|i: int, j: int| 0 <= i < j < at.len() ==> #[trigger] at[i] <= #[trigger] at[j],
    decreases names.len(),
{
    if names.len() == 0 {
        assert(names.map_values(check) =~= Seq::empty());
        assert(names.flat_map(check) =~= Seq::empty());
        Seq::empty()
    } else {
        let n = names.len() - 1;
        let front = names.take(n);
        let before = lemma_owners(front, check);
        let own = check(names[n]);
        names.lemma_flat_map_take_append(check, n);
        assert(names.take(n + 1) =~= names);
        let all = names.flat_map(check);
        assert(all == front.flat_map(check) + own);
        let at = before + Seq::new(own.len(), |i: int| n);
        assert forall|i: int| 0 <= i < at.len() implies check(names[#[trigger] at[i]]).contains(
            all[i],
        ) by {
            if i < before.len() {
                assert(at[i] == before[i]);
                assert(front[before[i]] == names[at[i]]);
                assert(all[i] == front.flat_map(check)[i]);
            } else {
                assert(own[i - before.len()] == all[i]);
            }
        }
        assert forall|i: int| 0 <= i < at.len() implies 0 <= #[trigger] at[i] < names.len() by {
            if i < before.len() {
                assert(at[i] == before[i]);
            }
        }
        assert forall|i: int, j: int| 0 <= i < j < at.len() implies #[trigger] at[i]
            <= #[trigger] at[j] by {
            if i < before.len() {
                assert(at[i] == before[i]);
                if j < before.len() {
                    assert(at[j] == before[j]);
                }
            }
        }
        at
    }
}

proof fn lemma_in_name_order<A>(
    map: Map<Seq<char>, A>,
    check: spec_fn(Seq<char>) -> Seq<FindingModel>,
    fault: spec_fn(Seq<char>, FindingModel) -> bool,
) -> (owners: Seq<Seq<char>>)
    requires
        map.dom().finite(),
        forall|name: Seq<char>, f: FindingModel|
            map.dom().contains(name) && #[trigger] check(name).contains(f) ==> fault(name, f),
    ensures
        in_name_order(
            name_map::ordered_keys(map).flat_map(check),
            map.dom(),
            fault,
            owners,
        ),
{
    let names = name_map::ordered_keys(map);
    name_map::lemma_ordered_keys_of_finite(map);
    let at = lemma_owners(names, check);
    let list = names.flat_map(check);
    let owners = Seq::new(at.len(), |i: int| names[at[i]]);
    assert forall|i: int| 0 <= i < list.len() implies map.dom().contains(#[trigger] owners[i])
        && fault(owners[i], list[i]) by {
        assert(0 <= at[i] < names.len());
        assert(names.contains(names[at[i]]));
        assert(check(names[at[i]]).contains(list[i]));
    }
    assert forall|i: int, j: int| 0 <= i < j < list.len() implies #[trigger] owners[i]
        == #[trigger] owners[j] || text::precedes(owners[i], owners[j]) by {
        assert(at[i] <= at[j]);
        if at[i] < at[j] {
            assert(text::precedes(names[at[i]], names[at[j]]));
        }
    }
    owners
}

/// Every finding of the list is such a fault.
pub open spec fn all_faults(list: Seq<FindingModel>, fault: spec_fn(FindingModel) -> bool) -> bool {
    forall|i: int| 0 <= i < list.len() ==> fault(#[trigger] list[i])
}

/// The errors of a validation, by what they are about.
pub struct ErrorParts {
    pub command_names: Seq<FindingModel>,
    pub credential_names: Seq<FindingModel>,
    pub session_names: Seq<FindingModel>,
    pub denied_paths: Seq<FindingModel>,
    pub credentials: Seq<FindingModel>,
    pub credential_owners: Seq<Seq<char>>,
    pub commands: Seq<FindingModel>,
    pub command_owners: Seq<Seq<char>>,
    pub session_uses: Seq<FindingModel>,
    pub chained_uses: Seq<FindingModel>,
    pub caller_owners: Seq<Seq<char>>,
}

/// Errors come in order: those of the names of commands and credentials, of what
/// the session may use, of the denied paths, of each credential, and of each
/// command, by their names; and once references count, those of the session's,
/// then those of each command's, by their names.
pub proof fn law_errors_come_in_order(config: PoliciesModel, resolved: bool) -> (parts: ErrorParts)
    requires
        finite_config(config),
        exists|name: Seq<char>| #[trigger] config.commands.dom().contains(name),
    ensures
        validate_config::validation(Some(config), scope_of(resolved)).errors == parts.command_names
            + parts.credential_names + parts.session_names + parts.denied_paths + parts.credentials
            + parts.commands + parts.session_uses + parts.chained_uses,
        all_faults(
            parts.command_names,
            |f: FindingModel| name_set_fault("command"@, config.commands.dom(), f),
        ),
        all_faults(
            parts.credential_names,
            |f: FindingModel| name_set_fault("credential"@, config.credentials.dom(), f),
        ),
        all_faults(
            parts.session_names,
            |f: FindingModel| name_list_fault("session_can_use"@, config.session_can_use, f),
        ),
        all_faults(
            parts.denied_paths,
            |f: FindingModel|
                path_list_fault(
                    "command_policies.deny_direct_exec_bypass"@,
                    config.deny_direct_exec_bypass,
                    f,
                ),
        ),
        in_name_order(
            parts.credentials,
            config.credentials.dom(),
            |name: Seq<char>, f: FindingModel|
                credential_fault(name, config.credentials[name], f),
            parts.credential_owners,
        ),
        in_name_order(
            parts.commands,
            config.commands.dom(),
            |name: Seq<char>, f: FindingModel|
                command_fault(name, config.commands[name], config, resolved, f),
            parts.command_owners,
        ),
        !resolved ==> parts.session_uses.len() == 0 && parts.chained_uses.len() == 0,
        all_faults(
            parts.session_uses,
            |f: FindingModel|
                exists|i: int|
                    0 <= i < config.session_can_use.len() && session_use_fault(
                        config,
                        #[trigger] config.session_can_use[i],
                        f,
                    ),
        ),
        in_name_order(
            parts.chained_uses,
            config.commands.dom(),
            |name: Seq<char>, f: FindingModel|
                exists|i: int|
                    0 <= i < config.commands[name].can_use.len() && chained_use_fault(
                        config,
                        name,
                        #[trigger] config.commands[name].can_use[i],
                        f,
                    ),
            parts.caller_owners,
        ),
{
    lemma_active(config);
    let scope = scope_of(resolved);
    let a = validate::identifier_set_errors("command"@, name_map::ordered_keys(config.commands));
    let b = validate::identifier_set_errors(
        "credential"@,
        name_map::ordered_keys(config.credentials),
    );
    let c = validate::identifier_list_errors("session_can_use"@, config.session_can_use);
    let d = validate::path_list_errors(
        "command_policies.deny_direct_exec_bypass"@,
        config.deny_direct_exec_bypass,
    );
    let defining = validate_config::credential_check(config.credentials);
    let checking = validate_config::command_check(config, scope);
    let own = validate_config::session_reference_check(config.commands);
    let callees = validate_config::callee_check(config.commands);
    let credential_case = |name: Seq<char>, f: FindingModel|
        credential_fault(name, config.credentials[name], f);
    let command_case = |name: Seq<char>, f: FindingModel|
        command_fault(name, config.commands[name], config, resolved, f);
    let chained_case = |name: Seq<char>, f: FindingModel|
        exists|i: int|
            0 <= i < config.commands[name].can_use.len() && chained_use_fault(
                config,
                name,
                #[trigger] config.commands[name].can_use[i],
                f,
            );
    assert forall|i: int| 0 <= i < a.len() implies name_set_fault(
        "command"@,
        config.commands.dom(),
        #[trigger] a[i],
    ) by {
        lemma_name_set("command"@, config.commands, a[i]);
    }
    assert forall|i: int| 0 <= i < b.len() implies name_set_fault(
        "credential"@,
        config.credentials.dom(),
        #[trigger] b[i],
    ) by {
        lemma_name_set("credential"@, config.credentials, b[i]);
    }
    assert forall|i: int| 0 <= i < c.len() implies name_list_fault(
        "session_can_use"@,
        config.session_can_use,
        #[trigger] c[i],
    ) by {
        lemma_name_list("session_can_use"@, config.session_can_use, c[i]);
    }
    assert forall|i: int| 0 <= i < d.len() implies path_list_fault(
        "command_policies.deny_direct_exec_bypass"@,
        config.deny_direct_exec_bypass,
        #[trigger] d[i],
    ) by {
        lemma_path_list(
            "command_policies.deny_direct_exec_bypass"@,
            config.deny_direct_exec_bypass,
            d[i],
        );
    }
    assert forall|name: Seq<char>, f: FindingModel|
        config.credentials.dom().contains(name) && #[trigger] defining(name).contains(
            f,
        ) implies credential_case(name, f) by {
        lemma_credential(name, config.credentials[name], f);
    }
    let credential_owners = lemma_in_name_order(config.credentials, defining, credential_case);
    assert forall|name: Seq<char>, f: FindingModel|
        config.commands.dom().contains(name) && #[trigger] checking(name).contains(
            f,
        ) implies command_case(name, f) by {
        lemma_command(name, config.commands[name], config, resolved, f);
    }
    let command_owners = lemma_in_name_order(config.commands, checking, command_case);
    let used = config.session_can_use;
    let h = used.flat_map(own);
    assert forall|i: int| 0 <= i < h.len() implies exists|k: int|
        0 <= k < used.len() && session_use_fault(config, #[trigger] used[k], #[trigger] h[i]) by {
        lemma_session_uses(config, h[i]);
    }
    assert forall|name: Seq<char>, f: FindingModel|
        config.commands.dom().contains(name) && #[trigger] callees(name).contains(
            f,
        ) implies chained_case(name, f) by {
        lemma_chained_uses(config, name, f);
    }
    let caller_owners = lemma_in_name_order(config.commands, callees, chained_case);
    let credentials = name_map::ordered_keys(config.credentials).flat_map(defining);
    let commands = name_map::ordered_keys(config.commands).flat_map(checking);
    let chained = name_map::ordered_keys(config.commands).flat_map(callees);
    let none = Seq::<FindingModel>::empty();
    let start = a + b + c + d + credentials + commands;
    let errors = validate_config::validation(Some(config), scope).errors;
    if resolved {
        assert(errors =~= start + h + chained);
    } else {
        assert(errors =~= start + none + none);
    }
    ErrorParts {
        command_names: a,
        credential_names: b,
        session_names: c,
        denied_paths: d,
        credentials,
        credential_owners,
        commands,
        command_owners,
        session_uses: if resolved {
            h
        } else {
            none
        },
        chained_uses: if resolved {
            chained
        } else {
            none
        },
        caller_owners: if resolved {
            caller_owners
        } else {
            Seq::empty()
        },
    }
}

/// A configuration that resolved validation accepts has references that hold:
/// whatever a command may use is a command of the configuration that does not
/// answer it with the word `deny`, and so is whatever the session may use.
pub proof fn law_accepted_references_hold(config: PoliciesModel)
    requires
        finite_config(config),
        exists|name: Seq<char>| #[trigger] config.commands.dom().contains(name),
        validate_config::validation(
            Some(config),
            CommandPolicyValidationScope::Resolved,
        ).errors.len() == 0,
    ensures
        forall|a: Seq<char>, i: int|
            config.commands.dom().contains(a) && 0 <= i < config.commands[a].can_use.len() ==> {
                let b = #[trigger] config.commands[a].can_use[i];
                &&& config.commands.dom().contains(b)
                &&& config.commands[b].from.dom().contains(a) ==> config.commands[b].from[a]
                    != FromModel::Deny("deny"@)
            },
        forall|i: int|
            0 <= i < config.session_can_use.len() ==> {
                let b = #[trigger] config.session_can_use[i];
                &&& config.commands.dom().contains(b)
                &&& config.commands[b].from.dom().contains("session"@)
                    ==> config.commands[b].from["session"@] != FromModel::Deny("deny"@)
            },
{
    assert forall|a: Seq<char>, i: int|
        config.commands.dom().contains(a) && 0 <= i < config.commands[a].can_use.len() implies {
        let b = #[trigger] config.commands[a].can_use[i];
        &&& config.commands.dom().contains(b)
        &&& config.commands[b].from.dom().contains(a) ==> config.commands[b].from[a]
            != FromModel::Deny("deny"@)
    } by {
        let b = config.commands[a].can_use[i];
        let f = blame(
            "unknown_chained_command"@,
            "command '"@ + a + "' can_use references unknown command '"@ + b + "'"@,
        );
        let g = blame(
            "contradictory_chained_allow"@,
            "command '"@ + a + "' can_use includes '"@ + b + "' but "@ + b + ".from."@ + a
                + " is explicit deny"@,
        );
        law_faults_are_reported(config, true, f);
        law_faults_are_reported(config, true, g);
        assert(!chained_use_fault(config, a, config.commands[a].can_use[i], f));
        assert(!chained_use_fault(config, a, config.commands[a].can_use[i], g));
    }
    assert forall|i: int| 0 <= i < config.session_can_use.len() implies {
        let b = #[trigger] config.session_can_use[i];
        &&& config.commands.dom().contains(b)
        &&& config.commands[b].from.dom().contains("session"@)
            ==> config.commands[b].from["session"@] != FromModel::Deny("deny"@)
    } by {
        let b = config.session_can_use[i];
        let f = blame(
            "unknown_session_command"@,
            "session_can_use references unknown command '"@ + b + "'"@,
        );
        let g = blame(
            "contradictory_session_allow"@,
            "session_can_use includes '"@ + b + "' but from.session is explicit deny"@,
        );
        law_faults_are_reported(config, true, f);
        law_faults_are_reported(config, true, g);
        assert(!session_use_fault(config, config.session_can_use[i], f));
        assert(!session_use_fault(config, config.session_can_use[i], g));
    }
}

/// A configuration that controls no command is accepted exactly if it says
/// nothing else either, and is blamed once if it does.
pub proof fn law_inactive_configurations_say_nothing(config: PoliciesModel, resolved: bool)
    requires
        forall|name: Seq<char>| !#[trigger] config.commands.dom().contains(name),
    ensures
        ({
            let report = validate_config::validation(Some(config), scope_of(resolved));
            let silent = config.executable_dirs.len() == 0 && config.session_can_use.len() == 0
                && config.deny_direct_exec_bypass.len() == 0 && forall|name: Seq<char>|
                !#[trigger] config.credentials.dom().contains(name);
            &&& silent ==> report.errors.len() == 0
            &&& !silent ==> report.errors == seq![
                blame(
                    "inactive_non_empty"@,
                    "command_policies has no policy commands but contains other ETI fields"@,
                ),
            ]
            &&& report.activation is Inactive
            &&& report.warnings.len() == 0
            &&& report.info.len() == 0
        }),
{
    assert(config.commands =~= Map::<Seq<char>, CommandModel>::empty());
    let report = validate_config::validation(Some(config), scope_of(resolved));
    let g = blame(
        "inactive_non_empty"@,
        "command_policies has no policy commands but contains other ETI fields"@,
    );
    if forall|name: Seq<char>| !#[trigger] config.credentials.dom().contains(name) {
        assert(config.credentials =~= Map::<Seq<char>, CredentialModel>::empty());
    } else {
        let name = choose|name: Seq<char>| #[trigger] config.credentials.dom().contains(name);
        assert(config.credentials.dom().contains(name));
        assert(config.credentials != Map::<Seq<char>, CredentialModel>::empty());
    }
    assert(Seq::<FindingModel>::empty() + seq![g] =~= seq![g]);
    assert(Seq::<FindingModel>::empty() + Seq::<FindingModel>::empty() =~= Seq::empty());
}

// ---------------------------------------------------------------------------
// Warnings and remarks
// ---------------------------------------------------------------------------

/// Ports are opened that no host name filters.
pub open spec fn port_remark(
    command: Seq<char>,
    caller: Seq<char>,
    sandbox: SandboxModel,
    f: FindingModel,
) -> bool {
    sandbox.network is Some && (sandbox.network->0.tcp_connect_ports.len() > 0
        || sandbox.network->0.tcp_bind_ports.len() > 0) && f == blame(
        "raw_tcp_ports"@,
        subject(command, caller) + " uses raw TCP port rules; these are not hostname-filtered"@,
    )
}

/// What is worth knowing about a command policy.
pub open spec fn command_remark(name: Seq<char>, command: CommandModel, f: FindingModel) -> bool {
    ||| command.allow_direct_exec_bypass.len() > 0 && f == blame(
        "direct_exec_bypass"@,
        "command '"@ + name + "' allows direct canonical exec bypass outside child-ETI"@,
    )
    ||| command.sandbox is Some && port_remark(name, "session"@, command.sandbox->0, f)
    ||| exists|caller: Seq<char>| #[trigger]
        command.from.dom().contains(caller) && command.from[caller] is Policy && port_remark(
            name,
            caller,
            command.from[caller]->Policy_0,
            f,
        )
}

proof fn lemma_port_remark(
    command: Seq<char>,
    caller: Seq<char>,
    sandbox: SandboxModel,
    f: FindingModel,
)
    ensures
        validate::sandbox_warnings(command, caller, sandbox).contains(f) <==> port_remark(
            command,
            caller,
            sandbox,
            f,
        ),
{
    if let Some(network) = sandbox.network {
        lemma_in_when(
            network.tcp_connect_ports.len() > 0 || network.tcp_bind_ports.len() > 0,
            blame(
                "raw_tcp_ports"@,
                subject(command, caller)
                    + " uses raw TCP port rules; these are not hostname-filtered"@,
            ),
            f,
        );
    }
}

/// Validation of a configuration that controls commands warns of exactly the
/// ways round its policies, says how many commands it controls, and that it is
/// active.
pub proof fn law_remarks_are_reported(config: PoliciesModel, resolved: bool, f: FindingModel)
    requires
        finite_config(config),
        exists|name: Seq<char>| #[trigger] config.commands.dom().contains(name),
    ensures
        validate_config::validation(Some(config), scope_of(resolved)).warnings.contains(f) <==> (
        exists|name: Seq<char>| #[trigger]
            config.commands.dom().contains(name) && command_remark(
                name,
                config.commands[name],
                f,
            )),
        validate_config::validation(Some(config), scope_of(resolved)).info == seq![
            blame(
                "active"@,
                "ETI active with "@ + text::decimal(config.commands.dom().len())
                    + " policy-controlled command(s)"@,
            ),
        ],
        validate_config::validation(Some(config), scope_of(resolved)).activation is Active,
{
    lemma_active(config);
    let check = validate_config::command_remarks(config);
    lemma_in_names(config.commands, check, f);
    assert forall|name: Seq<char>| #[trigger] config.commands.dom().contains(name) implies check(
        name,
    ).contains(f) == command_remark(name, config.commands[name], f) by {
        let command = config.commands[name];
        let inner = validate_config::caller_remarks(name, command);
        let a = validate_config::bypass_warnings(name, command);
        let b = validate_config::own_sandbox_warnings(name, command);
        let c = name_map::ordered_keys(command.from).flat_map(inner);
        lemma_in_when(
            command.allow_direct_exec_bypass.len() > 0,
            blame(
                "direct_exec_bypass"@,
                "command '"@ + name + "' allows direct canonical exec bypass outside child-ETI"@,
            ),
            f,
        );
        if let Some(sandbox) = command.sandbox {
            lemma_port_remark(name, "session"@, sandbox, f);
        }
        lemma_in_names(command.from, inner, f);
        assert forall|caller: Seq<char>| #[trigger] command.from.dom().contains(
            caller,
        ) implies inner(caller).contains(f) == (command.from[caller] is Policy && port_remark(
            name,
            caller,
            command.from[caller]->Policy_0,
            f,
        )) by {
            if let FromModel::Policy(policy) = command.from[caller] {
                lemma_port_remark(name, caller, policy, f);
            }
        }
        lemma_in_sum(a, b, f);
        lemma_in_sum(a + b, c, f);
    }
}

// ---------------------------------------------------------------------------
// Legacy lists
// ---------------------------------------------------------------------------

/// What is wrong with legacy lists beside policies.
pub open spec fn legacy_fault(
    config: PoliciesModel,
    blocked: Seq<Seq<char>>,
    allowed: Seq<Seq<char>>,
    f: FindingModel,
) -> bool {
    ||| name_list_fault("security.allowed_commands"@, allowed, f)
    ||| name_list_fault("legacy blocked command"@, blocked, f)
    ||| exists|i: int|
        0 <= i < blocked.len() && !allowed.contains(#[trigger] blocked[i])
            && config.commands.dom().contains(blocked[i]) && f == blame(
            "policy_blocked_command_conflict"@,
            "command '"@ + blocked[i]
                + "' is both policy-controlled and legacy blocked; use allowed_commands to override the legacy blocked entry before ETI command-control resolution"@,
        )
}

/// Beside policies the legacy lists are blamed for exactly the names that are
/// not usable and for the commands that are blocked, not allowed again, and
/// policy-controlled.
pub proof fn law_legacy_faults_are_reported(
    config: PoliciesModel,
    blocked: Seq<Seq<char>>,
    allowed: Seq<Seq<char>>,
    f: FindingModel,
)
    requires
        exists|name: Seq<char>| #[trigger] config.commands.dom().contains(name),
    ensures
        legacy::legacy_validation(Some(config), blocked, allowed).errors.contains(f)
            <==> legacy_fault(config, blocked, allowed, f),
        legacy::legacy_validation(Some(config), blocked, allowed).warnings.len() == 0,
        legacy::legacy_validation(Some(config), blocked, allowed).activation is Active,
{
    lemma_active(config);
    let check = legacy::blocked_check(allowed, config.commands);
    let a = validate::identifier_list_errors("security.allowed_commands"@, allowed);
    lemma_name_list("security.allowed_commands"@, allowed, f);
    lemma_in_flat_map(blocked, check, f);
    lemma_in_sum(a, blocked.flat_map(check), f);
    let conflict = |name: Seq<char>|
        blame(
            "policy_blocked_command_conflict"@,
            "command '"@ + name
                + "' is both policy-controlled and legacy blocked; use allowed_commands to override the legacy blocked entry before ETI command-control resolution"@,
        );
    assert forall|i: int| 0 <= i < blocked.len() implies check(#[trigger] blocked[i]).contains(f)
        == (name_fault("legacy blocked command"@, blocked[i], f) || !allowed.contains(blocked[i])
        && config.commands.dom().contains(blocked[i]) && f == conflict(blocked[i])) by {
        let name = blocked[i];
        let both = !allowed.contains(name) && config.commands.dom().contains(name);
        lemma_name("legacy blocked command"@, name, f);
        lemma_in_when(both, conflict(name), f);
        lemma_in_sum(
            validate::identifier_errors("legacy blocked command"@, name),
            validate::when(both, conflict(name)),
            f,
        );
    }
    if blocked.flat_map(check).contains(f) {
        let i = choose|i: int| 0 <= i < blocked.len() && check(#[trigger] blocked[i]).contains(f);
        assert(name_fault("legacy blocked command"@, blocked[i], f) || f == conflict(blocked[i]));
    }
    if name_list_fault("legacy blocked command"@, blocked, f) {
        let i = choose|i: int|
            0 <= i < blocked.len() && name_fault(
                "legacy blocked command"@,
                #[trigger] blocked[i],
                f,
            );
        assert(check(blocked[i]).contains(f));
    }
}

/// Beside policies the blocked commands that are neither allowed again nor
/// policy-controlled are counted, each once; where there is none, nothing is
/// said.
pub proof fn law_legacy_commands_are_counted(
    config: PoliciesModel,
    blocked: Seq<Seq<char>>,
    allowed: Seq<Seq<char>>,
    denied: Seq<Seq<char>>,
)
    requires
        exists|name: Seq<char>| #[trigger] config.commands.dom().contains(name),
        denied.no_duplicates(),
        forall|name: Seq<char>| #[trigger]
            denied.contains(name) <==> blocked.contains(name) && !allowed.contains(name)
                && !config.commands.dom().contains(name),
    ensures
        denied.len() == 0 ==> legacy::legacy_validation(
            Some(config),
            blocked,
            allowed,
        ).info.len() == 0,
        denied.len() > 0 ==> legacy::legacy_validation(Some(config), blocked, allowed).info == seq![
            blame(
                "legacy_blocked_folded"@,
                "folded "@ + text::decimal(denied.len())
                    + " legacy blocked command(s) into active ETI as deny-only entries"@,
            ),
        ],
{
    lemma_active(config);
    let set = legacy::deny_only(blocked, allowed, config.commands);
    denied.unique_seq_to_set();
    assert(denied.to_set() =~= set) by {
        assert forall|name: Seq<char>| denied.to_set().contains(name) == set.contains(name) by {
            assert(denied.contains(name) <==> blocked.contains(name) && !allowed.contains(name)
                && !config.commands.dom().contains(name));
        }
    }
}

/// Without policies the legacy lists are left alone.
pub proof fn law_legacy_lists_alone(
    config: Option<PoliciesModel>,
    blocked: Seq<Seq<char>>,
    allowed: Seq<Seq<char>>,
)
    requires
        config is Some ==> forall|name: Seq<char>| !#[trigger]
            config->0.commands.dom().contains(name),
    ensures
        ({
            let report = legacy::legacy_validation(config, blocked, allowed);
            &&& report.activation is Inactive
            &&& report.errors.len() == 0
            &&& report.warnings.len() == 0
            &&& report.info.len() == 0
        }),
{
    if let Some(config) = config {
        assert(config.commands =~= Map::<Seq<char>, CommandModel>::empty());
    }
}

// ---------------------------------------------------------------------------
// Reports
// ---------------------------------------------------------------------------

/// A report is a success exactly without errors; otherwise one error lists them
/// all, each by its code and message, in their order.
pub proof fn law_report_result(report: ReportModel, lines: Seq<Seq<char>>)
    requires
        lines.len() == report.errors.len(),
        forall|i: int|
            0 <= i < lines.len() ==> #[trigger] lines[i] == report.errors[i].code + ": "@
                + report.errors[i].message,
    ensures
        report::report_result(report) is Ok <==> report.errors.len() == 0,
        report.errors.len() > 0 ==> report::report_result(report) == Err::<(), _>(
            ErrorModel::ProfileParse("invalid command_policies: "@ + text::joined(lines, "; "@)),
        ),
{
    assert(lines =~= report.errors.map_values(|f: FindingModel| report::finding_line(f)));
}

} // verus!
