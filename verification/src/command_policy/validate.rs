//! Validation of the fields of command policies.
//!
//! Every rule is a specification function from the configuration to the
//! findings it gives rise to, in the order in which they are reported; the
//! functions below append exactly those findings to a report.
use vstd::prelude::*;

use crate::command_policy::report;
use crate::command_policy::report::{
    CommandPolicyValidationReport, CommandPolicyValidationScope, FindingModel,
};
use crate::command_policy::{
    CommandCredentialConfig, CommandCredentialType, CommandEnvironmentConfig,
    CommandNetworkConfig, CommandPoliciesConfig, CommandSandboxConfig,
};
use crate::command_policy::{
    CredentialModel, EnvironmentModel, NetworkModel, PoliciesModel, SandboxModel,
};
use crate::name_map;
use crate::name_map::NameMap;
use crate::text;

verus! {

/// One finding if the condition holds, else none.
pub open spec fn when(condition: bool, finding: FindingModel) -> Seq<FindingModel> {
    if condition {
        seq![finding]
    } else {
        Seq::empty()
    }
}

/// Walking a list from its start, no finding has been gathered yet.
pub(crate) proof fn lemma_nothing_yet<A>(list: Seq<A>, check: spec_fn(A) -> Seq<FindingModel>)
    ensures
        list.take(0).flat_map(check) == Seq::<FindingModel>::empty(),
{
    assert(list.take(0).map_values(check) =~= Seq::empty());
}

/// Walking a list to its end gathers the findings of the whole list.
pub(crate) proof fn lemma_all_gathered<A>(list: Seq<A>, check: spec_fn(A) -> Seq<FindingModel>)
    ensures
        list.take(list.len() as int).flat_map(check) == list.flat_map(check),
{
    assert(list.take(list.len() as int) =~= list);
}

// ---------------------------------------------------------------------------
// Identifiers and paths
// ---------------------------------------------------------------------------

/// Characters that may occur in the name of a command or credential.
pub open spec fn identifier_char(c: char) -> bool {
    ||| 'A' <= c <= 'Z'
    ||| 'a' <= c <= 'z'
    ||| '0' <= c <= '9'
    ||| c == '.' || c == '_' || c == '+' || c == '-'
}

/// A name that is safe as a file name and does not clash with a reserved one.
pub open spec fn valid_identifier(name: Seq<char>) -> bool {
    &&& name.len() > 0
    &&& name != "."@
    &&& name != ".."@
    &&& text::ascii_folded(name) != text::ascii_folded("session"@)
    &&& forall|i: int| 0 <= i < name.len() ==> #[trigger] identifier_char(name[i])
}

/// Tells whether a name may be used for a command or credential.
pub fn is_valid_identifier(name: &str) -> (r: bool)
    ensures
        r == valid_identifier(name@),
{
    if name.is_empty() || text::text_eq(name, ".") || text::text_eq(name, "..")
        || text::eq_ignore_ascii_case(name, "session") {
        return false;
    }
    for c in it: name.chars()
        invariant
            it.seq() == name@,
            forall|i: int| 0 <= i < it.index() ==> #[trigger] identifier_char(name@[i]),
    {
        assert(c == name@[it.index() as int]);
        let fits = ('A' <= c && c <= 'Z') || ('a' <= c && c <= 'z') || ('0' <= c && c <= '9') || c
            == '.' || c == '_' || c == '+' || c == '-';
        if !fits {
            assert(!identifier_char(name@[it.index() as int]));
            return false;
        }
    }
    true
}

/// The error for an unusable name.
pub open spec fn identifier_errors(label: Seq<char>, name: Seq<char>) -> Seq<FindingModel> {
    when(
        !valid_identifier(name),
        report::finding(
            "invalid_identifier"@,
            label + " name '"@ + name
                + "' must match [A-Za-z0-9._+-]+ and must not be '.', '..', 'session', contain '/', or contain NUL"@,
        ),
    )
}

/// `identifier_errors` as a check on one name.
pub open spec fn identifier_check(label: Seq<char>) -> spec_fn(Seq<char>) -> Seq<FindingModel> {
    |name: Seq<char>| identifier_errors(label, name)
}

/// The errors for the unusable names of a list.
pub open spec fn identifier_list_errors(label: Seq<char>, names: Seq<Seq<char>>) -> Seq<
    FindingModel,
> {
    names.flat_map(identifier_check(label))
}

/// Reports a name that may not be used.
pub fn validate_identifier(label: &str, name: &str, report: &mut CommandPolicyValidationReport)
    ensures
        final(report)@ == old(report)@.plus_errors(identifier_errors(label@, name@)),
{
    if !is_valid_identifier(name) {
        report.error(
            "invalid_identifier",
            text::cat4(
                label,
                " name '",
                name,
                "' must match [A-Za-z0-9._+-]+ and must not be '.', '..', 'session', contain '/', or contain NUL",
            ),
        );
    }
}

/// Reports every name of a list that may not be used.
pub fn validate_identifier_list(
    label: &str,
    names: &Vec<String>,
    report: &mut CommandPolicyValidationReport,
)
    ensures
        final(report)@ == old(report)@.plus_errors(
            identifier_list_errors(label@, text::texts(names@)),
        ),
{
    let ghost all = text::texts(names@);
    let ghost check = identifier_check(label@);
    proof {
        lemma_nothing_yet(all, check);
    }
    for i in 0..names.len()
        invariant
            all == text::texts(names@),
            check == identifier_check(label@),
            report@ == old(report)@.plus_errors(all.take(i as int).flat_map(check)),
    {
        validate_identifier(label, names[i].as_str(), report);
        proof {
            all.lemma_flat_map_take_append(check, i as int);
        }
    }
    proof {
        lemma_all_gathered(all, check);
    }
}

/// `name` differs from a member of `earlier` by case at most.
pub open spec fn folds_like_some(earlier: Seq<Seq<char>>, name: Seq<char>) -> bool {
    exists|i: int|
        0 <= i < earlier.len() && #[trigger] text::ascii_folded(earlier[i]) == text::ascii_folded(
            name,
        )
}

/// The errors for a set of names: unusable ones, and those that collide by
/// case with an earlier one.
pub open spec fn identifier_set_errors(label: Seq<char>, names: Seq<Seq<char>>) -> Seq<FindingModel>
    decreases names.len(),
{
    if names.len() == 0 {
        Seq::empty()
    } else {
        let earlier = names.drop_last();
        let name = names.last();
        identifier_set_errors(label, earlier) + identifier_errors(label, name) + when(
            folds_like_some(earlier, name),
            report::finding(
                "case_fold_collision"@,
                label + " name '"@ + name + "' collides with another "@ + label
                    + " name by case"@,
            ),
        )
    }
}

/// Reports the unusable names of a map, and those that collide by case.
pub fn validate_identifier_set<A: View>(
    label: &str,
    names: &NameMap<A>,
    report: &mut CommandPolicyValidationReport,
)
    ensures
        final(report)@ == old(report)@.plus_errors(
            identifier_set_errors(label@, name_map::ordered_keys(names@)),
        ),
{
    let ghost keys = name_map::ordered_keys(names@);
    let n = names.len();
    let mut folded: Vec<String> = Vec::new();
    for i in 0..n
        invariant
            keys == name_map::ordered_keys(names@),
            n == keys.len(),
            folded@.len() == i,
            forall|j: int|
                0 <= j < i ==> #[trigger] text::texts(folded@)[j] == text::ascii_folded(keys[j]),
            report@ == old(report)@.plus_errors(identifier_set_errors(label@, keys.take(i as int))),
    {
        let name = names.name_at(i);
        validate_identifier(label, name.as_str(), report);
        let lower = text::to_ascii_lowercase(name.as_str());
        let collides = text::contains_text(&folded, lower.as_str());
        proof {
            let earlier = keys.take(i as int);
            assert(keys.take(i + 1).drop_last() =~= earlier);
            assert(keys.take(i + 1).last() == name@);
            if collides {
                let j = text::texts(folded@).index_of(lower@);
                assert(text::texts(folded@)[j] == text::ascii_folded(earlier[j]));
            }
            if folds_like_some(earlier, name@) {
                let j = choose|j: int|
                    0 <= j < earlier.len() && #[trigger] text::ascii_folded(earlier[j])
                        == text::ascii_folded(name@);
                assert(text::texts(folded@)[j] == lower@);
            }
        }
        if collides {
            report.error(
                "case_fold_collision",
                text::cat6(
                    label,
                    " name '",
                    name.as_str(),
                    "' collides with another ",
                    label,
                    " name by case",
                ),
            );
        }
        let ghost before = folded@;
        folded.push(lower);
        proof {
            assert(text::texts(folded@) =~= text::texts(before).push(lower@));
        }
    }
    assert(keys.take(n as int) =~= keys);
}

/// A path that starts at the root directory.
pub open spec fn absolute_path(path: Seq<char>) -> bool {
    path.len() > 0 && path[0] == '/'
}

/// The errors for one entry of a list of executable files.
pub open spec fn path_errors(label: Seq<char>, path: Seq<char>) -> Seq<FindingModel> {
    when(
        !absolute_path(path),
        report::finding(
            "invalid_exec_bypass_path"@,
            label + " entry '"@ + path + "' must be an absolute file path"@,
        ),
    ) + when(
        path.contains('\0'),
        report::finding("invalid_exec_bypass_path"@, label + " entry contains NUL"@),
    )
}

/// `path_errors` as a check on one path.
pub open spec fn path_check(label: Seq<char>) -> spec_fn(Seq<char>) -> Seq<FindingModel> {
    |path: Seq<char>| path_errors(label, path)
}

/// The errors for a list of executable files.
pub open spec fn path_list_errors(label: Seq<char>, paths: Seq<Seq<char>>) -> Seq<FindingModel> {
    paths.flat_map(path_check(label))
}

/// Reports a path that is not absolute or contains NUL.
pub fn validate_absolute_file_path(label: &str, path: &str, report: &mut CommandPolicyValidationReport)
    ensures
        final(report)@ == old(report)@.plus_errors(path_errors(label@, path@)),
{
    let absolute = text::starts_with(path, "/");
    proof {
        reveal_strlit("/");
        if absolute_path(path@) {
            assert("/"@ =~= path@.subrange(0, 1));
        } else if absolute {
            assert(path@.subrange(0, 1)[0] == '/');
        }
    }
    if !absolute {
        report.error(
            "invalid_exec_bypass_path",
            text::cat4(label, " entry '", path, "' must be an absolute file path"),
        );
    }
    if text::contains_char(path, '\0') {
        report.error("invalid_exec_bypass_path", text::cat2(label, " entry contains NUL"));
    }
}

/// Reports every path of a list that is not absolute or contains NUL.
pub fn validate_absolute_file_path_list(
    label: &str,
    paths: &Vec<String>,
    report: &mut CommandPolicyValidationReport,
)
    ensures
        final(report)@ == old(report)@.plus_errors(
            path_list_errors(label@, text::texts(paths@)),
        ),
{
    let ghost all = text::texts(paths@);
    let ghost check = path_check(label@);
    proof {
        lemma_nothing_yet(all, check);
    }
    for i in 0..paths.len()
        invariant
            all == text::texts(paths@),
            check == path_check(label@),
            report@ == old(report)@.plus_errors(all.take(i as int).flat_map(check)),
    {
        validate_absolute_file_path(label, paths[i].as_str(), report);
        proof {
            all.lemma_flat_map_take_append(check, i as int);
        }
    }
    proof {
        lemma_all_gathered(all, check);
    }
}

// ---------------------------------------------------------------------------
// Credentials
// ---------------------------------------------------------------------------

/// The field is absent or empty.
pub open spec fn unset(field: Option<Seq<char>>) -> bool {
    match field {
        Some(value) => value.len() == 0,
        None => true,
    }
}

fn is_unset(field: &Option<String>) -> (r: bool)
    ensures
        r == unset(text::opt_text(*field)),
{
    match field {
        Some(value) => value.as_str().is_empty(),
        None => true,
    }
}

/// The errors of a credential definition.
pub open spec fn credential_errors(name: Seq<char>, credential: CredentialModel) -> Seq<
    FindingModel,
> {
    match credential.credential_type {
        CommandCredentialType::SshAgent => when(
            unset(credential.socket),
            report::finding(
                "invalid_credential"@,
                "ssh-agent credential '"@ + name + "' must define socket"@,
            ),
        ) + when(
            credential.path is Some || credential.env_var is Some,
            report::finding(
                "invalid_credential"@,
                "ssh-agent credential '"@ + name + "' cannot define path or env_var"@,
            ),
        ),
        CommandCredentialType::RawFile => when(
            unset(credential.path),
            report::finding(
                "invalid_credential"@,
                "raw-file credential '"@ + name + "' must define path"@,
            ),
        ) + when(
            credential.socket is Some,
            report::finding(
                "invalid_credential"@,
                "raw-file credential '"@ + name + "' cannot define socket"@,
            ),
        ),
    }
}

/// Reports what is wrong with a credential definition.
pub fn validate_credential(
    name: &str,
    credential: &CommandCredentialConfig,
    report: &mut CommandPolicyValidationReport,
)
    ensures
        final(report)@ == old(report)@.plus_errors(credential_errors(name@, credential@)),
{
    match credential.credential_type {
        CommandCredentialType::SshAgent => {
            if is_unset(&credential.socket) {
                report.error(
                    "invalid_credential",
                    text::cat3("ssh-agent credential '", name, "' must define socket"),
                );
            }
            if credential.path.is_some() || credential.env_var.is_some() {
                report.error(
                    "invalid_credential",
                    text::cat3("ssh-agent credential '", name, "' cannot define path or env_var"),
                );
            }
        },
        CommandCredentialType::RawFile => {
            if is_unset(&credential.path) {
                report.error(
                    "invalid_credential",
                    text::cat3("raw-file credential '", name, "' must define path"),
                );
            }
            if credential.socket.is_some() {
                report.error(
                    "invalid_credential",
                    text::cat3("raw-file credential '", name, "' cannot define socket"),
                );
            }
        },
    }
}

// ---------------------------------------------------------------------------
// Environment
// ---------------------------------------------------------------------------

/// How messages refer to the policy of a command for one caller.
pub open spec fn policy_subject(command: Seq<char>, caller: Seq<char>) -> Seq<char> {
    "command '"@ + command + "' from."@ + caller
}

fn policy_subject_text(command: &str, caller: &str) -> (r: String)
    ensures
        r@ == policy_subject(command@, caller@),
{
    text::cat4("command '", command, "' from.", caller)
}

/// A wildcard stands anywhere but at the end of the pattern.
pub open spec fn misplaced_wildcard(pattern: Seq<char>) -> bool {
    exists|i: int| 0 <= i < pattern.len() - 1 && #[trigger] pattern[i] == '*'
}

/// What is wrong with a list of variable patterns: the first one whose
/// wildcard is not trailing.
pub open spec fn allow_vars_error(patterns: Seq<Seq<char>>) -> Option<Seq<char>>
    decreases patterns.len(),
{
    if patterns.len() == 0 {
        None
    } else if misplaced_wildcard(patterns[0]) {
        Some(
            "invalid environment variable pattern '"@ + patterns[0]
                + "': '*' is only allowed at the end"@,
        )
    } else {
        allow_vars_error(patterns.drop_first())
    }
}

fn has_misplaced_wildcard(pattern: &str) -> (r: bool)
    ensures
        r == misplaced_wildcard(pattern@),
{
    let mut seen: bool = false;
    for c in it: pattern.chars()
        invariant
            it.seq() == pattern@,
            seen == exists|i: int| 0 <= i < it.index() && #[trigger] pattern@[i] == '*',
            forall|i: int| 0 <= i < it.index() - 1 ==> #[trigger] pattern@[i] != '*',
    {
        if seen {
            return true;
        }
        if c == '*' {
            assert(pattern@[it.index() as int] == '*');
            seen = true;
        }
    }
    false
}

/// Finds the first pattern whose wildcard is not trailing, and says so.
pub fn validate_allow_vars_pattern(patterns: &Vec<String>) -> (r: Option<String>)
    ensures
        text::opt_text(r) == allow_vars_error(text::texts(patterns@)),
{
    let ghost all = text::texts(patterns@);
    assert(all.skip(0) =~= all);
    for i in 0..patterns.len()
        invariant
            all == text::texts(patterns@),
            allow_vars_error(all) == allow_vars_error(all.skip(i as int)),
    {
        assert(all.skip(i as int)[0] == patterns@[i as int]@);
        assert(all.skip(i as int).drop_first() =~= all.skip(i + 1));
        if has_misplaced_wildcard(patterns[i].as_str()) {
            return Some(
                text::cat3(
                    "invalid environment variable pattern '",
                    patterns[i].as_str(),
                    "': '*' is only allowed at the end",
                ),
            );
        }
    }
    None
}

/// The errors for one pattern of allowed variables.
pub open spec fn pattern_errors(
    command: Seq<char>,
    caller: Seq<char>,
    pattern: Seq<char>,
) -> Seq<FindingModel> {
    when(
        pattern.len() == 0,
        report::finding(
            "invalid_environment_pattern"@,
            policy_subject(command, caller) + " has empty allow_vars pattern"@,
        ),
    ) + when(
        text::repeats(pattern, '*'),
        report::finding(
            "invalid_environment_pattern"@,
            policy_subject(command, caller) + " allow_vars pattern '"@ + pattern
                + "' contains multiple wildcards"@,
        ),
    )
}

/// `pattern_errors` as a check on one pattern.
pub open spec fn pattern_check(command: Seq<char>, caller: Seq<char>) -> spec_fn(Seq<char>) -> Seq<
    FindingModel,
> {
    |pattern: Seq<char>| pattern_errors(command, caller, pattern)
}

/// The error for a rejected list of patterns.
pub open spec fn rejection_errors(
    command: Seq<char>,
    caller: Seq<char>,
    rejection: Option<Seq<char>>,
) -> Seq<FindingModel> {
    match rejection {
        Some(reason) => seq![
            report::finding(
                "invalid_environment_pattern"@,
                policy_subject(command, caller) + ": "@ + reason,
            ),
        ],
        None => Seq::empty(),
    }
}

/// A variable that a policy may set: a plain name, neither `PATH` nor one
/// reserved for the supervisor.
pub open spec fn settable_var(name: Seq<char>) -> bool {
    &&& name.len() > 0
    &&& name != "PATH"@
    &&& !"NONO_"@.is_prefix_of(name)
    &&& !name.contains('*')
    &&& !name.contains('=')
    &&& !name.contains('\0')
}

/// Tells whether a policy may set the variable `name`.
pub fn valid_set_var_name(name: &str) -> (r: bool)
    ensures
        r == settable_var(name@),
{
    !name.is_empty() && !text::text_eq(name, "PATH") && !text::starts_with(name, "NONO_")
        && !text::contains_char(name, '*') && !text::contains_char(name, '=')
        && !text::contains_char(name, '\0')
}

/// The check on the name of a variable to set.
pub open spec fn set_name_check(command: Seq<char>, caller: Seq<char>) -> spec_fn(Seq<char>) -> Seq<
    FindingModel,
> {
    |name: Seq<char>|
        when(
            !settable_var(name),
            report::finding(
                "invalid_environment_set_var"@,
                policy_subject(command, caller) + " has invalid set_vars name '"@ + name + "'"@,
            ),
        )
}

/// The check on the value of a variable to set.
pub open spec fn set_value_check(
    command: Seq<char>,
    caller: Seq<char>,
    set_vars: Map<Seq<char>, Seq<char>>,
) -> spec_fn(Seq<char>) -> Seq<FindingModel> {
    |name: Seq<char>|
        when(
            set_vars[name].contains('\0'),
            report::finding(
                "invalid_environment_set_var"@,
                policy_subject(command, caller) + " set_vars value for '"@ + name
                    + "' contains NUL"@,
            ),
        )
}

/// The errors of an environment, given what the check of its patterns as a
/// whole said.
pub open spec fn environment_errors(
    command: Seq<char>,
    caller: Seq<char>,
    environment: EnvironmentModel,
    rejection: Option<Seq<char>>,
) -> Seq<FindingModel> {
    let names = name_map::ordered_keys(environment.set_vars);
    (match environment.allow_vars {
        Some(patterns) => patterns.flat_map(pattern_check(command, caller)) + rejection_errors(
            command,
            caller,
            rejection,
        ),
        None => Seq::empty(),
    }) + names.flat_map(set_name_check(command, caller)) + names.flat_map(
        set_value_check(command, caller, environment.set_vars),
    )
}

fn validate_allow_vars(
    command_name: &str,
    caller: &str,
    allow_vars: &Vec<String>,
    report: &mut CommandPolicyValidationReport,
)
    ensures
        final(report)@ == old(report)@.plus_errors(
            text::texts(allow_vars@).flat_map(pattern_check(command_name@, caller@)),
        ),
{
    let subject = policy_subject_text(command_name, caller);
    let ghost all = text::texts(allow_vars@);
    let ghost check = pattern_check(command_name@, caller@);
    proof {
        lemma_nothing_yet(all, check);
    }
    for i in 0..allow_vars.len()
        invariant
            all == text::texts(allow_vars@),
            check == pattern_check(command_name@, caller@),
            subject@ == policy_subject(command_name@, caller@),
            report@ == old(report)@.plus_errors(all.take(i as int).flat_map(check)),
    {
        let pattern = allow_vars[i].as_str();
        if pattern.is_empty() {
            report.error(
                "invalid_environment_pattern",
                text::cat2(subject.as_str(), " has empty allow_vars pattern"),
            );
        }
        if text::occurs_repeatedly(pattern, '*') {
            report.error(
                "invalid_environment_pattern",
                text::cat4(
                    subject.as_str(),
                    " allow_vars pattern '",
                    pattern,
                    "' contains multiple wildcards",
                ),
            );
        }
        proof {
            all.lemma_flat_map_take_append(check, i as int);
            assert(all[i as int] == pattern@);
        }
    }
    proof {
        lemma_all_gathered(all, check);
    }
}

fn validate_set_var_names(
    command_name: &str,
    caller: &str,
    set_vars: &NameMap<String>,
    report: &mut CommandPolicyValidationReport,
)
    ensures
        final(report)@ == old(report)@.plus_errors(
            name_map::ordered_keys(set_vars@).flat_map(
                set_name_check(command_name@, caller@),
            ),
        ),
{
    let subject = policy_subject_text(command_name, caller);
    let ghost names = name_map::ordered_keys(set_vars@);
    let ghost check = set_name_check(command_name@, caller@);
    proof {
        lemma_nothing_yet(names, check);
    }
    let n = set_vars.len();
    for i in 0..n
        invariant
            names == name_map::ordered_keys(set_vars@),
            n == names.len(),
            check == set_name_check(command_name@, caller@),
            subject@ == policy_subject(command_name@, caller@),
            report@ == old(report)@.plus_errors(names.take(i as int).flat_map(check)),
    {
        let name = set_vars.name_at(i);
        if !valid_set_var_name(name.as_str()) {
            report.error(
                "invalid_environment_set_var",
                text::cat4(subject.as_str(), " has invalid set_vars name '", name.as_str(), "'"),
            );
        }
        proof {
            names.lemma_flat_map_take_append(check, i as int);
        }
    }
    proof {
        lemma_all_gathered(names, check);
    }
}

fn validate_set_var_values(
    command_name: &str,
    caller: &str,
    set_vars: &NameMap<String>,
    report: &mut CommandPolicyValidationReport,
)
    ensures
        final(report)@ == old(report)@.plus_errors(
            name_map::ordered_keys(set_vars@).flat_map(
                set_value_check(command_name@, caller@, set_vars@),
            ),
        ),
{
    let subject = policy_subject_text(command_name, caller);
    let ghost names = name_map::ordered_keys(set_vars@);
    let ghost check = set_value_check(command_name@, caller@, set_vars@);
    proof {
        lemma_nothing_yet(names, check);
    }
    let n = set_vars.len();
    for i in 0..n
        invariant
            names == name_map::ordered_keys(set_vars@),
            n == names.len(),
            check == set_value_check(command_name@, caller@, set_vars@),
            subject@ == policy_subject(command_name@, caller@),
            report@ == old(report)@.plus_errors(names.take(i as int).flat_map(check)),
    {
        let name = set_vars.name_at(i);
        let value = set_vars.value_at(i);
        if text::contains_char(value.as_str(), '\0') {
            report.error(
                "invalid_environment_set_var",
                text::cat4(
                    subject.as_str(),
                    " set_vars value for '",
                    name.as_str(),
                    "' contains NUL",
                ),
            );
        }
        proof {
            names.lemma_flat_map_take_append(check, i as int);
        }
    }
    proof {
        lemma_all_gathered(names, check);
    }
}

/// Reports what is wrong with an environment. `rejection` is what the check
/// of the allowed patterns as a whole said, if it rejected them.
pub fn validate_environment(
    command_name: &str,
    caller: &str,
    environment: &CommandEnvironmentConfig,
    rejection: &Option<String>,
    report: &mut CommandPolicyValidationReport,
)
    ensures
        final(report)@ == old(report)@.plus_errors(
            environment_errors(
                command_name@,
                caller@,
                environment@,
                text::opt_text(*rejection),
            ),
        ),
{
    if let Some(allow_vars) = &environment.allow_vars {
        validate_allow_vars(command_name, caller, allow_vars, report);
        if let Some(reason) = rejection {
            report.error(
                "invalid_environment_pattern",
                text::cat3(
                    policy_subject_text(command_name, caller).as_str(),
                    ": ",
                    reason.as_str(),
                ),
            );
        }
    }
    validate_set_var_names(command_name, caller, &environment.set_vars, report);
    validate_set_var_values(command_name, caller, &environment.set_vars, report);
}

// ---------------------------------------------------------------------------
// Sandboxes
// ---------------------------------------------------------------------------

/// The check on one argument that a sandbox puts before the caller's own.
pub open spec fn argv_check(command: Seq<char>, caller: Seq<char>) -> spec_fn(Seq<char>) -> Seq<
    FindingModel,
> {
    |arg: Seq<char>|
        when(
            arg.contains('\0'),
            report::finding(
                "invalid_argv_prepend"@,
                policy_subject(command, caller) + " argv_prepend contains NUL"@,
            ),
        )
}

/// Reports every prepended argument that contains NUL.
pub fn validate_argv_prepend(
    command_name: &str,
    caller: &str,
    argv_prepend: &Vec<String>,
    report: &mut CommandPolicyValidationReport,
)
    ensures
        final(report)@ == old(report)@.plus_errors(
            text::texts(argv_prepend@).flat_map(argv_check(command_name@, caller@)),
        ),
{
    let ghost all = text::texts(argv_prepend@);
    let ghost check = argv_check(command_name@, caller@);
    proof {
        lemma_nothing_yet(all, check);
    }
    for i in 0..argv_prepend.len()
        invariant
            all == text::texts(argv_prepend@),
            check == argv_check(command_name@, caller@),
            report@ == old(report)@.plus_errors(all.take(i as int).flat_map(check)),
    {
        if text::contains_char(argv_prepend[i].as_str(), '\0') {
            report.error(
                "invalid_argv_prepend",
                text::cat2(
                    policy_subject_text(command_name, caller).as_str(),
                    " argv_prepend contains NUL",
                ),
            );
        }
        proof {
            all.lemma_flat_map_take_append(check, i as int);
            assert(all[i as int] == argv_prepend@[i as int]@);
        }
    }
    proof {
        lemma_all_gathered(all, check);
    }
}

/// The errors of a network configuration: hosts can be restricted only
/// through a proxy helper.
pub open spec fn network_errors(
    command: Seq<char>,
    caller: Seq<char>,
    network: NetworkModel,
) -> Seq<FindingModel> {
    when(
        network.allowed_hosts.len() > 0 && unset(network.proxy_helper),
        report::finding(
            "unenforceable_allowed_hosts"@,
            policy_subject(command, caller) + " uses allowed_hosts without proxy_helper"@,
        ),
    )
}

/// The warnings of a network configuration: raw ports bypass host filtering.
pub open spec fn network_warnings(
    command: Seq<char>,
    caller: Seq<char>,
    network: NetworkModel,
) -> Seq<FindingModel> {
    when(
        network.tcp_connect_ports.len() > 0 || network.tcp_bind_ports.len() > 0,
        report::finding(
            "raw_tcp_ports"@,
            policy_subject(command, caller)
                + " uses raw TCP port rules; these are not hostname-filtered"@,
        ),
    )
}

/// Reports what is wrong with, or worth knowing about, a network
/// configuration.
pub fn validate_network(
    command_name: &str,
    caller: &str,
    network: &CommandNetworkConfig,
    report: &mut CommandPolicyValidationReport,
)
    ensures
        final(report)@ == old(report)@.plus(
            network_errors(command_name@, caller@, network@),
            network_warnings(command_name@, caller@, network@),
        ),
{
    if network.allowed_hosts.len() > 0 && is_unset(&network.proxy_helper) {
        report.error(
            "unenforceable_allowed_hosts",
            text::cat2(
                policy_subject_text(command_name, caller).as_str(),
                " uses allowed_hosts without proxy_helper",
            ),
        );
    }
    if network.tcp_connect_ports.len() > 0 || network.tcp_bind_ports.len() > 0 {
        report.warning(
            "raw_tcp_ports",
            text::cat2(
                policy_subject_text(command_name, caller).as_str(),
                " uses raw TCP port rules; these are not hostname-filtered",
            ),
        );
    }
}

/// The check on one credential that a sandbox uses: it must be defined, and a
/// raw file needs an opt-in unless the session itself is the caller.
pub open spec fn credential_use_check(
    command: Seq<char>,
    caller: Seq<char>,
    sandbox: SandboxModel,
    credentials: Map<Seq<char>, CredentialModel>,
) -> spec_fn(Seq<char>) -> Seq<FindingModel> {
    |name: Seq<char>|
        if !credentials.dom().contains(name) {
            seq![
                report::finding(
                    "unknown_credential"@,
                    policy_subject(command, caller) + " references unknown credential '"@ + name
                        + "'"@,
                ),
            ]
        } else {
            when(
                caller != "session"@ && credentials[name].credential_type
                    == CommandCredentialType::RawFile
                    && !sandbox.allow_raw_file_credentials_in_chained_policy,
                report::finding(
                    "raw_file_credential_in_chained_policy"@,
                    policy_subject(command, caller) + " references raw-file credential '"@ + name
                        + "' without allow_raw_file_credentials_in_chained_policy"@,
                ),
            )
        }
}

/// Reports every credential of a sandbox that is unknown or needs an opt-in.
pub fn validate_sandbox_credentials(
    command_name: &str,
    caller: &str,
    sandbox: &CommandSandboxConfig,
    config: &CommandPoliciesConfig,
    report: &mut CommandPolicyValidationReport,
)
    ensures
        final(report)@ == old(report)@.plus_errors(
            sandbox@.use_credentials.flat_map(
                credential_use_check(command_name@, caller@, sandbox@, config@.credentials),
            ),
        ),
{
    let subject = policy_subject_text(command_name, caller);
    let from_session = text::text_eq(caller, "session");
    let ghost all = sandbox@.use_credentials;
    let ghost check = credential_use_check(command_name@, caller@, sandbox@, config@.credentials);
    proof {
        lemma_nothing_yet(all, check);
    }
    for i in 0..sandbox.use_credentials.len()
        invariant
            all == sandbox@.use_credentials,
            check == credential_use_check(
                command_name@,
                caller@,
                sandbox@,
                config@.credentials,
            ),
            subject@ == policy_subject(command_name@, caller@),
            from_session == (caller@ == "session"@),
            report@ == old(report)@.plus_errors(all.take(i as int).flat_map(check)),
    {
        let name = sandbox.use_credentials[i].as_str();
        match config.credentials.get(name) {
            None => {
                report.error(
                    "unknown_credential",
                    text::cat4(
                        subject.as_str(),
                        " references unknown credential '",
                        name,
                        "'",
                    ),
                );
            },
            Some(credential) => {
                if !from_session && credential.credential_type == CommandCredentialType::RawFile
                    && !sandbox.allow_raw_file_credentials_in_chained_policy {
                    report.error(
                        "raw_file_credential_in_chained_policy",
                        text::cat4(
                            subject.as_str(),
                            " references raw-file credential '",
                            name,
                            "' without allow_raw_file_credentials_in_chained_policy",
                        ),
                    );
                }
            },
        }
        proof {
            all.lemma_flat_map_take_append(check, i as int);
            assert(all[i as int] == name@);
        }
    }
    proof {
        lemma_all_gathered(all, check);
    }
}

/// The errors of a sandbox.
pub open spec fn sandbox_errors(
    command: Seq<char>,
    caller: Seq<char>,
    sandbox: SandboxModel,
    config: PoliciesModel,
    scope: CommandPolicyValidationScope,
) -> Seq<FindingModel> {
    identifier_list_errors(
        "commands."@ + command + ".from."@ + caller + ".use_credentials"@,
        sandbox.use_credentials,
    ) + (match sandbox.environment {
        Some(environment) => environment_errors(
            command,
            caller,
            environment,
            match environment.allow_vars {
                Some(patterns) => allow_vars_error(patterns),
                None => None,
            },
        ),
        None => Seq::empty(),
    }) + sandbox.argv_prepend.flat_map(argv_check(command, caller)) + (match sandbox.network {
        Some(network) => network_errors(command, caller, network),
        None => Seq::empty(),
    }) + (if scope == CommandPolicyValidationScope::Resolved {
        sandbox.use_credentials.flat_map(
            credential_use_check(command, caller, sandbox, config.credentials),
        )
    } else {
        Seq::empty()
    })
}

/// The warnings of a sandbox.
pub open spec fn sandbox_warnings(
    command: Seq<char>,
    caller: Seq<char>,
    sandbox: SandboxModel,
) -> Seq<FindingModel> {
    match sandbox.network {
        Some(network) => network_warnings(command, caller, network),
        None => Seq::empty(),
    }
}

/// Reports what is wrong with, or worth knowing about, a sandbox.
pub fn validate_sandbox(
    command_name: &str,
    caller: &str,
    sandbox: &CommandSandboxConfig,
    config: &CommandPoliciesConfig,
    scope: CommandPolicyValidationScope,
    report: &mut CommandPolicyValidationReport,
)
    ensures
        final(report)@ == old(report)@.plus(
            sandbox_errors(command_name@, caller@, sandbox@, config@, scope),
            sandbox_warnings(command_name@, caller@, sandbox@),
        ),
{
    let label = text::cat5("commands.", command_name, ".from.", caller, ".use_credentials");
    validate_identifier_list(label.as_str(), &sandbox.use_credentials, report);
    if let Some(environment) = &sandbox.environment {
        let rejection = match &environment.allow_vars {
            Some(patterns) => validate_allow_vars_pattern(patterns),
            None => None,
        };
        validate_environment(command_name, caller, environment, &rejection, report);
    }
    validate_argv_prepend(command_name, caller, &sandbox.argv_prepend, report);
    if let Some(network) = &sandbox.network {
        validate_network(command_name, caller, network, report);
    }
    if scope == CommandPolicyValidationScope::Resolved {
        validate_sandbox_credentials(command_name, caller, sandbox, config, report);
    }
}

} // verus!
