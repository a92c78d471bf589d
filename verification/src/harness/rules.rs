//! Sandbox rules for what a scan found.
use landlock::Access;
use vstd::prelude::*;

use crate::error::{ErrorModel, NonoError};
use crate::harness::collect;
use crate::harness::collect::{ScanModel, ScanOutput};
use crate::path_list;
use crate::paths;
use crate::paths::FilePath;
use crate::text;

verus! {

// ---------------------------------------------------------------------------
// Access rights
// ---------------------------------------------------------------------------

/// The right to execute a file.
pub const EXECUTE: u64 = 1;

/// The right to write to a file.
pub const WRITE_FILE: u64 = 2;

/// The right to read a file.
pub const READ_FILE: u64 = 4;

/// The right to list a directory.
pub const READ_DIR: u64 = 8;

/// The right to create a socket.
pub const MAKE_SOCK: u64 = 512;

/// The rights that a version of the kernel interface knows, one bit each.
pub open spec fn known_rights(abi: i32) -> u64 {
    if abi <= 0 {
        0
    } else if abi == 1 {
        0x1fff
    } else if abi == 2 {
        0x3fff
    } else if abi <= 4 {
        0x7fff
    } else if abi <= 8 {
        0xffff
    } else {
        0x1ffff
    }
}

/// `landlock::AccessFs::from_all` for the version that `landlock::ABI::from`
/// makes of a number: no right where the interface is missing; the thirteen
/// rights of the first version; one more, to move files between directories,
/// from the second; one more, to truncate, from the third; one more, to control
/// devices, from the fifth; and one more, to connect to sockets, from the ninth.
#[verifier::external_body]
fn all_rights(abi: i32) -> (r: u64)
    ensures
        r == known_rights(abi),
{
    landlock::AccessFs::from_all(landlock::ABI::from(abi)).bits()
}

/// Keeps the rights that a version of the kernel interface knows.
pub fn supported(abi: i32, access: u64) -> (r: u64)
    ensures
        r == access & known_rights(abi),
{
    access & all_rights(abi)
}

/// The rights that the sandbox takes in hand.
pub fn handled_rights(abi: i32) -> (r: u64)
    ensures
        r == known_rights(abi),
{
    all_rights(abi)
}

// ---------------------------------------------------------------------------
// Rules
// ---------------------------------------------------------------------------

/// What may be done beneath a path.
#[derive(Debug, PartialEq, Eq)]
pub struct ExtraRule {
    pub path: FilePath,
    pub access: u64,
}

/// What a rule stands for.
#[verifier::ext_equal]
pub struct RuleModel {
    pub path: Seq<u8>,
    pub access: u64,
}

impl View for ExtraRule {
    type V = RuleModel;

    open spec fn view(&self) -> RuleModel {
        RuleModel { path: self.path@, access: self.access }
    }
}

/// One rule for every path.
pub open spec fn rules_for(list: Seq<Seq<u8>>, access: u64) -> Seq<RuleModel> {
    list.map_values(|path: Seq<u8>| RuleModel { path, access })
}

/// The rules for what a scan found: executables can be read and executed, the
/// directories that hold them can be listed, and what supports them can be
/// read.
pub open spec fn planned_rules(abi: i32, scan: ScanModel, extra: Seq<RuleModel>) -> Seq<
    RuleModel,
> {
    let known = known_rights(abi);
    rules_for(scan.executable_files, (READ_FILE | EXECUTE) & known) + rules_for(
        collect::parent_dirs(scan.executable_files),
        READ_DIR & known,
    ) + rules_for(scan.support_dirs, (READ_FILE | READ_DIR | EXECUTE) & known) + rules_for(
        scan.support_files,
        READ_FILE & known,
    ) + extra
}

fn push_rule(rules: &mut Vec<ExtraRule>, path: FilePath, access: u64)
    ensures
        text::views(final(rules)@) == text::views(old(rules)@).push(
            RuleModel { path: path@, access },
        ),
{
    let ghost before = text::views(rules@);
    let ghost value = RuleModel { path: path@, access };
    rules.push(ExtraRule { path, access });
    assert(text::views(rules@) =~= before.push(value));
}

fn push_rules(rules: &mut Vec<ExtraRule>, list: &Vec<FilePath>, access: u64)
    ensures
        text::views(final(rules)@) == text::views(old(rules)@) + rules_for(
            text::views(list@),
            access,
        ),
{
    let ghost before = text::views(rules@);
    let ghost all = rules_for(text::views(list@), access);
    assert(before + all.take(0) =~= before);
    for i in 0..list.len()
        invariant
            all == rules_for(text::views(list@), access),
            text::views(rules@) == before + all.take(i as int),
    {
        push_rule(rules, list[i].clone(), access);
        assert(all[i as int] == RuleModel { path: list@[i as int]@, access });
        assert(all.take(i + 1) =~= all.take(i as int).push(all[i as int]));
    }
    assert(all.take(all.len() as int) =~= all);
}

/// Plans the rules for what a scan found, and some more.
pub fn build_ruleset_with_extra(abi: i32, scan: &ScanOutput, extra_rules: &Vec<ExtraRule>) -> (r:
    Vec<ExtraRule>)
    ensures
        text::views(r@) == planned_rules(abi, scan@, text::views(extra_rules@)),
{
    let mut rules: Vec<ExtraRule> = Vec::new();
    assert(text::views(rules@) =~= Seq::empty());
    push_rules(&mut rules, &scan.executable_files, supported(abi, READ_FILE | EXECUTE));
    let dirs = collect::executable_parent_dirs(&scan.executable_files);
    push_rules(&mut rules, &dirs, supported(abi, READ_DIR));
    push_rules(
        &mut rules,
        &scan.support_dirs,
        supported(abi, READ_FILE | READ_DIR | EXECUTE),
    );
    push_rules(&mut rules, &scan.support_files, supported(abi, READ_FILE));
    let ghost before = text::views(rules@);
    let ghost all = text::views(extra_rules@);
    assert(before + all.take(0) =~= before);
    for i in 0..extra_rules.len()
        invariant
            all == text::views(extra_rules@),
            text::views(rules@) == before + all.take(i as int),
    {
        push_rule(&mut rules, extra_rules[i].path.clone(), extra_rules[i].access);
        assert(all.take(i + 1) =~= all.take(i as int).push(extra_rules@[i as int]@));
    }
    assert(all.take(all.len() as int) =~= all);
    rules
}

/// Plans the rules for what a scan found.
pub fn build_ruleset(abi: i32, scan: &ScanOutput) -> (r: Vec<ExtraRule>)
    ensures
        text::views(r@) == planned_rules(abi, scan@, Seq::empty()),
{
    let none: Vec<ExtraRule> = Vec::new();
    assert(text::views(none@) =~= Seq::empty());
    build_ruleset_with_extra(abi, scan, &none)
}

/// Words why a rule could not be added.
pub fn add_path_rule(path: &FilePath, reason: &str) -> (r: NonoError)
    ensures
        r@ == ErrorModel::SandboxInit(
            "cannot add Landlock rule for "@ + paths::shown(path@) + ": "@ + reason@,
        ),
{
    NonoError::SandboxInit(
        text::cat4("cannot add Landlock rule for ", path.display().as_str(), ": ", reason),
    )
}

// ---------------------------------------------------------------------------
// Rules for sessions and commands
// ---------------------------------------------------------------------------

/// Everything that using a supervisor's socket takes.
pub open spec fn socket_rights() -> u64 {
    READ_FILE | READ_DIR | EXECUTE | WRITE_FILE | MAKE_SOCK
}

/// The error for a socket that lies nowhere.
pub open spec fn no_socket_parent(socket: Seq<u8>) -> ErrorModel {
    ErrorModel::Setup("socket path has no parent: "@ + paths::shown(socket))
}

/// The rules of a session beside what it scanned: its shim, and the directory
/// of the supervisor's socket.
pub open spec fn session_rules(abi: i32, shim: Seq<u8>, socket: Seq<u8>) -> Result<
    Seq<RuleModel>,
    ErrorModel,
> {
    match paths::parent_path(socket) {
        None => Err(no_socket_parent(socket)),
        Some(parent) => Ok(
            seq![
                RuleModel { path: shim, access: (READ_FILE | EXECUTE) & known_rights(abi) },
                RuleModel { path: parent, access: socket_rights() & known_rights(abi) },
            ],
        ),
    }
}

/// A result with its rules taken by what they stand for.
pub open spec fn rules_outcome(r: Result<Vec<ExtraRule>, NonoError>) -> Result<
    Seq<RuleModel>,
    ErrorModel,
> {
    match r {
        Ok(rules) => Ok(text::views(rules@)),
        Err(error) => Err(error@),
    }
}

/// Plans the rules of a session beside what it scanned.
pub fn session_extra_rules(abi: i32, shim: &FilePath, socket: &FilePath) -> (r: Result<
    Vec<ExtraRule>,
    NonoError,
>)
    ensures
        rules_outcome(r) == session_rules(abi, shim@, socket@),
{
    match socket.parent() {
        None => Err(
            NonoError::Setup(
                text::cat2("socket path has no parent: ", socket.display().as_str()),
            ),
        ),
        Some(parent) => {
            let mut rules: Vec<ExtraRule> = Vec::new();
            assert(text::views(rules@) =~= Seq::empty());
            push_rule(&mut rules, shim.clone(), supported(abi, READ_FILE | EXECUTE));
            push_rule(
                &mut rules,
                parent,
                supported(abi, READ_FILE | READ_DIR | EXECUTE | WRITE_FILE | MAKE_SOCK),
            );
            assert(text::views(rules@) =~= session_rules(abi, shim@, socket@)->Ok_0);
            Ok(rules)
        },
    }
}

/// Which devices are there.
#[derive(Debug, Clone, Copy, PartialEq, Eq, Structural)]
pub struct Devices {
    pub null: bool,
    pub zero: bool,
    pub urandom: bool,
}

/// The rules for the devices that are there.
pub open spec fn device_rules(abi: i32, devices: Devices) -> Seq<RuleModel> {
    let rule = |there: bool, path: Seq<char>, access: u64|
        if there {
            seq![
                RuleModel {
                    path: vstd::utf8::encode_utf8(path),
                    access: access & known_rights(abi),
                },
            ]
        } else {
            Seq::empty()
        };
    rule(devices.null, "/dev/null"@, READ_FILE | WRITE_FILE) + rule(
        devices.zero,
        "/dev/zero"@,
        READ_FILE,
    ) + rule(devices.urandom, "/dev/urandom"@, READ_FILE)
}

/// Plans the rules for the devices that are there.
pub fn command_device_rules(abi: i32, devices: Devices) -> (r: Vec<ExtraRule>)
    ensures
        text::views(r@) == device_rules(abi, devices),
{
    let mut rules: Vec<ExtraRule> = Vec::new();
    assert(text::views(rules@) =~= Seq::empty());
    if devices.null {
        push_rule(
            &mut rules,
            FilePath::from_text("/dev/null"),
            supported(abi, READ_FILE | WRITE_FILE),
        );
    }
    if devices.zero {
        push_rule(&mut rules, FilePath::from_text("/dev/zero"), supported(abi, READ_FILE));
    }
    if devices.urandom {
        push_rule(&mut rules, FilePath::from_text("/dev/urandom"), supported(abi, READ_FILE));
    }
    assert(text::views(rules@) =~= device_rules(abi, devices));
    rules
}

/// What the file system says of a shim.
#[derive(Debug, Clone, Copy, PartialEq, Eq, Structural)]
pub enum ShimKind {
    Missing,
    Directory,
    Other,
}

/// The rules for a shim: a directory of shims can be read and executed; a single
/// shim too, and the directory that holds it can be listed.
pub open spec fn shim_rules(abi: i32, shim: Seq<u8>, kind: ShimKind) -> Seq<RuleModel> {
    let known = known_rights(abi);
    match kind {
        ShimKind::Missing => Seq::empty(),
        ShimKind::Directory => seq![
            RuleModel { path: shim, access: (READ_FILE | READ_DIR | EXECUTE) & known },
        ],
        ShimKind::Other => seq![
            RuleModel { path: shim, access: (READ_FILE | EXECUTE) & known },
        ] + (match paths::parent_path(shim) {
            Some(parent) => seq![RuleModel { path: parent, access: READ_DIR & known }],
            None => Seq::empty(),
        }),
    }
}

/// The rules of a command's context: its shim, and the directory of the
/// supervisor's socket.
pub open spec fn context_rules(
    abi: i32,
    shim: Option<(Seq<u8>, ShimKind)>,
    socket: Option<Seq<u8>>,
) -> Result<Seq<RuleModel>, ErrorModel> {
    let first = match shim {
        Some((path, kind)) => shim_rules(abi, path, kind),
        None => Seq::empty(),
    };
    match socket {
        None => Ok(first),
        Some(socket) => match paths::parent_path(socket) {
            None => Err(no_socket_parent(socket)),
            Some(parent) => Ok(
                first + seq![
                    RuleModel { path: parent, access: socket_rights() & known_rights(abi) },
                ],
            ),
        },
    }
}

/// Plans the rules of a command's context. `shim` comes with what the file
/// system says of it.
pub fn append_command_context_rules(
    abi: i32,
    shim: Option<(&FilePath, ShimKind)>,
    socket: Option<&FilePath>,
) -> (r: Result<Vec<ExtraRule>, NonoError>)
    ensures
        rules_outcome(r) == context_rules(
            abi,
            match shim {
                Some((path, kind)) => Some((path@, kind)),
                None => None,
            },
            match socket {
                Some(path) => Some(path@),
                None => None,
            },
        ),
{
    let mut rules: Vec<ExtraRule> = Vec::new();
    assert(text::views(rules@) =~= Seq::empty());
    if let Some((path, kind)) = shim {
        match kind {
            ShimKind::Missing => {},
            ShimKind::Directory => {
                push_rule(
                    &mut rules,
                    path.clone(),
                    supported(abi, READ_FILE | READ_DIR | EXECUTE),
                );
            },
            ShimKind::Other => {
                push_rule(&mut rules, path.clone(), supported(abi, READ_FILE | EXECUTE));
                if let Some(parent) = path.parent() {
                    push_rule(&mut rules, parent, supported(abi, READ_DIR));
                }
            },
        }
        assert(text::views(rules@) =~= shim_rules(abi, path@, kind));
    }
    let ghost first = text::views(rules@);
    if let Some(socket) = socket {
        match socket.parent() {
            None => {
                return Err(
                    NonoError::Setup(
                        text::cat2("socket path has no parent: ", socket.display().as_str()),
                    ),
                );
            },
            Some(parent) => {
                let ghost rule = RuleModel {
                    path: parent@,
                    access: socket_rights() & known_rights(abi),
                };
                push_rule(
                    &mut rules,
                    parent,
                    supported(abi, READ_FILE | READ_DIR | EXECUTE | WRITE_FILE | MAKE_SOCK),
                );
                assert(text::views(rules@) =~= first + seq![rule]);
            },
        }
    }
    Ok(rules)
}

// ---------------------------------------------------------------------------
// Enforcement
// ---------------------------------------------------------------------------

/// How far the kernel enforces the rules.
#[derive(Debug, Clone, Copy, PartialEq, Eq, Structural)]
pub enum Enforcement {
    Fully,
    Partially,
    Missing,
}

/// Restricting succeeds if the kernel enforces the rules at least in part.
pub open spec fn restricted(status: Result<Enforcement, Seq<char>>) -> Result<(), ErrorModel> {
    match status {
        Err(reason) => Err(ErrorModel::SandboxInit("restrict_self failed: "@ + reason)),
        Ok(Enforcement::Missing) => Err(
            ErrorModel::SandboxInit("Landlock ruleset was not enforced: NotEnforced"@),
        ),
        Ok(_) => Ok(()),
    }
}

/// Judges what came of restricting a process.
pub fn restrict_ruleset(status: Result<Enforcement, String>) -> (r: Result<(), NonoError>)
    ensures
        crate::error::result_view(r) == restricted(
            match status {
                Ok(status) => Ok(status),
                Err(reason) => Err(reason@),
            },
        ),
{
    match status {
        Err(reason) => Err(
            NonoError::SandboxInit(text::cat2("restrict_self failed: ", reason.as_str())),
        ),
        Ok(Enforcement::Missing) => Err(
            NonoError::SandboxInit("Landlock ruleset was not enforced: NotEnforced".to_owned()),
        ),
        Ok(_) => Ok(()),
    }
}

// ---------------------------------------------------------------------------
// What holds of every plan
// ---------------------------------------------------------------------------

/// No rule grants a right that the kernel interface does not know.
pub proof fn law_rules_are_supported(abi: i32, scan: ScanModel, i: int)
    requires
        0 <= i < planned_rules(abi, scan, Seq::empty()).len(),
    ensures
        planned_rules(abi, scan, Seq::empty())[i].access & known_rights(abi)
            == planned_rules(abi, scan, Seq::empty())[i].access,
{
    let known = known_rights(abi);
    let a = READ_FILE | EXECUTE;
    let b = READ_DIR;
    let c = READ_FILE | READ_DIR | EXECUTE;
    let d = READ_FILE;
    assert((a & known) & known == a & known) by (bit_vector);
    assert((b & known) & known == b & known) by (bit_vector);
    assert((c & known) & known == c & known) by (bit_vector);
    assert((d & known) & known == d & known) by (bit_vector);
    let plan = planned_rules(abi, scan, Seq::empty());
    let access = plan[i].access;
    assert(access == a & known || access == b & known || access == c & known || access == d
        & known);
}

/// Nothing that a scan plans can be written to.
pub proof fn law_scanned_files_stay_read_only(abi: i32, scan: ScanModel, i: int)
    requires
        0 <= i < planned_rules(abi, scan, Seq::empty()).len(),
    ensures
        planned_rules(abi, scan, Seq::empty())[i].access & WRITE_FILE == 0,
{
    let known = known_rights(abi);
    assert(((4u64 | 1u64) & known) & 2u64 == 0) by (bit_vector);
    assert((8u64 & known) & 2u64 == 0) by (bit_vector);
    assert(((4u64 | 8u64 | 1u64) & known) & 2u64 == 0) by (bit_vector);
    assert((4u64 & known) & 2u64 == 0) by (bit_vector);
    let access = planned_rules(abi, scan, Seq::empty())[i].access;
    assert(access == (READ_FILE | EXECUTE) & known || access == READ_DIR & known || access == (
    READ_FILE | READ_DIR | EXECUTE) & known || access == READ_FILE & known);
}

proof fn lemma_parents_members(files: Seq<Seq<u8>>)
    ensures
        forall|p: Seq<u8>| #[trigger]
            collect::parents(files).contains(p) <==> exists|f: Seq<u8>| #[trigger]
                files.contains(f) && paths::parent_path(f) == Some(p),
    decreases files.len(),
{
    if files.len() > 0 {
        let front = files.drop_last();
        let last = files.last();
        let before = collect::parents(front);
        lemma_parents_members(front);
        assert(files =~= front.push(last));
        assert forall|p: Seq<u8>| #[trigger]
            collect::parents(files).contains(p) <==> exists|f: Seq<u8>| #[trigger]
                files.contains(f) && paths::parent_path(f) == Some(p) by {
            if let Some(parent) = paths::parent_path(last) {
                vstd::seq_lib::lemma_seq_contains_after_push(before, parent, p);
            }
            assert(before.contains(p) <==> exists|f: Seq<u8>| #[trigger]
                front.contains(f) && paths::parent_path(f) == Some(p));
            assert forall|f: Seq<u8>| files.contains(f) <==> f == last || front.contains(f) by {
                vstd::seq_lib::lemma_seq_contains_after_push(front, last, f);
            }
            if collect::parents(files).contains(p) {
                if before.contains(p) {
                    let f = choose|f: Seq<u8>| #[trigger]
                        front.contains(f) && paths::parent_path(f) == Some(p);
                    assert(files.contains(f));
                } else {
                    assert(files.contains(last));
                }
            }
            if exists|f: Seq<u8>| #[trigger]
                files.contains(f) && paths::parent_path(f) == Some(p) {
                let f = choose|f: Seq<u8>| #[trigger]
                    files.contains(f) && paths::parent_path(f) == Some(p);
                if f != last {
                    assert(front.contains(f));
                }
            }
        }
    }
}

/// A scan counts exactly the rules that are planned for what it found.
pub proof fn law_scan_counts_its_rules(
    abi: i32,
    dirs: Seq<Seq<u8>>,
    listings: Seq<collect::ListingModel>,
    excluded: Seq<crate::harness::scan::ExclusionModel>,
    support_dirs: Seq<Seq<u8>>,
    support_files: Seq<Seq<u8>>,
)
    requires
        collect::scanned(dirs, listings, excluded, support_dirs, support_files) is Ok,
    ensures
        ({
            let scan = collect::scanned(
                dirs,
                listings,
                excluded,
                support_dirs,
                support_files,
            )->Ok_0;
            scan.stats.total_landlock_rules == collect::capped(
                planned_rules(abi, scan, Seq::empty()).len(),
            )
        }),
{
    let files = collect::kept_paths(collect::kept(excluded, collect::all_entries(listings)));
    let sorted = path_list::sorted(files);
    path_list::lemma_sorted_members(files);
    lemma_parents_members(files);
    lemma_parents_members(sorted);
    let a = collect::parents(files);
    let b = collect::parents(sorted);
    assert forall|p: Seq<u8>| #[trigger] a.contains(p) <==> #[trigger] b.contains(p) by {
        if a.contains(p) {
            let f = choose|f: Seq<u8>| #[trigger]
                files.contains(f) && paths::parent_path(f) == Some(p);
            assert(sorted.contains(f));
        }
        if b.contains(p) {
            let f = choose|f: Seq<u8>| #[trigger]
                sorted.contains(f) && paths::parent_path(f) == Some(p);
            assert(files.contains(f));
        }
    }
    path_list::law_set_size(a, b);
}

} // verus!
