//! Which rights the rules of a sandbox grant, and on what.
use vstd::prelude::*;

use crate::error::ErrorModel;
use crate::harness::collect;
use crate::harness::collect::ScanModel;
use crate::harness::rules;
use crate::harness::rules::{Devices, Enforcement, RuleModel, ShimKind};
use crate::path_list;
use crate::paths;

verus! {

/// The version of the kernel interface from which on a right is known: thirteen
/// from the first, and one more each from the second, third, fifth and ninth.
pub open spec fn known_since(right: u64) -> int {
    if right <= 12 {
        1
    } else if right == 13 {
        2
    } else if right == 14 {
        3
    } else if right == 15 {
        5
    } else {
        9
    }
}

/// A right is known exactly from its version on; there are seventeen rights.
pub proof fn law_rights_are_known_by_version(abi: i32, right: u64)
    requires
        right < 64,
    ensures
        rules::known_rights(abi) & (1u64 << right) != 0 <==> right <= 16 && known_since(right)
            <= abi,
{
    assert(0u64 & (1u64 << right) == 0) by (bit_vector)
        requires
            right < 64,
    ;
    assert((0x1fffu64 & (1u64 << right) != 0) == (right <= 12)) by (bit_vector)
        requires
            right < 64,
    ;
    assert((0x3fffu64 & (1u64 << right) != 0) == (right <= 13)) by (bit_vector)
        requires
            right < 64,
    ;
    assert((0x7fffu64 & (1u64 << right) != 0) == (right <= 14)) by (bit_vector)
        requires
            right < 64,
    ;
    assert((0xffffu64 & (1u64 << right) != 0) == (right <= 15)) by (bit_vector)
        requires
            right < 64,
    ;
    assert((0x1ffffu64 & (1u64 << right) != 0) == (right <= 16)) by (bit_vector)
        requires
            right < 64,
    ;
}

/// The rule grants on the path the rights that are wanted, as far as they are
/// known.
pub open spec fn grants(rule: RuleModel, abi: i32, path: Seq<u8>, wanted: u64) -> bool {
    rule.path == path && rule.access == wanted & rules::known_rights(abi)
}

proof fn lemma_wanted()
    ensures
        rules::READ_FILE | rules::EXECUTE == 5,
        rules::READ_FILE | rules::READ_DIR | rules::EXECUTE == 13,
        rules::READ_FILE | rules::WRITE_FILE == 6,
        rules::socket_rights() == 527,
{
    assert(4u64 | 1u64 == 5u64) by (bit_vector);
    assert(4u64 | 8u64 | 1u64 == 13u64) by (bit_vector);
    assert(4u64 | 2u64 == 6u64) by (bit_vector);
    assert(4u64 | 8u64 | 1u64 | 2u64 | 512u64 == 527u64) by (bit_vector);
}

/// Why a rule of a scan is there: to execute a file (1) and read it (4), to list
/// the directory that holds it (8), for all three on what supports it, to read a
/// file that supports it, or because it was added.
pub open spec fn is_due(abi: i32, scan: ScanModel, extra: Seq<RuleModel>, rule: RuleModel) -> bool {
    ||| scan.executable_files.contains(rule.path) && grants(rule, abi, rule.path, 5)
    ||| grants(rule, abi, rule.path, 8) && exists|f: Seq<u8>| #[trigger]
        scan.executable_files.contains(f) && paths::parent_path(f) == Some(rule.path)
    ||| scan.support_dirs.contains(rule.path) && grants(rule, abi, rule.path, 13)
    ||| scan.support_files.contains(rule.path) && grants(rule, abi, rule.path, 4)
    ||| extra.contains(rule)
}

proof fn lemma_rules_for(list: Seq<Seq<u8>>, access: u64, rule: RuleModel)
    ensures
        rules::rules_for(list, access).contains(rule) <==> list.contains(rule.path) && rule.access
            == access,
{
    let made = rules::rules_for(list, access);
    if made.contains(rule) {
        let i = made.index_of(rule);
        assert(list[i] == rule.path);
    }
    if list.contains(rule.path) && rule.access == access {
        let i = list.index_of(rule.path);
        assert(made[i] == rule);
    }
}

proof fn lemma_in_rules(a: Seq<RuleModel>, b: Seq<RuleModel>, rule: RuleModel)
    ensures
        (a + b).contains(rule) <==> a.contains(rule) || b.contains(rule),
{
    if a.contains(rule) {
        assert((a + b)[a.index_of(rule)] == rule);
    }
    if b.contains(rule) {
        assert((a + b)[a.len() + b.index_of(rule)] == rule);
    }
    if (a + b).contains(rule) {
        let i = (a + b).index_of(rule);
        if i < a.len() {
            assert(a[i] == rule);
        } else {
            assert(b[i - a.len()] == rule);
        }
    }
}

proof fn lemma_parents(files: Seq<Seq<u8>>, p: Seq<u8>)
    ensures
        collect::parents(files).contains(p) <==> exists|f: Seq<u8>| #[trigger]
            files.contains(f) && paths::parent_path(f) == Some(p),
    decreases files.len(),
{
    if files.len() > 0 {
        let front = files.drop_last();
        let last = files.last();
        let before = collect::parents(front);
        lemma_parents(front, p);
        assert(files =~= front.push(last));
        if let Some(parent) = paths::parent_path(last) {
            vstd::seq_lib::lemma_seq_contains_after_push(before, parent, p);
            if parent == p {
                assert(files[files.len() - 1] == last);
                assert(files.contains(last));
            }
        }
        if exists|f: Seq<u8>| #[trigger] front.contains(f) && paths::parent_path(f) == Some(p) {
            let f = choose|f: Seq<u8>| #[trigger]
                front.contains(f) && paths::parent_path(f) == Some(p);
            vstd::seq_lib::lemma_seq_contains_after_push(front, last, f);
            assert(files.contains(f));
        }
        if exists|f: Seq<u8>| #[trigger] files.contains(f) && paths::parent_path(f) == Some(p) {
            let f = choose|f: Seq<u8>| #[trigger]
                files.contains(f) && paths::parent_path(f) == Some(p);
            vstd::seq_lib::lemma_seq_contains_after_push(front, last, f);
            if f != last {
                assert(front.contains(f));
            }
        }
    }
}

/// The directory that holds a file can be listed.
pub open spec fn can_be_listed(planned: Seq<RuleModel>, abi: i32, dir: Seq<u8>) -> bool {
    exists|rule: RuleModel| #[trigger]
        planned.contains(rule) && paths::same_path(rule.path, dir) && rule.access == 8
            & rules::known_rights(abi)
}

/// A scan plans exactly the rules that are due: every executable can be read and
/// executed, every directory that holds one can be listed, what supports them
/// can be used, what was added is there, and nothing else.
pub proof fn law_planned_rules_are_due(abi: i32, scan: ScanModel, extra: Seq<RuleModel>)
    ensures
        ({
            let planned = rules::planned_rules(abi, scan, extra);
            let known = rules::known_rights(abi);
            &&& forall|rule: RuleModel| #[trigger]
                planned.contains(rule) ==> is_due(abi, scan, extra, rule)
            &&& forall|f: Seq<u8>| #[trigger]
                scan.executable_files.contains(f) ==> planned.contains(
                    RuleModel { path: f, access: 5 & known },
                )
            &&& forall|f: Seq<u8>| #[trigger]
                scan.executable_files.contains(f) && paths::parent_path(f) is Some
                    ==> can_be_listed(planned, abi, paths::parent_path(f)->0)
            &&& forall|d: Seq<u8>| #[trigger]
                scan.support_dirs.contains(d) ==> planned.contains(
                    RuleModel { path: d, access: 13 & known },
                )
            &&& forall|f: Seq<u8>| #[trigger]
                scan.support_files.contains(f) ==> planned.contains(
                    RuleModel { path: f, access: 4 & known },
                )
            &&& forall|rule: RuleModel| #[trigger] extra.contains(rule) ==> planned.contains(rule)
        }),
{
    lemma_wanted();
    let known = rules::known_rights(abi);
    let files = scan.executable_files;
    let parents = collect::parents(files);
    let dirs = collect::parent_dirs(files);
    let planned = rules::planned_rules(abi, scan, extra);
    path_list::law_path_set(parents);
    let a = rules::rules_for(files, 5 & known);
    let b = rules::rules_for(dirs, 8 & known);
    let c = rules::rules_for(scan.support_dirs, 13 & known);
    let d = rules::rules_for(scan.support_files, 4 & known);
    assert forall|rule: RuleModel| #[trigger] planned.contains(rule) <==> a.contains(rule)
        || b.contains(rule) || c.contains(rule) || d.contains(rule) || extra.contains(rule) by {
        lemma_in_rules(a, b, rule);
        lemma_in_rules(a + b, c, rule);
        lemma_in_rules(a + b + c, d, rule);
        lemma_in_rules(a + b + c + d, extra, rule);
    }
    assert forall|rule: RuleModel| #[trigger] planned.contains(rule) implies is_due(
        abi,
        scan,
        extra,
        rule,
    ) by {
        lemma_rules_for(files, 5 & known, rule);
        lemma_rules_for(dirs, 8 & known, rule);
        lemma_rules_for(scan.support_dirs, 13 & known, rule);
        lemma_rules_for(scan.support_files, 4 & known, rule);
        if b.contains(rule) {
            assert(parents.contains(rule.path));
            lemma_parents(files, rule.path);
        }
    }
    assert forall|f: Seq<u8>| #[trigger] files.contains(f) implies planned.contains(
        RuleModel { path: f, access: 5 & known },
    ) by {
        lemma_rules_for(files, 5 & known, RuleModel { path: f, access: 5 & known });
    }
    assert forall|f: Seq<u8>| #[trigger] files.contains(f) && paths::parent_path(
        f,
    ) is Some implies can_be_listed(planned, abi, paths::parent_path(f)->0) by {
        let p = paths::parent_path(f)->0;
        lemma_parents(files, p);
        assert(parents.contains(p));
        assert(path_list::lists_file(dirs, p));
        let i = choose|i: int| 0 <= i < dirs.len() && #[trigger] paths::same_path(dirs[i], p);
        let rule = RuleModel { path: dirs[i], access: 8 & known };
        assert(dirs.contains(dirs[i]));
        lemma_rules_for(dirs, 8 & known, rule);
        assert(planned.contains(rule));
    }
    assert forall|f: Seq<u8>| #[trigger] scan.support_dirs.contains(f) implies planned.contains(
        RuleModel { path: f, access: 13 & known },
    ) by {
        lemma_rules_for(
            scan.support_dirs,
            13 & known,
            RuleModel { path: f, access: 13 & known },
        );
    }
    assert forall|f: Seq<u8>| #[trigger] scan.support_files.contains(f) implies planned.contains(
        RuleModel { path: f, access: 4 & known },
    ) by {
        lemma_rules_for(scan.support_files, 4 & known, RuleModel { path: f, access: 4 & known });
    }
}

/// A session can read and execute its shim and use the directory of the
/// supervisor's socket; a socket that lies nowhere is an error.
pub proof fn law_session_rules(abi: i32, shim: Seq<u8>, socket: Seq<u8>)
    ensures
        match rules::session_rules(abi, shim, socket) {
            Ok(list) => {
                &&& paths::parent_path(socket) is Some
                &&& list.len() == 2
                &&& grants(list[0], abi, shim, 5)
                &&& grants(list[1], abi, paths::parent_path(socket)->0, 527)
            },
            Err(error) => paths::parent_path(socket) is None && error == ErrorModel::Setup(
                "socket path has no parent: "@ + paths::shown(socket),
            ),
        },
{
    lemma_wanted();
}

/// Of the devices that are there the null device can be read and written (6),
/// and the others can be read (4).
pub proof fn law_device_rules(abi: i32, devices: Devices, rule: RuleModel)
    ensures
        rules::device_rules(abi, devices).contains(rule) <==> {
            ||| devices.null && grants(rule, abi, vstd::utf8::encode_utf8("/dev/null"@), 6)
            ||| devices.zero && grants(rule, abi, vstd::utf8::encode_utf8("/dev/zero"@), 4)
            ||| devices.urandom && grants(rule, abi, vstd::utf8::encode_utf8("/dev/urandom"@), 4)
        },
{
    lemma_wanted();
    let known = rules::known_rights(abi);
    let one = |there: bool, path: Seq<char>, access: u64|
        if there {
            seq![RuleModel { path: vstd::utf8::encode_utf8(path), access: access & known }]
        } else {
            Seq::empty()
        };
    let a = one(devices.null, "/dev/null"@, 6);
    let b = one(devices.zero, "/dev/zero"@, 4);
    let c = one(devices.urandom, "/dev/urandom"@, 4);
    assert(rules::device_rules(abi, devices) =~= a + b + c);
    lemma_in_rules(a, b, rule);
    lemma_in_rules(a + b, c, rule);
    if devices.null {
        assert(a[0].path == vstd::utf8::encode_utf8("/dev/null"@));
    }
    if devices.zero {
        assert(b[0].path == vstd::utf8::encode_utf8("/dev/zero"@));
    }
    if devices.urandom {
        assert(c[0].path == vstd::utf8::encode_utf8("/dev/urandom"@));
    }
}

/// A shim that is missing needs nothing; a directory of shims can be read,
/// listed and executed; a single shim can be read and executed, and the
/// directory that holds it can be listed.
pub proof fn law_shim_rules(abi: i32, shim: Seq<u8>, kind: ShimKind)
    ensures
        ({
            let list = rules::shim_rules(abi, shim, kind);
            &&& kind is Missing ==> list.len() == 0
            &&& kind is Directory ==> list.len() == 1 && grants(list[0], abi, shim, 13)
            &&& kind is Other ==> list.len() >= 1 && grants(list[0], abi, shim, 5)
            &&& kind is Other && paths::parent_path(shim) is Some ==> list.len() == 2 && grants(
                list[1],
                abi,
                paths::parent_path(shim)->0,
                8,
            )
            &&& kind is Other && paths::parent_path(shim) is None ==> list.len() == 1
        }),
{
    lemma_wanted();
}

/// The context of a command: the rules for its shim, if it has one, and behind
/// them the directory of the supervisor's socket, if it has one.
pub proof fn law_context_rules(
    abi: i32,
    shim: Option<(Seq<u8>, ShimKind)>,
    socket: Option<Seq<u8>>,
)
    ensures
        ({
            let first: Seq<RuleModel> = if shim is Some {
                rules::shim_rules(abi, (shim->0).0, (shim->0).1)
            } else {
                Seq::empty()
            };
            let n = first.len() as int;
            match rules::context_rules(abi, shim, socket) {
                Ok(list) => {
                    &&& list.len() >= n && list.take(n) == first
                    &&& socket is None ==> list.len() == n
                    &&& socket is Some ==> paths::parent_path(socket->0) is Some && list.len() == n
                        + 1 && grants(list[n], abi, paths::parent_path(socket->0)->0, 527)
                },
                Err(error) => socket is Some && paths::parent_path(socket->0) is None && error
                    == ErrorModel::Setup("socket path has no parent: "@ + paths::shown(socket->0)),
            }
        }),
{
    lemma_wanted();
    let first: Seq<RuleModel> = if shim is Some {
        rules::shim_rules(abi, (shim->0).0, (shim->0).1)
    } else {
        Seq::empty()
    };
    if let Ok(list) = rules::context_rules(abi, shim, socket) {
        assert(list.take(first.len() as int) =~= first);
    }
}

/// A process is restricted where the kernel enforces the rules, if only in part,
/// and not where the call failed or nothing is enforced.
pub proof fn law_restriction(status: Result<Enforcement, Seq<char>>)
    ensures
        rules::restricted(status) is Ok <==> status == Ok::<_, Seq<char>>(Enforcement::Fully)
            || status == Ok::<_, Seq<char>>(Enforcement::Partially),
        status is Err ==> rules::restricted(status) == Err::<(), _>(
            ErrorModel::SandboxInit("restrict_self failed: "@ + status->Err_0),
        ),
        status == Ok::<_, Seq<char>>(Enforcement::Missing) ==> rules::restricted(status) == Err::<
            (),
            _,
        >(ErrorModel::SandboxInit("Landlock ruleset was not enforced: NotEnforced"@)),
{
}

} // verus!
