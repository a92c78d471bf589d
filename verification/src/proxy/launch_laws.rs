//! What the flags and the profile make of a launch.
use vstd::prelude::*;

use crate::error::ErrorModel;
use crate::paths;
use crate::positions;
use crate::proxy;
use crate::proxy::args::ArgsModel;
use crate::proxy::launch;
use crate::proxy::launch::{LaunchModel, RestrictionModel, TlsOptionsModel};
use crate::proxy::serve;
use crate::proxy::serve::{LineModel, OutcomeModel, PhaseModel, Style};
use crate::proxy::{CaLifecycle, DomainModel, NetworkSettingsModel, ProfileModel, TlsSettingsModel};
use crate::text;

verus! {

// ---------------------------------------------------------------------------
// TLS interception
// ---------------------------------------------------------------------------

/// The keychain trusts the authority exactly where the system has one and the
/// profile says so, or the flag does and the profile says nothing. A profile
/// that wants it elsewhere is an error, and so is a flag that contradicts the
/// profile. The flag's days, as seconds, beat the profile's validity, and the
/// rest is the profile's.
pub proof fn law_tls_options(
    settings: Option<TlsSettingsModel>,
    keychain: bool,
    trust_flag: bool,
    flag_days: Option<u32>,
)
    ensures
        ({
            let lifecycle = if settings is Some {
                settings->0.ca_lifecycle
            } else {
                None
            };
            let trusted = lifecycle == Some(CaLifecycle::Trusted);
            let session = lifecycle == Some(CaLifecycle::Session);
            match launch::tls_options(settings, keychain, trust_flag, flag_days) {
                Ok(options) => {
                    &&& !(trusted && !keychain)
                    &&& !(session && keychain && trust_flag)
                    &&& options.trust_proxy_ca <==> keychain && (trusted || lifecycle is None
                        && trust_flag)
                    &&& flag_days is Some ==> options.ca_validity is Some && options.ca_validity->0
                        == flag_days->0 * 24 * 60 * 60
                    &&& flag_days is None && settings is Some ==> options.ca_validity
                        == settings->0.ca_validity
                    &&& flag_days is None && settings is None ==> options.ca_validity is None
                    &&& settings is Some ==> options.leaf_validity == settings->0.leaf_validity
                        && options.ca_env_vars == settings->0.ca_env_vars
                    &&& settings is None ==> options.leaf_validity is None
                        && options.ca_env_vars.len() == 0
                },
                Err(error) => {
                    ||| trusted && !keychain && error == ErrorModel::ConfigParse(
                        "network.tls_intercept.ca_lifecycle=trusted is only supported on macOS"@,
                    )
                    ||| session && keychain && trust_flag && error == ErrorModel::ConfigParse(
                        "--trust-proxy-ca conflicts with network.tls_intercept.ca_lifecycle=session"@,
                    )
                },
            }
        }),
{
}

// ---------------------------------------------------------------------------
// Restrictions
// ---------------------------------------------------------------------------

/// The text names a service, a method and a path, none of them empty, with
/// colons between them; only the path may hold further colons.
pub open spec fn spells_restriction(spelled: Seq<char>, r: RestrictionModel) -> bool {
    &&& r.service.len() > 0 && !r.service.contains(':')
    &&& r.rule.method.len() > 0 && !r.rule.method.contains(':')
    &&& r.rule.path.len() > 0
    &&& spelled == r.service + seq![':'] + r.rule.method + seq![':'] + r.rule.path
}

proof fn lemma_before_colon(spelled: Seq<char>)
    ensures
        match launch::before_colon(spelled) {
            Some(head) => !head.contains(':') && head.len() < spelled.len() && spelled == head
                + seq![':'] + spelled.skip(head.len() as int + 1),
            None => !spelled.contains(':'),
        },
    decreases spelled.len(),
{
    if spelled.len() > 0 {
        let rest = spelled.skip(1);
        if spelled[0] == ':' {
            assert(spelled =~= Seq::<char>::empty() + seq![':'] + spelled.skip(1));
        } else {
            lemma_before_colon(rest);
            if let Some(tail) = launch::before_colon(rest) {
                let head = seq![spelled[0]] + tail;
                assert(rest.skip(tail.len() as int + 1) =~= spelled.skip(head.len() as int + 1));
                assert(spelled =~= seq![spelled[0]] + rest);
                assert(spelled =~= head + seq![':'] + spelled.skip(head.len() as int + 1));
                assert(!head.contains(':')) by {
                    if head.contains(':') {
                        let i = head.index_of(':');
                        assert(i > 0);
                        assert(tail[i - 1] == ':');
                    }
                }
            } else if spelled.contains(':') {
                let i = spelled.index_of(':');
                assert(i > 0);
                assert(rest[i - 1] == ':');
            }
        }
    }
}

/// An argument is a restriction exactly if it spells one, and otherwise an error
/// that shows it.
pub proof fn law_restriction_is_read(spelled: Seq<char>, r: RestrictionModel)
    ensures
        launch::parsed_restriction(spelled) == Ok::<_, ErrorModel>(r) <==> spells_restriction(
            spelled,
            r,
        ),
        launch::parsed_restriction(spelled) matches Err(error) ==> error == ErrorModel::ConfigParse(
            "invalid --allow-endpoint '"@ + spelled + "': expected SERVICE:METHOD:PATH"@,
        ),
{
    if spells_restriction(spelled, r) {
        launch::law_endpoints_read_back(r.service, r.rule.method, r.rule.path);
    }
    if launch::parsed_restriction(spelled) == Ok::<_, ErrorModel>(r) {
        lemma_before_colon(spelled);
        let rest = spelled.skip(r.service.len() as int + 1);
        lemma_before_colon(rest);
        assert(r.rule.path == rest.skip(r.rule.method.len() as int + 1));
        assert(spelled =~= r.service + seq![':'] + r.rule.method + seq![':'] + r.rule.path);
    }
}

/// The text spells some restriction.
pub open spec fn spells_some(spelled: Seq<char>) -> bool {
    exists|r: RestrictionModel| spells_restriction(spelled, r)
}

/// The argument at a position is the first that spells no restriction, and the
/// error shows it.
pub open spec fn first_bad_restriction(list: Seq<Seq<char>>, i: int, error: ErrorModel) -> bool {
    &&& 0 <= i < list.len()
    &&& !spells_some(list[i])
    &&& forall|j: int| 0 <= j < i ==> spells_some(#[trigger] list[j])
    &&& error == ErrorModel::ConfigParse(
        "invalid --allow-endpoint '"@ + list[i] + "': expected SERVICE:METHOD:PATH"@,
    )
}

/// The restrictions are those that the arguments spell, one for one; the first
/// argument that spells none decides.
pub proof fn law_restrictions_are_read(list: Seq<Seq<char>>)
    ensures
        match launch::restrictions(list) {
            Ok(found) => found.len() == list.len() && forall|i: int|
                0 <= i < list.len() ==> #[trigger] spells_restriction(list[i], found[i]),
            Err(error) => exists|i: int| #[trigger] first_bad_restriction(list, i, error),
        },
    decreases list.len(),
{
    if list.len() > 0 {
        let front = list.drop_last();
        let n = list.len() - 1;
        law_restrictions_are_read(front);
        match launch::restrictions(front) {
            Err(error) => {
                let i = choose|i: int| #[trigger] first_bad_restriction(front, i, error);
                assert(list[i] == front[i]);
                assert forall|j: int| 0 <= j < i implies spells_some(#[trigger] list[j]) by {
                    assert(front[j] == list[j]);
                }
                assert(first_bad_restriction(list, i, error));
            },
            Ok(before) => {
                match launch::parsed_restriction(list[n]) {
                    Ok(last) => {
                        law_restriction_is_read(list[n], last);
                        let found = before.push(last);
                        assert forall|i: int| 0 <= i < list.len() implies #[trigger]
                            spells_restriction(list[i], found[i]) by {
                            if i < n {
                                assert(spells_restriction(front[i], before[i]));
                            }
                        }
                    },
                    Err(error) => {
                        assert forall|r: RestrictionModel| !#[trigger] spells_restriction(
                            list[n],
                            r,
                        ) by {
                            law_restriction_is_read(list[n], r);
                        }
                        let none = arbitrary_restriction();
                        law_restriction_is_read(list[n], none);
                        assert forall|j: int| 0 <= j < n implies spells_some(
                            #[trigger] list[j],
                        ) by {
                            assert(spells_restriction(front[j], before[j]));
                            assert(front[j] == list[j]);
                        }
                        assert(first_bad_restriction(list, n, error));
                    },
                }
            },
        }
    }
}

spec fn arbitrary_restriction() -> RestrictionModel {
    choose|r: RestrictionModel| r.service.len() == 0
}

// ---------------------------------------------------------------------------
// Domains
// ---------------------------------------------------------------------------

/// The entry at a position lets only some endpoints of its domain through, or
/// lets all of it through.
pub open spec fn limited_at(list: Seq<DomainModel>, wanted: bool) -> spec_fn(int) -> bool {
    |p: int|
        (list[p] is WithEndpoints && list[p]->endpoints.len() > 0) == wanted
}

/// The entries are those of the list that are limited, or those that are not, in
/// their order.
pub open spec fn entries_are(list: Seq<DomainModel>, wanted: bool, entries: Seq<DomainModel>) -> bool {
    exists|at: Seq<int>|
        {
            &&& #[trigger] positions::lists_positions(at, list.len() as int, limited_at(list, wanted))
            &&& entries.len() == at.len()
            &&& forall|i: int| 0 <= i < at.len() ==> #[trigger] entries[i] == list[at[i]]
        }
}

proof fn lemma_routes(list: Seq<DomainModel>, wanted: bool) -> (at: Seq<int>)
    ensures
        positions::lists_positions(at, list.len() as int, limited_at(list, wanted)),
        launch::routes(list, wanted).len() == at.len(),
        forall|i: int|
            0 <= i < at.len() ==> #[trigger] launch::routes(list, wanted)[i] == list[at[i]],
    decreases list.len(),
{
    let condition = limited_at(list, wanted);
    if list.len() == 0 {
        positions::lemma_no_position(condition);
        Seq::empty()
    } else {
        let n = list.len() - 1;
        let front = list.drop_last();
        let earlier = limited_at(front, wanted);
        let before = lemma_routes(front, wanted);
        assert forall|p: int| 0 <= p < n implies earlier(p) == #[trigger] condition(p) by {
            assert(front[p] == list[p]);
        }
        let at = positions::lemma_one_more(before, n, earlier, condition);
        let entries = launch::routes(list, wanted);
        assert forall|i: int| 0 <= i < at.len() implies #[trigger] entries[i] == list[at[i]] by {
            if i < before.len() {
                assert(at[i] == before[i]);
                assert(front[before[i]] == list[at[i]]);
                assert(entries[i] == launch::routes(front, wanted)[i]);
            }
        }
        at
    }
}

// ---------------------------------------------------------------------------
// Credentials
// ---------------------------------------------------------------------------

/// The list begins with `first`, and goes on with what `more` holds and `first`
/// does not, each once, in the order in which they first come up in `more`.
pub open spec fn goes_on(list: Seq<Seq<char>>, first: Seq<Seq<char>>, more: Seq<Seq<char>>) -> bool {
    let n = first.len() as int;
    &&& list.len() >= n
    &&& list.take(n) == first
    &&& forall|name: Seq<char>| #[trigger]
        list.contains(name) <==> first.contains(name) || more.contains(name)
    &&& forall|i: int| n <= i < list.len() ==> !first.contains(#[trigger] list[i])
    &&& forall|i: int, j: int|
        n <= i < j < list.len() ==> #[trigger] list[i] != #[trigger] list[j] && more.index_of_first(
            list[i],
        )->0 < more.index_of_first(list[j])->0
}

proof fn lemma_goes_on(first: Seq<Seq<char>>, more: Seq<Seq<char>>)
    ensures
        goes_on(launch::with_new(first, more), first, more),
    decreases more.len(),
{
    let n = first.len() as int;
    let list = launch::with_new(first, more);
    if more.len() == 0 {
        assert(list.take(n) =~= first);
    } else {
        let front = more.drop_last();
        let before = launch::with_new(first, front);
        let last = more.last();
        lemma_goes_on(first, front);
        assert(more =~= front.push(last));
        assert(list.take(n) =~= first) by {
            assert(before.take(n) == first);
            assert(list.take(n) =~= before.take(n));
        }
        assert forall|name: Seq<char>| #[trigger] list.contains(name) <==> first.contains(name)
            || more.contains(name) by {
            vstd::seq_lib::lemma_seq_contains_after_push(front, last, name);
            vstd::seq_lib::lemma_seq_contains_after_push(before, last, name);
            assert(before.contains(name) <==> first.contains(name) || front.contains(name));
        }
        assert forall|i: int| n <= i < list.len() implies !first.contains(#[trigger] list[i]) by {
            if i < before.len() {
                assert(list[i] == before[i]);
            } else {
                assert(before.contains(last) <==> first.contains(last) || front.contains(last));
            }
        }
        assert forall|i: int, j: int| n <= i < j < list.len() implies #[trigger] list[i]
            != #[trigger] list[j] && more.index_of_first(list[i])->0 < more.index_of_first(
            list[j],
        )->0 by {
            assert(list[i] == before[i]);
            assert(before.contains(before[i]));
            assert(front.contains(before[i])) by {
                assert(!first.contains(before[i]));
            }
            lemma_first_index(front, last, before[i]);
            if j < before.len() {
                assert(list[j] == before[j]);
                assert(before.contains(before[j]));
                assert(!first.contains(before[j]));
                assert(front.contains(before[j]));
                lemma_first_index(front, last, before[j]);
                assert(before[i] != before[j]);
            } else {
                assert(!before.contains(last));
                assert(!front.contains(last));
                lemma_first_index(front, last, last);
            }
        }
    }
}

proof fn lemma_first_index(front: Seq<Seq<char>>, last: Seq<char>, name: Seq<char>)
    ensures
        front.contains(name) ==> front.push(last).index_of_first(name) == front.index_of_first(name)
            && front.index_of_first(name) is Some && front.index_of_first(name)->0 < front.len(),
        !front.contains(last) ==> front.push(last).index_of_first(last) == Some(
            front.len() as int,
        ),
{
    let all = front.push(last);
    all.index_of_first_ensures(name);
    front.index_of_first_ensures(name);
    all.index_of_first_ensures(last);
    if front.contains(name) {
        assert(all[front.index_of_first(name)->0] == name);
        let a = front.index_of_first(name)->0;
        let b = all.index_of_first(name)->0;
        assert(all.contains(name));
        if b < a {
            assert(front[b] == name);
        }
        if a < b {
            assert(all[a] == name);
        }
    }
    if !front.contains(last) {
        assert(all[front.len() as int] == last);
        assert(all.contains(last));
        let b = all.index_of_first(last)->0;
        if b < front.len() {
            assert(front[b] == last);
        }
    }
}

// ---------------------------------------------------------------------------
// The launch
// ---------------------------------------------------------------------------

/// The value of the flag, or else of the profile.
pub open spec fn flag_or_profile(
    flag: Option<Seq<char>>,
    profile: Option<Seq<char>>,
    value: Option<Seq<char>>,
) -> bool {
    &&& flag is Some ==> value == flag
    &&& flag is None ==> value == profile
}

/// What is filtered by domain.
pub open spec fn domain_filter_fits(
    args: ArgsModel,
    network: NetworkSettingsModel,
    domains: Seq<DomainModel>,
    launch: LaunchModel,
) -> bool {
    let all = network.allow_domain + domains;
    let denied = network.deny_domain + args.deny_proxy;
    match launch.domain_filter {
        Some(filter) => {
            &&& flag_or_profile(
                args.network_profile,
                network.network_profile,
                filter.network_profile,
            )
            &&& entries_are(all, false, filter.allow_domain)
            &&& filter.deny_domain == denied
            &&& filter.network_profile is Some || filter.allow_domain.len() > 0 || denied.len() > 0
        },
        None => {
            &&& args.network_profile is None && network.network_profile is None
            &&& entries_are(all, false, Seq::empty())
            &&& denied.len() == 0
        },
    }
}

/// What is filtered by endpoint.
pub open spec fn endpoint_filter_fits(
    network: NetworkSettingsModel,
    domains: Seq<DomainModel>,
    launch: LaunchModel,
) -> bool {
    let all = network.allow_domain + domains;
    match launch.endpoint_filter {
        Some(filter) => entries_are(all, true, filter.routes) && filter.routes.len() > 0,
        None => entries_are(all, true, Seq::empty()),
    }
}

/// Which credentials are used.
pub open spec fn credentials_fit(
    args: ArgsModel,
    network: NetworkSettingsModel,
    launch: LaunchModel,
) -> bool {
    match launch.credentials {
        Some(intent) => {
            &&& goes_on(intent.credentials, network.credentials, args.proxy_credential)
            &&& intent.custom_credentials == network.custom_credentials
            &&& intent.endpoint_restrictions.len() == args.allow_endpoint.len()
            &&& forall|i: int|
                0 <= i < args.allow_endpoint.len() ==> #[trigger] spells_restriction(
                    args.allow_endpoint[i],
                    intent.endpoint_restrictions[i],
                )
            &&& intent.credentials.len() > 0 || intent.custom_credentials.dom().len() > 0
                || intent.endpoint_restrictions.len() > 0
        },
        None => {
            &&& network.credentials.len() == 0 && args.proxy_credential.len() == 0
            &&& network.custom_credentials.dom().len() == 0
            &&& args.allow_endpoint.len() == 0
        },
    }
}

/// Where the traffic goes.
pub open spec fn upstream_fits(
    args: ArgsModel,
    network: NetworkSettingsModel,
    launch: LaunchModel,
) -> bool {
    let bypass = network.upstream_bypass + args.external_proxy_bypass;
    match launch.upstream_proxy {
        Some(upstream) => {
            &&& flag_or_profile(
                args.external_proxy,
                network.upstream_proxy,
                Some(upstream.address),
            )
            &&& upstream.bypass == bypass
        },
        None => args.external_proxy is None && network.upstream_proxy is None && bypass.len() == 0,
    }
}

/// How TLS is intercepted.
pub open spec fn tls_fits(args: ArgsModel, tls: TlsOptionsModel, launch: LaunchModel) -> bool {
    let trusted = tls.trust_proxy_ca && args.proxy_ca_cert is None;
    &&& launch.proxy_leaf_validity == tls.leaf_validity
    &&& match launch.tls_intercept {
        Some(intent) => {
            &&& intent.trust_proxy_ca == trusted
            &&& intent.ca_validity == tls.ca_validity
            &&& intent.ca_env_vars == tls.ca_env_vars
            &&& trusted || tls.ca_validity is Some || tls.ca_env_vars.len() > 0
        },
        None => !trusted && tls.ca_validity is None && tls.ca_env_vars.len() == 0,
    }
}

/// A launch is what the flags and the profile ask for: a flag beats the profile
/// where one value can stand, and both count where many can. It fails exactly
/// where something is to go round an upstream proxy that is not there, where an
/// argument spells no restriction, or where TLS interception cannot be set up.
pub proof fn law_launch_fits(
    args: ArgsModel,
    profile: ProfileModel,
    domains: Seq<DomainModel>,
    tls: Result<TlsOptionsModel, ErrorModel>,
    session_id: Seq<char>,
)
    ensures
        ({
            let network = profile.network;
            let stray = args.external_proxy is None && network.upstream_proxy is None && (
            network.upstream_bypass.len() > 0 || args.external_proxy_bypass.len() > 0);
            match launch::launch_options(args, profile, domains, tls, session_id) {
                Ok(launch) => {
                    &&& tls is Ok
                    &&& domain_filter_fits(args, network, domains, launch)
                    &&& endpoint_filter_fits(network, domains, launch)
                    &&& credentials_fit(args, network, launch)
                    &&& upstream_fits(args, network, launch)
                    &&& tls_fits(args, tls->Ok_0, launch)
                    &&& launch.command_policies == profile.command_policies
                    &&& launch.credential_capture == profile.credential_capture
                    &&& launch.session_id == session_id
                    &&& launch.enable_h2 <==> args.allow_http2 || network.allow_http2
                },
                Err(error) => {
                    ||| stray && error == ErrorModel::ConfigParse(
                        "--upstream-bypass requires --upstream-proxy (or upstream_proxy in profile network config)"@,
                    )
                    ||| !stray && exists|i: int| #[trigger]
                        first_bad_restriction(args.allow_endpoint, i, error)
                    ||| !stray && launch::restrictions(args.allow_endpoint) is Ok && tls == Err::<
                        TlsOptionsModel,
                        _,
                    >(error)
                },
            }
        }),
{
    let network = profile.network;
    let all = network.allow_domain + domains;
    law_restrictions_are_read(args.allow_endpoint);
    let plain = lemma_routes(all, false);
    let limited = lemma_routes(all, true);
    assert(entries_are(all, false, launch::routes(all, false)));
    assert(entries_are(all, true, launch::routes(all, true)));
    lemma_goes_on(network.credentials, args.proxy_credential);
    if let Ok(launch) = launch::launch_options(args, profile, domains, tls, session_id) {
        if launch::routes(all, false).len() == 0 {
            assert(launch::routes(all, false) =~= Seq::empty());
        }
        if launch::routes(all, true).len() == 0 {
            assert(launch::routes(all, true) =~= Seq::empty());
        }
        if launch.credentials is None {
            let credentials = launch::with_new(network.credentials, args.proxy_credential);
            if args.proxy_credential.len() > 0 {
                assert(args.proxy_credential.contains(args.proxy_credential[0]));
                assert(credentials.contains(args.proxy_credential[0]));
            }
        }
    }
}

/// Without a profile there are no settings: nothing is named, nothing is listed,
/// and nothing is switched on.
pub proof fn law_no_profile_says_nothing()
    ensures
        ({
            let profile = proxy::no_profile();
            let network = profile.network;
            &&& network.network_profile is None && network.upstream_proxy is None
            &&& network.tls_intercept is None && profile.command_policies is None
            &&& network.allow_domain.len() == 0 && network.deny_domain.len() == 0
            &&& network.credentials.len() == 0 && network.upstream_bypass.len() == 0
            &&& network.custom_credentials.dom() == Set::<Seq<char>>::empty()
            &&& profile.credential_capture.dom() == Set::<Seq<char>>::empty()
            &&& !network.allow_http2
        }),
{
    let profile = proxy::no_profile();
    assert(profile.network.custom_credentials.dom() =~= Set::<Seq<char>>::empty());
    assert(profile.credential_capture.dom() =~= Set::<Seq<char>>::empty());
}

// ---------------------------------------------------------------------------
// Bringing the proxy up
// ---------------------------------------------------------------------------

/// The address is `127.x.y.z`, or the one address that IPv6 has for itself.
pub open spec fn of_this_machine(octets: Seq<u8>) -> bool {
    ||| octets.len() == 4 && octets[0] == 127
    ||| octets == seq![0u8, 0, 0, 0, 0, 0, 0, 0, 0, 0, 0, 0, 0, 0, 0, 1]
}

/// A proxy without authentication is refused on an address that other machines
/// can reach, and nothing else is refused at the start.
pub proof fn law_open_proxies_stay_here(args: ArgsModel, spelled: Seq<char>, octets: Seq<u8>)
    ensures
        args.no_auth && !of_this_machine(octets) ==> serve::first_phase(args, spelled, octets)
            == PhaseModel::Failed(
            ErrorModel::ConfigParse(
                "--no-auth requires a loopback --listen address (got "@ + spelled
                    + "); refusing to start an open proxy reachable from other hosts"@,
            ),
        ),
        !(args.no_auth && !of_this_machine(octets)) ==> serve::first_phase(args, spelled, octets)
            == PhaseModel::BuildOptions,
{
    let here = seq![0u8, 0, 0, 0, 0, 0, 0, 0, 0, 0, 0, 0, 0, 0, 0, 1];
    if serve::loopback(octets) && octets.len() == 16 {
        assert(octets =~= here);
    }
    if octets == here {
        assert forall|i: int| 0 <= i < 15 implies octets[i] == 0 by {}
    }
}

/// The phases in which a proxy is brought up, in order; an authority that the
/// user supplies takes four more.
pub open spec fn stages(supplied: bool) -> Seq<PhaseModel> {
    seq![PhaseModel::BuildOptions, PhaseModel::BuildConfig, PhaseModel::ApplyTls] + (if supplied {
        seq![
            PhaseModel::ReadCaCert,
            PhaseModel::ReadCaKey,
            PhaseModel::SplitCa,
            PhaseModel::BindCa,
        ]
    } else {
        Seq::empty()
    }) + seq![
        PhaseModel::BuildCapture,
        PhaseModel::BuildApproval,
        PhaseModel::StartRuntime,
        PhaseModel::StartServer,
        PhaseModel::Serve,
        PhaseModel::Stopped,
    ]
}

/// Work that is done leads from each phase to the next in order, but for a blank
/// password and for an authority that is both supplied and the keychain's.
pub proof fn law_phases_follow_in_order(args: ArgsModel, k: int)
    requires
        0 <= k,
        k + 1 < stages(args.proxy_ca_cert is Some && args.proxy_ca_key is Some).len(),
    ensures
        ({
            let supplied = args.proxy_ca_cert is Some && args.proxy_ca_key is Some;
            let next = serve::next_phase(args, stages(supplied)[k], OutcomeModel::Done);
            if k == 1 && args.pass is Some && args.pass->0.len() == 0 {
                next == PhaseModel::Failed(
                    ErrorModel::ConfigParse("--pass requires a non-empty password"@),
                )
            } else if k == 2 && supplied && args.trust_proxy_ca {
                next == PhaseModel::Failed(
                    ErrorModel::ConfigParse(
                        "--proxy-ca-cert cannot be combined with --trust-proxy-ca; the former supplies its own CA while the latter manages one in the macOS Keychain"@,
                    ),
                )
            } else {
                next == stages(supplied)[k + 1]
            }
        }),
{
}

/// Work that is refused or breaks ends the launch with its error, unless the
/// proxy is serving or has come to an end before.
pub proof fn law_trouble_ends_the_launch(
    args: ArgsModel,
    phase: PhaseModel,
    refusal: ErrorModel,
    reason: Seq<char>,
)
    ensures
        phase is Stopped || phase is Failed ==> forall|outcome: OutcomeModel| #[trigger]
            serve::next_phase(args, phase, outcome) == phase,
        phase is Serve ==> forall|outcome: OutcomeModel| #[trigger]
            serve::next_phase(args, phase, outcome) == PhaseModel::Stopped,
        !(phase is Stopped || phase is Failed || phase is Serve) ==> {
            let broken = serve::next_phase(args, phase, OutcomeModel::Broke(reason));
            let cert = if args.proxy_ca_cert is Some {
                args.proxy_ca_cert->0
            } else {
                Seq::empty()
            };
            let key = if args.proxy_ca_key is Some {
                args.proxy_ca_key->0
            } else {
                Seq::empty()
            };
            &&& serve::next_phase(args, phase, OutcomeModel::Refused(refusal))
                == PhaseModel::Failed(refusal)
            &&& broken is Failed
            &&& phase is ReadCaCert ==> broken->Failed_0 == ErrorModel::ConfigParse(
                "failed to read --proxy-ca-cert "@ + paths::shown(vstd::utf8::encode_utf8(cert))
                    + ": "@ + reason,
            )
            &&& phase is ReadCaKey ==> broken->Failed_0 == ErrorModel::ConfigParse(
                "failed to read --proxy-ca-key "@ + paths::shown(vstd::utf8::encode_utf8(key))
                    + ": "@ + reason,
            )
            &&& phase is SplitCa || phase is BindCa ==> broken->Failed_0
                == ErrorModel::ConfigParse("invalid proxy CA material: "@ + reason)
            &&& phase is StartRuntime ==> broken->Failed_0 == ErrorModel::SandboxInit(
                "Failed to start proxy runtime: "@ + reason,
            )
            &&& phase is StartServer ==> broken->Failed_0 == ErrorModel::SandboxInit(
                "Failed to start proxy: "@ + reason,
            )
        },
{
}

/// The server listens where the flags say, asks for authentication unless it is
/// switched off, takes the password as its token, and signs with the files of
/// the flags where both are given.
pub proof fn law_server_settings<A>(args: ArgsModel, profile: Option<A>, loaded: Option<A>)
    ensures
        ({
            let settings = serve::settings_for(args);
            let both = args.proxy_ca_cert is Some && args.proxy_ca_key is Some;
            &&& settings.bind_addr == args.listen
            &&& settings.bind_port == args.port
            &&& settings.require_auth != args.no_auth
            &&& settings.strict_connect_auth != args.no_auth
            &&& settings.max_connections == args.max_connections
            &&& settings.session_token == args.pass
            &&& settings.supplied_ca is Some <==> both
            &&& both ==> settings.supplied_ca->0.cert == args.proxy_ca_cert->0
                && settings.supplied_ca->0.key == args.proxy_ca_key->0
            &&& both ==> serve::signing_ca(args, profile, loaded) == loaded
            &&& !both ==> serve::signing_ca(args, profile, loaded) == profile
        }),
{
}

// ---------------------------------------------------------------------------
// What the user is told
// ---------------------------------------------------------------------------

/// The line as it reads, without its style.
pub open spec fn reads(line: LineModel) -> Seq<char> {
    line.before + line.styled + line.after
}

/// Unless it is to be silent, the message says where the proxy listens, how to
/// reach it (with the token exactly where authentication is on), every route in
/// order, and where the authority is found.
pub proof fn law_connection_message(
    addr: Seq<char>,
    port: u16,
    token: Seq<char>,
    no_auth: bool,
    routes: Seq<Seq<char>>,
    ca_path: Option<Seq<u8>>,
)
    ensures
        serve::connection_lines(addr, port, token, no_auth, routes, ca_path, true).len() == 0,
        ({
            let lines = serve::connection_lines(addr, port, token, no_auth, routes, ca_path, false);
            let place = addr + ":"@ + text::decimal(port as nat);
            let url = "http://nono:"@ + token + "@"@ + place;
            let start: int = if no_auth {
                4
            } else {
                7
            };
            let listed: int = if routes.len() == 0 {
                0
            } else {
                2 + routes.len() as int
            };
            &&& lines.len() == start + listed + (if ca_path is Some {
                2int
            } else {
                0
            }) + 2
            &&& reads(lines[1]) == "  "@ + "nono proxy listening on"@ + (" "@ + place)
            &&& no_auth ==> {
                &&& reads(lines[2]) == "  "@
                    + "auth disabled (--no-auth): any local process can use this proxy"@ + ""@
                &&& lines[3].before == "  proxy URL: http://"@ + place
            }
            &&& !no_auth ==> {
                &&& reads(lines[2]) == "  proxy URL: "@ + url + ""@
                &&& reads(lines[3]) == "  token:     "@ + token + ""@
                &&& lines[5].before == "  export HTTPS_PROXY="@ + url
                &&& lines[6].before == "  export HTTP_PROXY="@ + url
            }
            &&& routes.len() > 0 ==> reads(lines[start + 1]) == "  "@ + "routes:"@ + ""@
            &&& forall|i: int|
                0 <= i < routes.len() ==> (#[trigger] lines[start + 2 + i]).before == "    "@
                    + routes[i]
            &&& ca_path is Some ==> lines[start + listed + 1].before
                == "  TLS interception trust bundle: "@ + paths::shown(ca_path->0)
            &&& reads(lines[lines.len() - 1]) == "  "@ + "Press Ctrl-C to stop."@ + ""@
        }),
{
    let lines = serve::connection_lines(addr, port, token, no_auth, routes, ca_path, false);
    let head = seq![
        serve::plain(""@),
        serve::styled(
            "  "@,
            Style::Bold,
            "nono proxy listening on"@,
            " "@ + serve::socket(addr, port),
        ),
    ];
    let access = serve::access_lines(addr, port, token, no_auth);
    let named = serve::route_lines(routes);
    let authority = serve::ca_lines(ca_path);
    let tail = seq![
        serve::plain(""@),
        serve::styled("  "@, Style::Dimmed, "Press Ctrl-C to stop."@, ""@),
    ];
    assert(lines == head + access + named + authority + tail);
    let start: int = if no_auth {
        4
    } else {
        7
    };
    assert forall|i: int| 0 <= i < routes.len() implies (#[trigger] lines[start + 2 + i]).before
        == "    "@ + routes[i] by {
        assert(lines[start + 2 + i] == named[2 + i]);
    }
    if routes.len() > 0 {
        assert(lines[start + 1] == named[1]);
    }
    if ca_path is Some {
        let listed: int = if routes.len() == 0 {
            0
        } else {
            2 + routes.len() as int
        };
        assert(lines[start + listed + 1] == authority[1]);
    }
    assert(lines[lines.len() - 1] == tail[1]);
}

} // verus!
