//! What the standalone proxy is asked to do: a profile's settings, extended and
//! overridden by flags.
use vstd::prelude::*;

use crate::command_policy;
use crate::command_policy::{CommandPoliciesConfig, PoliciesModel};
use crate::error::{ErrorModel, NonoError};
use crate::name_map::NameMap;
use crate::proxy::args::{ArgsModel, ProxyArgs};
use crate::proxy::{
    AllowDomainEntry, CaLifecycle, CaptureModel, CredentialCapture, DomainModel, EndpointModel,
    EndpointRule, NetworkSettingsModel, ProfileModel, ProxyProfile, TlsInterceptSettings,
    TlsSettingsModel,
};
use crate::proxy;
use crate::text;

verus! {

// ---------------------------------------------------------------------------
// Intents
// ---------------------------------------------------------------------------

/// Which domains the proxy lets through.
#[derive(Debug, PartialEq, Eq)]
pub struct DomainFilterIntent {
    pub network_profile: Option<String>,
    pub allow_domain: Vec<AllowDomainEntry>,
    pub deny_domain: Vec<String>,
}

/// What a domain filter stands for.
#[verifier::ext_equal]
pub struct DomainFilterModel {
    pub network_profile: Option<Seq<char>>,
    pub allow_domain: Seq<DomainModel>,
    pub deny_domain: Seq<Seq<char>>,
}

impl View for DomainFilterIntent {
    type V = DomainFilterModel;

    open spec fn view(&self) -> DomainFilterModel {
        DomainFilterModel {
            network_profile: text::opt_text(self.network_profile),
            allow_domain: text::views(self.allow_domain@),
            deny_domain: text::texts(self.deny_domain@),
        }
    }
}

/// Which domains the proxy lets through in part.
#[derive(Debug, PartialEq, Eq)]
pub struct EndpointFilterIntent {
    pub routes: Vec<AllowDomainEntry>,
}

/// What an endpoint filter stands for.
#[verifier::ext_equal]
pub struct EndpointFilterModel {
    pub routes: Seq<DomainModel>,
}

impl View for EndpointFilterIntent {
    type V = EndpointFilterModel;

    open spec fn view(&self) -> EndpointFilterModel {
        EndpointFilterModel { routes: text::views(self.routes@) }
    }
}

/// A credential's service with one request that it is restricted to.
#[derive(Debug, PartialEq, Eq)]
pub struct EndpointRestriction {
    pub service: String,
    pub rule: EndpointRule,
}

/// What a restriction stands for.
#[verifier::ext_equal]
pub struct RestrictionModel {
    pub service: Seq<char>,
    pub rule: EndpointModel,
}

impl View for EndpointRestriction {
    type V = RestrictionModel;

    open spec fn view(&self) -> RestrictionModel {
        RestrictionModel { service: self.service@, rule: self.rule@ }
    }
}

/// Which credentials the proxy injects.
#[derive(Debug, PartialEq, Eq)]
pub struct CredentialProxyIntent {
    pub credentials: Vec<String>,
    pub custom_credentials: NameMap<String>,
    pub endpoint_restrictions: Vec<EndpointRestriction>,
}

/// What a credential intent stands for.
#[verifier::ext_equal]
pub struct CredentialIntentModel {
    pub credentials: Seq<Seq<char>>,
    pub custom_credentials: Map<Seq<char>, Seq<char>>,
    pub endpoint_restrictions: Seq<RestrictionModel>,
}

impl View for CredentialProxyIntent {
    type V = CredentialIntentModel;

    open spec fn view(&self) -> CredentialIntentModel {
        CredentialIntentModel {
            credentials: text::texts(self.credentials@),
            custom_credentials: self.custom_credentials@,
            endpoint_restrictions: text::views(self.endpoint_restrictions@),
        }
    }
}

/// Which proxy stands behind this one, and what goes round it.
#[derive(Debug, PartialEq, Eq)]
pub struct UpstreamProxyIntent {
    pub address: String,
    pub bypass: Vec<String>,
}

/// What an upstream intent stands for.
#[verifier::ext_equal]
pub struct UpstreamModel {
    pub address: Seq<char>,
    pub bypass: Seq<Seq<char>>,
}

impl View for UpstreamProxyIntent {
    type V = UpstreamModel;

    open spec fn view(&self) -> UpstreamModel {
        UpstreamModel { address: self.address@, bypass: text::texts(self.bypass@) }
    }
}

/// How TLS is intercepted. Times are in seconds.
#[derive(Debug, PartialEq, Eq)]
pub struct TlsInterceptIntent {
    pub trust_proxy_ca: bool,
    pub ca_validity: Option<u64>,
    pub ca_env_vars: Vec<String>,
}

/// What a TLS intent stands for.
#[verifier::ext_equal]
pub struct TlsIntentModel {
    pub trust_proxy_ca: bool,
    pub ca_validity: Option<u64>,
    pub ca_env_vars: Seq<Seq<char>>,
}

impl View for TlsInterceptIntent {
    type V = TlsIntentModel;

    open spec fn view(&self) -> TlsIntentModel {
        TlsIntentModel {
            trust_proxy_ca: self.trust_proxy_ca,
            ca_validity: self.ca_validity,
            ca_env_vars: text::texts(self.ca_env_vars@),
        }
    }
}

/// Everything that the proxy is asked to do.
#[derive(Debug, PartialEq, Eq)]
pub struct ProxyLaunchOptions {
    pub domain_filter: Option<DomainFilterIntent>,
    pub endpoint_filter: Option<EndpointFilterIntent>,
    pub credentials: Option<CredentialProxyIntent>,
    pub upstream_proxy: Option<UpstreamProxyIntent>,
    pub tls_intercept: Option<TlsInterceptIntent>,
    pub proxy_leaf_validity: Option<u64>,
    pub command_policies: Option<CommandPoliciesConfig>,
    pub credential_capture: NameMap<CredentialCapture>,
    pub session_id: String,
    pub enable_h2: bool,
}

/// What launch options stand for.
#[verifier::ext_equal]
pub struct LaunchModel {
    pub domain_filter: Option<DomainFilterModel>,
    pub endpoint_filter: Option<EndpointFilterModel>,
    pub credentials: Option<CredentialIntentModel>,
    pub upstream_proxy: Option<UpstreamModel>,
    pub tls_intercept: Option<TlsIntentModel>,
    pub proxy_leaf_validity: Option<u64>,
    pub command_policies: Option<PoliciesModel>,
    pub credential_capture: Map<Seq<char>, CaptureModel>,
    pub session_id: Seq<char>,
    pub enable_h2: bool,
}

impl View for ProxyLaunchOptions {
    type V = LaunchModel;

    open spec fn view(&self) -> LaunchModel {
        LaunchModel {
            domain_filter: command_policy::opt_view(self.domain_filter),
            endpoint_filter: command_policy::opt_view(self.endpoint_filter),
            credentials: command_policy::opt_view(self.credentials),
            upstream_proxy: command_policy::opt_view(self.upstream_proxy),
            tls_intercept: command_policy::opt_view(self.tls_intercept),
            proxy_leaf_validity: self.proxy_leaf_validity,
            command_policies: command_policy::opt_view(self.command_policies),
            credential_capture: self.credential_capture@,
            session_id: self.session_id@,
            enable_h2: self.enable_h2,
        }
    }
}

// ---------------------------------------------------------------------------
// TLS interception
// ---------------------------------------------------------------------------

/// How TLS is to be intercepted, once profile and flags are taken together.
#[derive(Debug, PartialEq, Eq)]
pub struct TlsOptions {
    /// The system's keychain is to trust the authority.
    pub trust_proxy_ca: bool,
    pub ca_validity: Option<u64>,
    pub leaf_validity: Option<u64>,
    pub ca_env_vars: Vec<String>,
}

/// What TLS options stand for.
#[verifier::ext_equal]
pub struct TlsOptionsModel {
    pub trust_proxy_ca: bool,
    pub ca_validity: Option<u64>,
    pub leaf_validity: Option<u64>,
    pub ca_env_vars: Seq<Seq<char>>,
}

impl View for TlsOptions {
    type V = TlsOptionsModel;

    open spec fn view(&self) -> TlsOptionsModel {
        TlsOptionsModel {
            trust_proxy_ca: self.trust_proxy_ca,
            ca_validity: self.ca_validity,
            leaf_validity: self.leaf_validity,
            ca_env_vars: text::texts(self.ca_env_vars@),
        }
    }
}

/// Seconds in a day.
pub const DAY: u64 = 86400;

/// Whether the system's keychain is to trust the authority: as the profile or
/// the flag says, unless they contradict each other or the system has none.
pub open spec fn ca_trust(
    lifecycle: Option<CaLifecycle>,
    keychain: bool,
    trust_flag: bool,
) -> Result<bool, ErrorModel> {
    match lifecycle {
        Some(CaLifecycle::Trusted) => if keychain {
            Ok(true)
        } else {
            Err(
                ErrorModel::ConfigParse(
                    "network.tls_intercept.ca_lifecycle=trusted is only supported on macOS"@,
                ),
            )
        },
        Some(CaLifecycle::Session) => if keychain && trust_flag {
            Err(
                ErrorModel::ConfigParse(
                    "--trust-proxy-ca conflicts with network.tls_intercept.ca_lifecycle=session"@,
                ),
            )
        } else {
            Ok(false)
        },
        None => Ok(keychain && trust_flag),
    }
}

/// The flag for the validity, in days, overrides the profile.
pub open spec fn tls_options(
    settings: Option<TlsSettingsModel>,
    keychain: bool,
    trust_flag: bool,
    flag_days: Option<u32>,
) -> Result<TlsOptionsModel, ErrorModel> {
    let profile = match settings {
        Some(settings) => settings,
        None => TlsSettingsModel {
            ca_lifecycle: None,
            ca_validity: None,
            leaf_validity: None,
            ca_env_vars: Seq::empty(),
        },
    };
    match ca_trust(profile.ca_lifecycle, keychain, trust_flag) {
        Err(error) => Err(error),
        Ok(trust_proxy_ca) => Ok(
            TlsOptionsModel {
                trust_proxy_ca,
                ca_validity: match flag_days {
                    Some(days) => Some((days * DAY) as u64),
                    None => profile.ca_validity,
                },
                leaf_validity: profile.leaf_validity,
                ca_env_vars: profile.ca_env_vars,
            },
        ),
    }
}

fn decide_trust(lifecycle: Option<CaLifecycle>, keychain: bool, trust_flag: bool) -> (r: Result<
    bool,
    NonoError,
>)
    ensures
        crate::error::result_view(r) == ca_trust(lifecycle, keychain, trust_flag),
{
    match lifecycle {
        Some(CaLifecycle::Trusted) => if keychain {
            Ok(true)
        } else {
            Err(
                NonoError::ConfigParse(
                    "network.tls_intercept.ca_lifecycle=trusted is only supported on macOS".to_owned(),
                ),
            )
        },
        Some(CaLifecycle::Session) => if keychain && trust_flag {
            Err(
                NonoError::ConfigParse(
                    "--trust-proxy-ca conflicts with network.tls_intercept.ca_lifecycle=session".to_owned(),
                ),
            )
        } else {
            Ok(false)
        },
        None => Ok(keychain && trust_flag),
    }
}

/// Takes a profile's settings for TLS interception together with the flags for
/// trust in the authority and for its validity, in days. `keychain` says that
/// the system has a keychain that can trust it.
pub fn resolve_profile_tls_intercept_options(
    settings: Option<&TlsInterceptSettings>,
    keychain: bool,
    trust_flag: bool,
    flag_days: Option<u32>,
) -> (r: Result<TlsOptions, NonoError>)
    ensures
        crate::error::outcome(r) == tls_options(
            match settings {
                Some(settings) => Some(settings@),
                None => None,
            },
            keychain,
            trust_flag,
            flag_days,
        ),
{
    let flag_validity: Option<u64> = match flag_days {
        Some(days) => Some((days as u64) * DAY),
        None => None,
    };
    match settings {
        Some(settings) => match decide_trust(settings.ca_lifecycle, keychain, trust_flag) {
            Err(error) => Err(error),
            Ok(trust_proxy_ca) => Ok(
                TlsOptions {
                    trust_proxy_ca,
                    ca_validity: match flag_validity {
                        Some(seconds) => Some(seconds),
                        None => settings.ca_validity,
                    },
                    leaf_validity: settings.leaf_validity,
                    ca_env_vars: text::copy_texts(&settings.ca_env_vars),
                },
            ),
        },
        None => {
            let none: Vec<String> = Vec::new();
            assert(text::texts(none@) =~= Seq::empty());
            Ok(
                TlsOptions {
                    trust_proxy_ca: keychain && trust_flag,
                    ca_validity: flag_validity,
                    leaf_validity: None,
                    ca_env_vars: none,
                },
            )
        },
    }
}

// ---------------------------------------------------------------------------
// Endpoints
// ---------------------------------------------------------------------------

/// What stands before the first `:`, if there is one.
pub open spec fn before_colon(spelled: Seq<char>) -> Option<Seq<char>>
    decreases spelled.len(),
{
    if spelled.len() == 0 {
        None
    } else if spelled[0] == ':' {
        Some(Seq::empty())
    } else {
        match before_colon(spelled.skip(1)) {
            Some(rest) => Some(seq![spelled[0]] + rest),
            None => None,
        }
    }
}

/// The restriction that `SERVICE:METHOD:PATH` spells.
pub open spec fn restriction(spelled: Seq<char>) -> Option<RestrictionModel> {
    match before_colon(spelled) {
        None => None,
        Some(service) => {
            let rest = spelled.skip(service.len() as int + 1);
            match before_colon(rest) {
                None => None,
                Some(method) => {
                    let path = rest.skip(method.len() as int + 1);
                    if service.len() == 0 || method.len() == 0 || path.len() == 0 {
                        None
                    } else {
                        Some(RestrictionModel { service, rule: EndpointModel { method, path } })
                    }
                },
            }
        },
    }
}

/// The restriction that an argument spells, or the error that it does not.
pub open spec fn parsed_restriction(spelled: Seq<char>) -> Result<RestrictionModel, ErrorModel> {
    match restriction(spelled) {
        Some(restriction) => Ok(restriction),
        None => Err(
            ErrorModel::ConfigParse(
                "invalid --allow-endpoint '"@ + spelled + "': expected SERVICE:METHOD:PATH"@,
            ),
        ),
    }
}

proof fn lemma_before_colon(head: Seq<char>, rest: Seq<char>)
    requires
        !head.contains(':'),
    ensures
        before_colon(head + seq![':'] + rest) == Some(head),
    decreases head.len(),
{
    let all = head + seq![':'] + rest;
    if head.len() == 0 {
        assert(all[0] == ':');
        assert(head =~= Seq::empty());
    } else {
        let tail = head.skip(1);
        assert(head[0] != ':');
        assert(!tail.contains(':')) by {
            if tail.contains(':') {
                assert(head[tail.index_of(':') + 1] == ':');
            }
        }
        lemma_before_colon(tail, rest);
        assert(all.skip(1) =~= tail + seq![':'] + rest);
        assert(seq![all[0]] + tail =~= head);
    }
}

/// A restriction that is written as `SERVICE:METHOD:PATH` is read back. Only the
/// path may hold colons of its own.
pub proof fn law_endpoints_read_back(service: Seq<char>, method: Seq<char>, path: Seq<char>)
    requires
        !service.contains(':'),
        !method.contains(':'),
    ensures
        restriction(service + seq![':'] + method + seq![':'] + path) == (if service.len() > 0
            && method.len() > 0 && path.len() > 0 {
            Some(RestrictionModel { service, rule: EndpointModel { method, path } })
        } else {
            None
        }),
{
    let spelled = service + seq![':'] + method + seq![':'] + path;
    let rest = method + seq![':'] + path;
    assert(spelled =~= service + seq![':'] + rest);
    lemma_before_colon(service, rest);
    assert(spelled.skip(service.len() as int + 1) =~= rest);
    lemma_before_colon(method, path);
    assert(rest.skip(method.len() as int + 1) =~= path);
}

/// The head before the colon, given what was read of it so far.
spec fn head_from(read: Seq<char>, rest: Seq<char>) -> Option<Seq<char>> {
    match before_colon(rest) {
        Some(head) => Some(read + head),
        None => None,
    }
}

fn split_at_colon(spelled: &str) -> (r: Option<(String, String)>)
    ensures
        match r {
            Some((head, tail)) => before_colon(spelled@) == Some(head@) && tail@ == spelled@.skip(
                head@.len() as int + 1,
            ),
            None => before_colon(spelled@) is None,
        },
{
    let mut head = String::new();
    let mut tail = String::new();
    let mut found: bool = false;
    proof {
        assert(spelled@.skip(0) =~= spelled@);
        if let Some(h) = before_colon(spelled@) {
            assert(Seq::<char>::empty() + h =~= h);
        }
    }
    for c in it: spelled.chars()
        invariant
            it.seq() == spelled@,
            !found ==> head@.len() == it.index() && tail@.len() == 0 && before_colon(spelled@)
                == head_from(head@, spelled@.skip(it.index() as int)),
            found ==> before_colon(spelled@) == Some(head@) && head@.len() < it.index() && tail@
                == spelled@.subrange(head@.len() as int + 1, it.index() as int),
    {
        let ghost i = it.index() as int;
        let ghost rest = spelled@.skip(i);
        assert(rest[0] == c);
        assert(rest.skip(1) =~= spelled@.skip(i + 1));
        if found {
            tail.push(c);
            assert(tail@ =~= spelled@.subrange(head@.len() as int + 1, i + 1));
        } else if c == ':' {
            found = true;
            assert(head@ + Seq::<char>::empty() =~= head@);
            assert(tail@ =~= spelled@.subrange(i + 1, i + 1));
        } else {
            let ghost before = head@;
            head.push(c);
            proof {
                assert(head@ =~= before + seq![c]);
                if let Some(h) = before_colon(rest.skip(1)) {
                    assert(before + (seq![c] + h) =~= head@ + h);
                }
            }
        }
    }
    if found {
        assert(tail@ =~= spelled@.skip(head@.len() as int + 1));
        Some((head, tail))
    } else {
        None
    }
}

/// Reads `SERVICE:METHOD:PATH`.
pub fn parse_allow_endpoint_arg(spelled: &str) -> (r: Result<EndpointRestriction, NonoError>)
    ensures
        crate::error::outcome(r) == parsed_restriction(spelled@),
{
    if let Some((service, rest)) = split_at_colon(spelled) {
        if let Some((method, path)) = split_at_colon(rest.as_str()) {
            if !service.as_str().is_empty() && !method.as_str().is_empty()
                && !path.as_str().is_empty() {
                return Ok(EndpointRestriction { service, rule: EndpointRule { method, path } });
            }
        }
    }
    Err(
        NonoError::ConfigParse(
            text::cat3(
                "invalid --allow-endpoint '",
                spelled,
                "': expected SERVICE:METHOD:PATH",
            ),
        ),
    )
}

/// The restrictions that a list of arguments spells; the first that spells none
/// decides.
pub open spec fn restrictions(list: Seq<Seq<char>>) -> Result<Seq<RestrictionModel>, ErrorModel>
    decreases list.len(),
{
    if list.len() == 0 {
        Ok(Seq::empty())
    } else {
        match restrictions(list.drop_last()) {
            Err(error) => Err(error),
            Ok(before) => match parsed_restriction(list.last()) {
                Err(error) => Err(error),
                Ok(last) => Ok(before.push(last)),
            },
        }
    }
}

proof fn lemma_restriction_error_stays(list: Seq<Seq<char>>, k: int)
    requires
        0 <= k <= list.len(),
        restrictions(list.take(k)) is Err,
    ensures
        restrictions(list) == restrictions(list.take(k)),
    decreases list.len() - k,
{
    if k < list.len() {
        assert(list.take(k + 1).drop_last() =~= list.take(k));
        lemma_restriction_error_stays(list, k + 1);
    } else {
        assert(list.take(k) =~= list);
    }
}

fn parse_restrictions(list: &Vec<String>) -> (r: Result<Vec<EndpointRestriction>, NonoError>)
    ensures
        match r {
            Ok(parsed) => restrictions(text::texts(list@)) == Ok::<_, ErrorModel>(
                text::views(parsed@),
            ),
            Err(error) => restrictions(text::texts(list@)) == Err::<Seq<RestrictionModel>, _>(
                error@,
            ),
        },
{
    let ghost all = text::texts(list@);
    let mut out: Vec<EndpointRestriction> = Vec::new();
    assert(text::views(out@) =~= Seq::empty());
    for i in 0..list.len()
        invariant
            all == text::texts(list@),
            restrictions(all.take(i as int)) == Ok::<_, ErrorModel>(text::views(out@)),
    {
        assert(all.take(i + 1).drop_last() =~= all.take(i as int));
        assert(all.take(i + 1).last() == list@[i as int]@);
        match parse_allow_endpoint_arg(list[i].as_str()) {
            Ok(parsed) => {
                let ghost before = text::views(out@);
                let ghost value = parsed@;
                out.push(parsed);
                assert(text::views(out@) =~= before.push(value));
            },
            Err(error) => {
                proof {
                    lemma_restriction_error_stays(all, i + 1);
                }
                return Err(error);
            },
        }
    }
    assert(all.take(all.len() as int) =~= all);
    Ok(out)
}

// ---------------------------------------------------------------------------
// Domains and credentials
// ---------------------------------------------------------------------------

/// Only some endpoints of the domain are let through.
pub open spec fn restricted(entry: DomainModel) -> bool {
    match entry {
        DomainModel::Plain(_) => false,
        DomainModel::WithEndpoints { endpoints, .. } => endpoints.len() > 0,
    }
}

/// The entries that are restricted, or those that are not, in order.
pub open spec fn routes(list: Seq<DomainModel>, wanted: bool) -> Seq<DomainModel>
    decreases list.len(),
{
    if list.len() == 0 {
        Seq::empty()
    } else if restricted(list.last()) == wanted {
        routes(list.drop_last(), wanted).push(list.last())
    } else {
        routes(list.drop_last(), wanted)
    }
}

fn is_restricted(entry: &AllowDomainEntry) -> (r: bool)
    ensures
        r == restricted(entry@),
{
    match entry {
        AllowDomainEntry::Plain(_) => false,
        AllowDomainEntry::WithEndpoints { endpoints, .. } => endpoints.len() > 0,
    }
}

/// Picks the entries that are restricted, or those that are not.
fn pick_routes(list: &Vec<AllowDomainEntry>, wanted: bool) -> (r: Vec<AllowDomainEntry>)
    ensures
        text::views(r@) == routes(text::views(list@), wanted),
{
    let ghost all = text::views(list@);
    let mut out: Vec<AllowDomainEntry> = Vec::new();
    assert(text::views(out@) =~= routes(all.take(0), wanted));
    for i in 0..list.len()
        invariant
            all == text::views(list@),
            text::views(out@) == routes(all.take(i as int), wanted),
    {
        assert(all.take(i + 1).drop_last() =~= all.take(i as int));
        assert(all.take(i + 1).last() == list@[i as int]@);
        if is_restricted(&list[i]) == wanted {
            let ghost before = text::views(out@);
            out.push(list[i].clone());
            assert(text::views(out@) =~= before.push(list@[i as int]@));
        }
    }
    assert(all.take(all.len() as int) =~= all);
    out
}

/// The list with those of `more` that it does not hold yet.
pub open spec fn with_new(list: Seq<Seq<char>>, more: Seq<Seq<char>>) -> Seq<Seq<char>>
    decreases more.len(),
{
    if more.len() == 0 {
        list
    } else {
        let before = with_new(list, more.drop_last());
        if before.contains(more.last()) {
            before
        } else {
            before.push(more.last())
        }
    }
}

fn extend_new(list: &Vec<String>, more: &Vec<String>) -> (r: Vec<String>)
    ensures
        text::texts(r@) == with_new(text::texts(list@), text::texts(more@)),
{
    let ghost all = text::texts(more@);
    let mut out = text::copy_texts(list);
    for i in 0..more.len()
        invariant
            all == text::texts(more@),
            text::texts(out@) == with_new(text::texts(list@), all.take(i as int)),
    {
        assert(all.take(i + 1).drop_last() =~= all.take(i as int));
        assert(all.take(i + 1).last() == more@[i as int]@);
        if !text::contains_text(&out, more[i].as_str()) {
            let ghost before = text::texts(out@);
            out.push(more[i].clone());
            assert(text::texts(out@) =~= before.push(more@[i as int]@));
        }
    }
    assert(all.take(all.len() as int) =~= all);
    out
}

fn append_domains(list: &Vec<AllowDomainEntry>, more: &Vec<AllowDomainEntry>) -> (r: Vec<
    AllowDomainEntry,
>)
    ensures
        text::views(r@) == text::views(list@) + text::views(more@),
{
    let mut out: Vec<AllowDomainEntry> = Vec::new();
    for i in 0..list.len()
        invariant
            out@.len() == i,
            forall|j: int| 0 <= j < i ==> (#[trigger] out@[j])@ == list@[j]@,
    {
        out.push(list[i].clone());
    }
    for i in 0..more.len()
        invariant
            out@.len() == list@.len() + i,
            forall|j: int| 0 <= j < list@.len() ==> (#[trigger] out@[j])@ == list@[j]@,
            forall|j: int|
                list@.len() <= j < out@.len() ==> (#[trigger] out@[j])@ == more@[j
                    - list@.len()]@,
    {
        out.push(more[i].clone());
    }
    assert(text::views(out@) =~= text::views(list@) + text::views(more@));
    out
}

/// The first text that is there.
pub open spec fn first_of(a: Option<Seq<char>>, b: Option<Seq<char>>) -> Option<Seq<char>> {
    if a is Some {
        a
    } else {
        b
    }
}

fn first_text(a: &Option<String>, b: &Option<String>) -> (r: Option<String>)
    ensures
        text::opt_text(r) == first_of(text::opt_text(*a), text::opt_text(*b)),
{
    match a {
        Some(value) => Some(value.clone()),
        None => text::copy_opt_text(b),
    }
}

// ---------------------------------------------------------------------------
// Launch options
// ---------------------------------------------------------------------------

/// The domain filter, if anything is filtered.
pub open spec fn domain_filter(
    args: ArgsModel,
    network: NetworkSettingsModel,
    domains: Seq<DomainModel>,
) -> Option<DomainFilterModel> {
    let network_profile = first_of(args.network_profile, network.network_profile);
    let plain = routes(network.allow_domain + domains, false);
    let denied = network.deny_domain + args.deny_proxy;
    if network_profile is Some || plain.len() > 0 || denied.len() > 0 {
        Some(DomainFilterModel { network_profile, allow_domain: plain, deny_domain: denied })
    } else {
        None
    }
}

/// The endpoint filter, if any domain is restricted.
pub open spec fn endpoint_filter(
    network: NetworkSettingsModel,
    domains: Seq<DomainModel>,
) -> Option<EndpointFilterModel> {
    let restricted = routes(network.allow_domain + domains, true);
    if restricted.len() > 0 {
        Some(EndpointFilterModel { routes: restricted })
    } else {
        None
    }
}

/// The credential intent, if there is any credential or restriction.
pub open spec fn credential_intent(
    args: ArgsModel,
    network: NetworkSettingsModel,
    restrictions: Seq<RestrictionModel>,
) -> Option<CredentialIntentModel> {
    let credentials = with_new(network.credentials, args.proxy_credential);
    if credentials.len() == 0 && network.custom_credentials.dom().len() == 0 && restrictions.len()
        == 0 {
        None
    } else {
        Some(
            CredentialIntentModel {
                credentials,
                custom_credentials: network.custom_credentials,
                endpoint_restrictions: restrictions,
            },
        )
    }
}

/// The TLS intent, if interception is set up at all. An authority that the user
/// supplies is not the keychain's.
pub open spec fn tls_intent(args: ArgsModel, tls: TlsOptionsModel) -> Option<TlsIntentModel> {
    let trust_proxy_ca = tls.trust_proxy_ca && args.proxy_ca_cert is None;
    if trust_proxy_ca || tls.ca_validity is Some || tls.ca_env_vars.len() > 0 {
        Some(
            TlsIntentModel {
                trust_proxy_ca,
                ca_validity: tls.ca_validity,
                ca_env_vars: tls.ca_env_vars,
            },
        )
    } else {
        None
    }
}

/// The upstream proxy, and what goes round it: an address from the flags beats
/// the profile's, and nothing goes round a proxy that is not there.
pub open spec fn upstream(args: ArgsModel, network: NetworkSettingsModel) -> Result<
    Option<UpstreamModel>,
    ErrorModel,
> {
    let address = first_of(args.external_proxy, network.upstream_proxy);
    let bypass = network.upstream_bypass + args.external_proxy_bypass;
    match address {
        Some(address) => Ok(Some(UpstreamModel { address, bypass })),
        None => if bypass.len() > 0 {
            Err(
                ErrorModel::ConfigParse(
                    "--upstream-bypass requires --upstream-proxy (or upstream_proxy in profile network config)"@,
                ),
            )
        } else {
            Ok(None)
        },
    }
}

/// What the proxy is asked to do, given what the allowed domains of the flags
/// and the options for TLS interception came to.
pub open spec fn launch_options(
    args: ArgsModel,
    profile: ProfileModel,
    domains: Seq<DomainModel>,
    tls: Result<TlsOptionsModel, ErrorModel>,
    session_id: Seq<char>,
) -> Result<LaunchModel, ErrorModel> {
    let network = profile.network;
    match upstream(args, network) {
        Err(error) => Err(error),
        Ok(upstream_proxy) => match restrictions(args.allow_endpoint) {
            Err(error) => Err(error),
            Ok(restrictions) => match tls {
                Err(error) => Err(error),
                Ok(tls) => Ok(
                    LaunchModel {
                        domain_filter: domain_filter(args, network, domains),
                        endpoint_filter: endpoint_filter(network, domains),
                        credentials: credential_intent(args, network, restrictions),
                        upstream_proxy,
                        tls_intercept: tls_intent(args, tls),
                        proxy_leaf_validity: tls.leaf_validity,
                        command_policies: profile.command_policies,
                        credential_capture: profile.credential_capture,
                        session_id,
                        enable_h2: args.allow_http2 || network.allow_http2,
                    },
                ),
            },
        },
    }
}

fn build_upstream(args: &ProxyArgs, profile: &ProxyProfile) -> (r: Result<
    Option<UpstreamProxyIntent>,
    NonoError,
>)
    ensures
        match r {
            Ok(found) => upstream(args@, profile@.network) == Ok::<_, ErrorModel>(
                command_policy::opt_view(found),
            ),
            Err(error) => upstream(args@, profile@.network) == Err::<Option<UpstreamModel>, _>(
                error@,
            ),
        },
{
    let address = first_text(&args.external_proxy, &profile.network.upstream_proxy);
    let bypass = command_policy::merge::append_args(
        &profile.network.upstream_bypass,
        &args.external_proxy_bypass,
    );
    assert(text::texts(bypass@).len() == bypass@.len());
    match address {
        Some(address) => Ok(Some(UpstreamProxyIntent { address, bypass })),
        None => if bypass.len() > 0 {
            Err(
                NonoError::ConfigParse(
                    "--upstream-bypass requires --upstream-proxy (or upstream_proxy in profile network config)".to_owned(),
                ),
            )
        } else {
            Ok(None)
        },
    }
}

fn build_domain_filter(
    args: &ProxyArgs,
    profile: &ProxyProfile,
    allow_domain: &Vec<AllowDomainEntry>,
    domains: &Vec<AllowDomainEntry>,
) -> (r: Option<DomainFilterIntent>)
    requires
        text::views(allow_domain@) == profile@.network.allow_domain + text::views(domains@),
    ensures
        command_policy::opt_view(r) == domain_filter(args@, profile@.network, text::views(domains@)),
{
    let network_profile = first_text(&args.network_profile, &profile.network.network_profile);
    let plain = pick_routes(allow_domain, false);
    let denied = command_policy::merge::append_args(
        &profile.network.deny_domain,
        &args.deny_proxy,
    );
    assert(text::views(plain@).len() == plain@.len());
    assert(text::texts(denied@).len() == denied@.len());
    if network_profile.is_some() || plain.len() > 0 || denied.len() > 0 {
        Some(DomainFilterIntent { network_profile, allow_domain: plain, deny_domain: denied })
    } else {
        None
    }
}

fn build_credentials(
    args: &ProxyArgs,
    profile: &ProxyProfile,
    restrictions: Vec<EndpointRestriction>,
) -> (r: Option<CredentialProxyIntent>)
    ensures
        command_policy::opt_view(r) == credential_intent(
            args@,
            profile@.network,
            text::views(restrictions@),
        ),
{
    let credentials = extend_new(&profile.network.credentials, &args.proxy_credential);
    assert(text::texts(credentials@).len() == credentials@.len());
    assert(text::views(restrictions@).len() == restrictions@.len());
    if credentials.len() == 0 && profile.network.custom_credentials.is_empty()
        && restrictions.len() == 0 {
        None
    } else {
        Some(
            CredentialProxyIntent {
                credentials,
                custom_credentials: profile.network.custom_credentials.replicate_all(),
                endpoint_restrictions: restrictions,
            },
        )
    }
}

/// Takes the settings of a profile and the flags together. `domains` is what
/// the allowed domains of the flags stand for, `tls` what the options for TLS
/// interception came to, and `session_id` the name of this session.
pub fn build_launch_options(
    args: &ProxyArgs,
    profile: Option<&ProxyProfile>,
    domains: &Vec<AllowDomainEntry>,
    tls: Result<TlsOptions, NonoError>,
    session_id: String,
) -> (r: Result<ProxyLaunchOptions, NonoError>)
    ensures
        crate::error::outcome(r) == launch_options(
            args@,
            match profile {
                Some(profile) => profile@,
                None => proxy::no_profile(),
            },
            text::views(domains@),
            crate::error::outcome(tls),
            session_id@,
        ),
{
    let unset = ProxyProfile::default();
    let profile = match profile {
        Some(profile) => profile,
        None => &unset,
    };
    let upstream_proxy = match build_upstream(args, profile) {
        Ok(upstream_proxy) => upstream_proxy,
        Err(error) => {
            return Err(error);
        },
    };
    let allow_domain = append_domains(&profile.network.allow_domain, domains);
    let domain_filter = build_domain_filter(args, profile, &allow_domain, domains);
    let restricted = pick_routes(&allow_domain, true);
    assert(text::views(restricted@).len() == restricted@.len());
    let endpoint_filter = if restricted.len() > 0 {
        Some(EndpointFilterIntent { routes: restricted })
    } else {
        None
    };
    let restrictions = match parse_restrictions(&args.allow_endpoint) {
        Ok(restrictions) => restrictions,
        Err(error) => {
            return Err(error);
        },
    };
    let credentials = build_credentials(args, profile, restrictions);
    let tls = match tls {
        Ok(tls) => tls,
        Err(error) => {
            return Err(error);
        },
    };
    assert(text::texts(tls.ca_env_vars@).len() == tls.ca_env_vars@.len());
    let trust_proxy_ca = tls.trust_proxy_ca && args.proxy_ca_cert.is_none();
    let tls_intercept = if trust_proxy_ca || tls.ca_validity.is_some() || tls.ca_env_vars.len()
        > 0 {
        Some(
            TlsInterceptIntent {
                trust_proxy_ca,
                ca_validity: tls.ca_validity,
                ca_env_vars: tls.ca_env_vars,
            },
        )
    } else {
        None
    };
    let command_policies = match &profile.command_policies {
        Some(policies) => Some(policies.clone()),
        None => None,
    };
    Ok(
        ProxyLaunchOptions {
            domain_filter,
            endpoint_filter,
            credentials,
            upstream_proxy,
            tls_intercept,
            proxy_leaf_validity: tls.leaf_validity,
            command_policies,
            credential_capture: profile.credential_capture.replicate_all(),
            session_id,
            enable_h2: args.allow_http2 || profile.network.allow_http2,
        },
    )
}

// ---------------------------------------------------------------------------
// What holds of every launch
// ---------------------------------------------------------------------------

proof fn lemma_routes_len(list: Seq<DomainModel>)
    ensures
        routes(list, true).len() + routes(list, false).len() == list.len(),
    decreases list.len(),
{
    if list.len() > 0 {
        lemma_routes_len(list.drop_last());
    }
}

proof fn lemma_routes_hold(list: Seq<DomainModel>, wanted: bool, entry: DomainModel)
    ensures
        routes(list, wanted).contains(entry) <==> list.contains(entry) && restricted(entry)
            == wanted,
    decreases list.len(),
{
    if list.len() > 0 {
        let front = list.drop_last();
        lemma_routes_hold(front, wanted, entry);
        assert(list =~= front.push(list.last()));
        vstd::seq_lib::lemma_seq_contains_after_push(front, list.last(), entry);
        vstd::seq_lib::lemma_seq_contains_after_push(routes(front, wanted), list.last(), entry);
    }
}

/// The domains that are tunnelled whole.
pub open spec fn tunnelled(filter: Option<DomainFilterModel>) -> Seq<DomainModel> {
    match filter {
        Some(filter) => filter.allow_domain,
        None => Seq::empty(),
    }
}

/// The domains that are filtered by endpoint.
pub open spec fn filtered(filter: Option<EndpointFilterModel>) -> Seq<DomainModel> {
    match filter {
        Some(filter) => filter.routes,
        None => Seq::empty(),
    }
}

/// Every allowed domain is either tunnelled or filtered by endpoint: no
/// restricted domain is ever tunnelled whole, none is filtered that is not
/// restricted, none is lost and none is added.
pub proof fn law_domains_are_split(
    args: ArgsModel,
    network: NetworkSettingsModel,
    domains: Seq<DomainModel>,
)
    ensures
        forall|entry: DomainModel| #[trigger]
            tunnelled(domain_filter(args, network, domains)).contains(entry) <==> (
            network.allow_domain + domains).contains(entry) && !restricted(entry),
        forall|entry: DomainModel| #[trigger]
            filtered(endpoint_filter(network, domains)).contains(entry) <==> (network.allow_domain
                + domains).contains(entry) && restricted(entry),
        tunnelled(domain_filter(args, network, domains)).len() + filtered(
            endpoint_filter(network, domains),
        ).len() == network.allow_domain.len() + domains.len(),
{
    let all = network.allow_domain + domains;
    lemma_routes_len(all);
    let plain = tunnelled(domain_filter(args, network, domains));
    let partial = filtered(endpoint_filter(network, domains));
    assert(plain =~= routes(all, false));
    assert(partial =~= routes(all, true));
    assert forall|entry: DomainModel| #[trigger]
        plain.contains(entry) <==> all.contains(entry) && !restricted(entry) by {
        lemma_routes_hold(all, false, entry);
    }
    assert forall|entry: DomainModel| #[trigger]
        partial.contains(entry) <==> all.contains(entry) && restricted(entry) by {
        lemma_routes_hold(all, true, entry);
    }
}

/// Flags win over the profile where only one value can stand, and extend it
/// where many can.
pub proof fn law_flags_win(
    args: ArgsModel,
    profile: ProfileModel,
    domains: Seq<DomainModel>,
    tls: Result<TlsOptionsModel, ErrorModel>,
    session_id: Seq<char>,
)
    requires
        launch_options(args, profile, domains, tls, session_id) is Ok,
    ensures
        ({
            let launch = launch_options(args, profile, domains, tls, session_id)->Ok_0;
            &&& args.external_proxy matches Some(address) ==> launch.upstream_proxy is Some
                && launch.upstream_proxy->0.address == address
            &&& launch.upstream_proxy matches Some(upstream) ==> upstream.bypass
                == profile.network.upstream_bypass + args.external_proxy_bypass
            &&& launch.upstream_proxy is None ==> args.external_proxy_bypass.len() == 0
            &&& args.network_profile is Some ==> launch.domain_filter is Some
                && launch.domain_filter->0.network_profile == args.network_profile
            &&& launch.domain_filter matches Some(filter) ==> filter.deny_domain
                == profile.network.deny_domain + args.deny_proxy
            &&& launch.domain_filter is None ==> args.deny_proxy.len() == 0
            &&& args.allow_http2 ==> launch.enable_h2
            &&& args.proxy_ca_cert is Some ==> (launch.tls_intercept matches Some(intent)
                ==> !intent.trust_proxy_ca)
            &&& forall|name: Seq<char>| #[trigger]
                args.proxy_credential.contains(name) || profile.network.credentials.contains(name)
                    ==> launch.credentials is Some && launch.credentials->0.credentials.contains(
                    name,
                )
        }),
{
    let list = profile.network.credentials;
    lemma_with_new(list, args.proxy_credential);
    assert forall|name: Seq<char>| #[trigger]
        args.proxy_credential.contains(name) || list.contains(name) implies with_new(
        list,
        args.proxy_credential,
    ).contains(name) by {}
    assert forall|name: Seq<char>| #[trigger]
        args.proxy_credential.contains(name) || list.contains(name) implies with_new(
        list,
        args.proxy_credential,
    ).len() > 0 by {
        assert(with_new(list, args.proxy_credential).contains(name));
    }
}

proof fn lemma_with_new(list: Seq<Seq<char>>, more: Seq<Seq<char>>)
    ensures
        forall|name: Seq<char>| #[trigger]
            with_new(list, more).contains(name) <==> list.contains(name) || more.contains(name),
    decreases more.len(),
{
    if more.len() > 0 {
        let front = more.drop_last();
        let before = with_new(list, front);
        lemma_with_new(list, front);
        assert(more =~= front.push(more.last()));
        assert forall|name: Seq<char>| #[trigger]
            with_new(list, more).contains(name) <==> list.contains(name) || more.contains(
                name,
            ) by {
            vstd::seq_lib::lemma_seq_contains_after_push(front, more.last(), name);
            vstd::seq_lib::lemma_seq_contains_after_push(before, more.last(), name);
            assert(before.contains(name) <==> list.contains(name) || front.contains(name));
        }
    }
}

} // verus!
