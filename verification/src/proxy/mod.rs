//! The standalone proxy command.
//!
//! Runs the network-filtering and credential-injecting proxy as a foreground
//! server, without a sandboxed child. Settings come from a profile and are
//! extended or overridden by explicit flags. The decisions stand here; starting
//! and serving is left to the caller.
use vstd::prelude::*;

use crate::command_policy;
use crate::command_policy::{CommandPoliciesConfig, PoliciesModel};
use crate::name_map::{NameMap, Replicate};
use crate::text;

pub mod args;
pub mod args_laws;
pub mod launch;
pub mod launch_laws;
pub mod serve;
pub mod view_laws;

verus! {

/// A request that a restricted route lets through.
#[derive(Debug, PartialEq, Eq)]
pub struct EndpointRule {
    pub method: String,
    pub path: String,
}

/// What an endpoint rule stands for.
#[verifier::ext_equal]
pub struct EndpointModel {
    pub method: Seq<char>,
    pub path: Seq<char>,
}

impl View for EndpointRule {
    type V = EndpointModel;

    open spec fn view(&self) -> EndpointModel {
        EndpointModel { method: self.method@, path: self.path@ }
    }
}

impl Clone for EndpointRule {
    fn clone(&self) -> (r: Self)
        ensures
            r@ == self@,
    {
        EndpointRule { method: self.method.clone(), path: self.path.clone() }
    }
}

/// A domain that the proxy lets through.
#[derive(Debug, PartialEq, Eq)]
pub enum AllowDomainEntry {
    /// All of it.
    Plain(String),
    /// Some endpoints of it.
    WithEndpoints { domain: String, endpoints: Vec<EndpointRule> },
}

/// What an allowed domain stands for.
#[verifier::ext_equal]
pub enum DomainModel {
    Plain(Seq<char>),
    WithEndpoints { domain: Seq<char>, endpoints: Seq<EndpointModel> },
}

impl View for AllowDomainEntry {
    type V = DomainModel;

    open spec fn view(&self) -> DomainModel {
        match self {
            AllowDomainEntry::Plain(domain) => DomainModel::Plain(domain@),
            AllowDomainEntry::WithEndpoints { domain, endpoints } => DomainModel::WithEndpoints {
                domain: domain@,
                endpoints: text::views(endpoints@),
            },
        }
    }
}

impl Clone for AllowDomainEntry {
    fn clone(&self) -> (r: Self)
        ensures
            r@ == self@,
    {
        match self {
            AllowDomainEntry::Plain(domain) => AllowDomainEntry::Plain(domain.clone()),
            AllowDomainEntry::WithEndpoints { domain, endpoints } => {
                let mut out: Vec<EndpointRule> = Vec::new();
                for i in 0..endpoints.len()
                    invariant
                        out@.len() == i,
                        forall|j: int| 0 <= j < i ==> (#[trigger] out@[j])@ == endpoints@[j]@,
                {
                    out.push(endpoints[i].clone());
                }
                assert(text::views(out@) =~= text::views(endpoints@));
                AllowDomainEntry::WithEndpoints { domain: domain.clone(), endpoints: out }
            },
        }
    }
}

/// A command that captures a credential.
#[derive(Debug, PartialEq, Eq)]
pub struct CredentialCapture {
    pub command: Vec<String>,
    pub cache_path_regex: Option<String>,
    pub timeout_secs: Option<u64>,
}

/// What a capture stands for.
#[verifier::ext_equal]
pub struct CaptureModel {
    pub command: Seq<Seq<char>>,
    pub cache_path_regex: Option<Seq<char>>,
    pub timeout_secs: Option<u64>,
}

impl View for CredentialCapture {
    type V = CaptureModel;

    open spec fn view(&self) -> CaptureModel {
        CaptureModel {
            command: text::texts(self.command@),
            cache_path_regex: text::opt_text(self.cache_path_regex),
            timeout_secs: self.timeout_secs,
        }
    }
}

impl Replicate for CredentialCapture {
    fn replicate(&self) -> (r: Self) {
        CredentialCapture {
            command: text::copy_texts(&self.command),
            cache_path_regex: text::copy_opt_text(&self.cache_path_regex),
            timeout_secs: self.timeout_secs,
        }
    }
}

/// How long the interception authority of a profile lives.
#[derive(Debug, Clone, Copy, PartialEq, Eq, Structural)]
pub enum CaLifecycle {
    /// For one session.
    Session,
    /// Across sessions, trusted by the system's keychain.
    Trusted,
}

/// What a profile says of TLS interception. Times are in seconds.
#[derive(Debug, PartialEq, Eq)]
pub struct TlsInterceptSettings {
    pub ca_lifecycle: Option<CaLifecycle>,
    pub ca_validity: Option<u64>,
    pub leaf_validity: Option<u64>,
    pub ca_env_vars: Vec<String>,
}

/// What such settings stand for.
#[verifier::ext_equal]
pub struct TlsSettingsModel {
    pub ca_lifecycle: Option<CaLifecycle>,
    pub ca_validity: Option<u64>,
    pub leaf_validity: Option<u64>,
    pub ca_env_vars: Seq<Seq<char>>,
}

impl View for TlsInterceptSettings {
    type V = TlsSettingsModel;

    open spec fn view(&self) -> TlsSettingsModel {
        TlsSettingsModel {
            ca_lifecycle: self.ca_lifecycle,
            ca_validity: self.ca_validity,
            leaf_validity: self.leaf_validity,
            ca_env_vars: text::texts(self.ca_env_vars@),
        }
    }
}

/// What a profile says of the network.
#[derive(Debug, PartialEq, Eq)]
pub struct NetworkSettings {
    pub network_profile: Option<String>,
    pub allow_domain: Vec<AllowDomainEntry>,
    pub deny_domain: Vec<String>,
    pub credentials: Vec<String>,
    /// Definitions of further credentials, by name, each as its source text.
    pub custom_credentials: NameMap<String>,
    pub upstream_proxy: Option<String>,
    pub upstream_bypass: Vec<String>,
    pub tls_intercept: Option<TlsInterceptSettings>,
    pub allow_http2: bool,
}

/// What network settings stand for.
#[verifier::ext_equal]
pub struct NetworkSettingsModel {
    pub network_profile: Option<Seq<char>>,
    pub allow_domain: Seq<DomainModel>,
    pub deny_domain: Seq<Seq<char>>,
    pub credentials: Seq<Seq<char>>,
    pub custom_credentials: Map<Seq<char>, Seq<char>>,
    pub upstream_proxy: Option<Seq<char>>,
    pub upstream_bypass: Seq<Seq<char>>,
    pub tls_intercept: Option<TlsSettingsModel>,
    pub allow_http2: bool,
}

impl View for NetworkSettings {
    type V = NetworkSettingsModel;

    open spec fn view(&self) -> NetworkSettingsModel {
        NetworkSettingsModel {
            network_profile: text::opt_text(self.network_profile),
            allow_domain: text::views(self.allow_domain@),
            deny_domain: text::texts(self.deny_domain@),
            credentials: text::texts(self.credentials@),
            custom_credentials: self.custom_credentials@,
            upstream_proxy: text::opt_text(self.upstream_proxy),
            upstream_bypass: text::texts(self.upstream_bypass@),
            tls_intercept: command_policy::opt_view(self.tls_intercept),
            allow_http2: self.allow_http2,
        }
    }
}

/// Network settings that say nothing.
pub open spec fn no_network_settings() -> NetworkSettingsModel {
    NetworkSettingsModel {
        network_profile: None,
        allow_domain: Seq::empty(),
        deny_domain: Seq::empty(),
        credentials: Seq::empty(),
        custom_credentials: Map::empty(),
        upstream_proxy: None,
        upstream_bypass: Seq::empty(),
        tls_intercept: None,
        allow_http2: false,
    }
}

impl Default for NetworkSettings {
    fn default() -> (r: Self)
        ensures
            r@ == no_network_settings(),
    {
        let r = NetworkSettings {
            network_profile: None,
            allow_domain: Vec::new(),
            deny_domain: Vec::new(),
            credentials: Vec::new(),
            custom_credentials: NameMap::new(),
            upstream_proxy: None,
            upstream_bypass: Vec::new(),
            tls_intercept: None,
            allow_http2: false,
        };
        assert(r@ =~= no_network_settings());
        r
    }
}

/// The part of a profile that concerns the proxy.
#[derive(Debug, PartialEq, Eq)]
pub struct ProxyProfile {
    pub network: NetworkSettings,
    pub credential_capture: NameMap<CredentialCapture>,
    pub command_policies: Option<CommandPoliciesConfig>,
}

/// What such a profile stands for.
#[verifier::ext_equal]
pub struct ProfileModel {
    pub network: NetworkSettingsModel,
    pub credential_capture: Map<Seq<char>, CaptureModel>,
    pub command_policies: Option<PoliciesModel>,
}

impl View for ProxyProfile {
    type V = ProfileModel;

    open spec fn view(&self) -> ProfileModel {
        ProfileModel {
            network: self.network@,
            credential_capture: self.credential_capture@,
            command_policies: command_policy::opt_view(self.command_policies),
        }
    }
}

/// A profile that says nothing.
pub open spec fn no_profile() -> ProfileModel {
    ProfileModel {
        network: no_network_settings(),
        credential_capture: Map::empty(),
        command_policies: None,
    }
}

impl Default for ProxyProfile {
    fn default() -> (r: Self)
        ensures
            r@ == no_profile(),
    {
        ProxyProfile {
            network: NetworkSettings::default(),
            credential_capture: NameMap::new(),
            command_policies: None,
        }
    }
}

} // verus!
