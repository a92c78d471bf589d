//! What the values of this library stand for, field by field.
use vstd::prelude::*;

use crate::proxy::{
    CredentialCapture, EndpointRule, NetworkSettings, ProxyProfile, TlsInterceptSettings,
};
use crate::proxy::args::{FlagUse, ProxyArgs};
use crate::proxy::launch::{
    CredentialProxyIntent, DomainFilterIntent, EndpointRestriction, ProxyLaunchOptions,
    TlsInterceptIntent, TlsOptions, UpstreamProxyIntent,
};
use crate::proxy::serve::{ServerSettings, StyledLine, SuppliedCa};
use crate::text_laws;

verus! {

/// A `ProxyArgs` stands for its fields, each under its own name.
pub proof fn law_proxy_args_view(value: ProxyArgs)
    ensures
        text_laws::stands_for(value@.profile, value.profile),
        text_laws::stands_for(value@.network_profile, value.network_profile),
        text_laws::stand_for(value@.allow_proxy, value.allow_proxy@),
        text_laws::stand_for(value@.deny_proxy, value.deny_proxy@),
        text_laws::stand_for(value@.proxy_credential, value.proxy_credential@),
        text_laws::stand_for(value@.allow_endpoint, value.allow_endpoint@),
        text_laws::stands_for(value@.external_proxy, value.external_proxy),
        text_laws::stand_for(value@.external_proxy_bypass, value.external_proxy_bypass@),
        value@.proxy_ca_validity == value.proxy_ca_validity,
        text_laws::stands_for(value@.proxy_ca_cert, value.proxy_ca_cert),
        text_laws::stands_for(value@.proxy_ca_key, value.proxy_ca_key),
        value@.trust_proxy_ca == value.trust_proxy_ca,
        value@.allow_http2 == value.allow_http2,
        value@.no_auth == value.no_auth,
        text_laws::stands_for(value@.pass, value.pass),
        value@.listen == value.listen@,
        value@.port == value.port,
        value@.max_connections == value.max_connections,
{
}

/// A `FlagUse` stands for its fields, each under its own name.
pub proof fn law_flag_use_view(value: FlagUse)
    ensures
        value@.flag == value.flag@,
        value@.value == value.value@,
{
}

/// A `DomainFilterIntent` stands for its fields, each under its own name.
pub proof fn law_domain_filter_intent_view(value: DomainFilterIntent)
    ensures
        text_laws::stands_for(value@.network_profile, value.network_profile),
        text_laws::stand_for(value@.allow_domain, value.allow_domain@),
        text_laws::stand_for(value@.deny_domain, value.deny_domain@),
{
}

/// A `EndpointRestriction` stands for its fields, each under its own name.
pub proof fn law_endpoint_restriction_view(value: EndpointRestriction)
    ensures
        value@.service == value.service@,
        value@.rule == value.rule@,
{
}

/// A `CredentialProxyIntent` stands for its fields, each under its own name.
pub proof fn law_credential_proxy_intent_view(value: CredentialProxyIntent)
    ensures
        text_laws::stand_for(value@.credentials, value.credentials@),
        value@.custom_credentials == value.custom_credentials@,
        text_laws::stand_for(value@.endpoint_restrictions, value.endpoint_restrictions@),
{
}

/// A `UpstreamProxyIntent` stands for its fields, each under its own name.
pub proof fn law_upstream_proxy_intent_view(value: UpstreamProxyIntent)
    ensures
        value@.address == value.address@,
        text_laws::stand_for(value@.bypass, value.bypass@),
{
}

/// A `TlsInterceptIntent` stands for its fields, each under its own name.
pub proof fn law_tls_intercept_intent_view(value: TlsInterceptIntent)
    ensures
        value@.trust_proxy_ca == value.trust_proxy_ca,
        value@.ca_validity == value.ca_validity,
        text_laws::stand_for(value@.ca_env_vars, value.ca_env_vars@),
{
}

/// A `ProxyLaunchOptions` stands for its fields, each under its own name.
pub proof fn law_proxy_launch_options_view(value: ProxyLaunchOptions)
    ensures
        text_laws::stands_for(value@.domain_filter, value.domain_filter),
        text_laws::stands_for(value@.endpoint_filter, value.endpoint_filter),
        text_laws::stands_for(value@.credentials, value.credentials),
        text_laws::stands_for(value@.upstream_proxy, value.upstream_proxy),
        text_laws::stands_for(value@.tls_intercept, value.tls_intercept),
        value@.proxy_leaf_validity == value.proxy_leaf_validity,
        text_laws::stands_for(value@.command_policies, value.command_policies),
        value@.credential_capture == value.credential_capture@,
        value@.session_id == value.session_id@,
        value@.enable_h2 == value.enable_h2,
{
}

/// A `TlsOptions` stands for its fields, each under its own name.
pub proof fn law_tls_options_view(value: TlsOptions)
    ensures
        value@.trust_proxy_ca == value.trust_proxy_ca,
        value@.ca_validity == value.ca_validity,
        value@.leaf_validity == value.leaf_validity,
        text_laws::stand_for(value@.ca_env_vars, value.ca_env_vars@),
{
}

/// A `EndpointRule` stands for its fields, each under its own name.
pub proof fn law_endpoint_rule_view(value: EndpointRule)
    ensures
        value@.method == value.method@,
        value@.path == value.path@,
{
}

/// A `CredentialCapture` stands for its fields, each under its own name.
pub proof fn law_credential_capture_view(value: CredentialCapture)
    ensures
        text_laws::stand_for(value@.command, value.command@),
        text_laws::stands_for(value@.cache_path_regex, value.cache_path_regex),
        value@.timeout_secs == value.timeout_secs,
{
}

/// A `TlsInterceptSettings` stands for its fields, each under its own name.
pub proof fn law_tls_intercept_settings_view(value: TlsInterceptSettings)
    ensures
        value@.ca_lifecycle == value.ca_lifecycle,
        value@.ca_validity == value.ca_validity,
        value@.leaf_validity == value.leaf_validity,
        text_laws::stand_for(value@.ca_env_vars, value.ca_env_vars@),
{
}

/// A `NetworkSettings` stands for its fields, each under its own name.
pub proof fn law_network_settings_view(value: NetworkSettings)
    ensures
        text_laws::stands_for(value@.network_profile, value.network_profile),
        text_laws::stand_for(value@.allow_domain, value.allow_domain@),
        text_laws::stand_for(value@.deny_domain, value.deny_domain@),
        text_laws::stand_for(value@.credentials, value.credentials@),
        value@.custom_credentials == value.custom_credentials@,
        text_laws::stands_for(value@.upstream_proxy, value.upstream_proxy),
        text_laws::stand_for(value@.upstream_bypass, value.upstream_bypass@),
        text_laws::stands_for(value@.tls_intercept, value.tls_intercept),
        value@.allow_http2 == value.allow_http2,
{
}

/// A `ProxyProfile` stands for its fields, each under its own name.
pub proof fn law_proxy_profile_view(value: ProxyProfile)
    ensures
        value@.network == value.network@,
        value@.credential_capture == value.credential_capture@,
        text_laws::stands_for(value@.command_policies, value.command_policies),
{
}

/// A `SuppliedCa` stands for its fields, each under its own name.
pub proof fn law_supplied_ca_view(value: SuppliedCa)
    ensures
        value@.cert == value.cert@,
        value@.key == value.key@,
{
}

/// A `ServerSettings` stands for its fields, each under its own name.
pub proof fn law_server_settings_view(value: ServerSettings)
    ensures
        value@.bind_addr == value.bind_addr@,
        value@.bind_port == value.bind_port,
        value@.require_auth == value.require_auth,
        value@.strict_connect_auth == value.strict_connect_auth,
        value@.max_connections == value.max_connections,
        text_laws::stands_for(value@.session_token, value.session_token),
        text_laws::stands_for(value@.supplied_ca, value.supplied_ca),
{
}

/// A `StyledLine` stands for its fields, each under its own name.
pub proof fn law_styled_line_view(value: StyledLine)
    ensures
        value@.before == value.before@,
        value@.style == value.style,
        value@.styled == value.styled@,
        value@.after == value.after@,
{
}

} // verus!
