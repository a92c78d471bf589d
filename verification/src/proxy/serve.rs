//! Running the standalone proxy.
//!
//! The proxy is brought up in phases. Each phase is work for the caller; what
//! its outcome leads to is decided here. The order of the phases matters: an
//! authority that the user supplies is loaded after the profile's TLS settings
//! are applied, so that it replaces whatever these installed.
use vstd::prelude::*;

use crate::command_policy;
use crate::error::{ErrorModel, NonoError};
use crate::paths;
use crate::paths::FilePath;
use crate::proxy::args::{ArgsModel, ProxyArgs};
use crate::text;

verus! {

// ---------------------------------------------------------------------------
// Where the proxy listens
// ---------------------------------------------------------------------------

/// An address to listen on: how it is written, and its octets.
#[derive(Debug, PartialEq, Eq)]
pub struct ListenAddr {
    pub spelled: String,
    pub octets: Vec<u8>,
}

/// Only this machine can reach the address: `127.0.0.0/8`, or `::1`.
pub open spec fn loopback(octets: Seq<u8>) -> bool {
    ||| octets.len() == 4 && octets[0] == 127
    ||| octets.len() == 16 && octets[15] == 1 && forall|i: int| 0 <= i < 15 ==> octets[i] == 0
}

impl ListenAddr {
    /// Tells whether only this machine can reach the address.
    pub fn is_loopback(&self) -> (r: bool)
        ensures
            r == loopback(self.octets@),
    {
        if self.octets.len() == 4 {
            return self.octets[0] == 127;
        }
        if self.octets.len() != 16 {
            return false;
        }
        for i in 0..15usize
            invariant
                self.octets@.len() == 16,
                forall|j: int| 0 <= j < i ==> self.octets@[j] == 0,
        {
            if self.octets[i] != 0 {
                assert(self.octets@[i as int] != 0);
                return false;
            }
        }
        self.octets[15] == 1
    }
}

/// A proxy without authentication stays on this machine.
pub open spec fn bind_error(
    args: ArgsModel,
    spelled: Seq<char>,
    octets: Seq<u8>,
) -> Option<ErrorModel> {
    if args.no_auth && !loopback(octets) {
        Some(
            ErrorModel::ConfigParse(
                "--no-auth requires a loopback --listen address (got "@ + spelled
                    + "); refusing to start an open proxy reachable from other hosts"@,
            ),
        )
    } else {
        None
    }
}

// ---------------------------------------------------------------------------
// Phases
// ---------------------------------------------------------------------------

/// What is to be done next to bring up the proxy, or how it ended.
#[derive(Debug, PartialEq, Eq)]
pub enum ProxyPhase {
    /// Load the profile and take it together with the flags.
    BuildOptions,
    /// Build the configuration of the server.
    BuildConfig,
    /// Apply the settings for TLS interception.
    ApplyTls,
    /// Read the certificate that the user supplies.
    ReadCaCert,
    /// Read its key.
    ReadCaKey,
    /// Take the key and the certificate apart.
    SplitCa,
    /// Hold the key against the certificate.
    BindCa,
    /// Build what captures credentials.
    BuildCapture,
    /// Build what asks for approval.
    BuildApproval,
    /// Start the runtime.
    StartRuntime,
    /// Start the server.
    StartServer,
    /// Serve until the user interrupts.
    Serve,
    /// The server has stopped.
    Stopped,
    /// The proxy could not be brought up.
    Failed(NonoError),
}

/// What a phase stands for.
#[verifier::ext_equal]
pub enum PhaseModel {
    BuildOptions,
    BuildConfig,
    ApplyTls,
    ReadCaCert,
    ReadCaKey,
    SplitCa,
    BindCa,
    BuildCapture,
    BuildApproval,
    StartRuntime,
    StartServer,
    Serve,
    Stopped,
    Failed(ErrorModel),
}

impl View for ProxyPhase {
    type V = PhaseModel;

    open spec fn view(&self) -> PhaseModel {
        match self {
            ProxyPhase::BuildOptions => PhaseModel::BuildOptions,
            ProxyPhase::BuildConfig => PhaseModel::BuildConfig,
            ProxyPhase::ApplyTls => PhaseModel::ApplyTls,
            ProxyPhase::ReadCaCert => PhaseModel::ReadCaCert,
            ProxyPhase::ReadCaKey => PhaseModel::ReadCaKey,
            ProxyPhase::SplitCa => PhaseModel::SplitCa,
            ProxyPhase::BindCa => PhaseModel::BindCa,
            ProxyPhase::BuildCapture => PhaseModel::BuildCapture,
            ProxyPhase::BuildApproval => PhaseModel::BuildApproval,
            ProxyPhase::StartRuntime => PhaseModel::StartRuntime,
            ProxyPhase::StartServer => PhaseModel::StartServer,
            ProxyPhase::Serve => PhaseModel::Serve,
            ProxyPhase::Stopped => PhaseModel::Stopped,
            ProxyPhase::Failed(error) => PhaseModel::Failed(error@),
        }
    }
}

/// How the work of a phase ended.
#[derive(Debug, PartialEq, Eq)]
pub enum PhaseOutcome {
    Done,
    /// It was refused, for a reason that is passed on.
    Refused(NonoError),
    /// It failed, with a reason in words.
    Broke(String),
}

/// What an outcome stands for.
#[verifier::ext_equal]
pub enum OutcomeModel {
    Done,
    Refused(ErrorModel),
    Broke(Seq<char>),
}

impl View for PhaseOutcome {
    type V = OutcomeModel;

    open spec fn view(&self) -> OutcomeModel {
        match self {
            PhaseOutcome::Done => OutcomeModel::Done,
            PhaseOutcome::Refused(error) => OutcomeModel::Refused(error@),
            PhaseOutcome::Broke(reason) => OutcomeModel::Broke(reason@),
        }
    }
}

/// The first phase.
pub open spec fn first_phase(args: ArgsModel, spelled: Seq<char>, octets: Seq<u8>) -> PhaseModel {
    match bind_error(args, spelled, octets) {
        Some(error) => PhaseModel::Failed(error),
        None => PhaseModel::BuildOptions,
    }
}

/// The user supplies the authority that signs.
pub open spec fn supplies_ca(args: ArgsModel) -> bool {
    args.proxy_ca_cert is Some && args.proxy_ca_key is Some
}

/// The error for work that broke.
pub open spec fn phase_error(
    args: ArgsModel,
    phase: PhaseModel,
    reason: Seq<char>,
) -> ErrorModel {
    let path = |named: Option<Seq<char>>|
        paths::shown(vstd::utf8::encode_utf8(match named {
            Some(path) => path,
            None => Seq::empty(),
        }));
    match phase {
        PhaseModel::ReadCaCert => ErrorModel::ConfigParse(
            "failed to read --proxy-ca-cert "@ + path(args.proxy_ca_cert) + ": "@ + reason,
        ),
        PhaseModel::ReadCaKey => ErrorModel::ConfigParse(
            "failed to read --proxy-ca-key "@ + path(args.proxy_ca_key) + ": "@ + reason,
        ),
        PhaseModel::SplitCa | PhaseModel::BindCa => ErrorModel::ConfigParse(
            "invalid proxy CA material: "@ + reason,
        ),
        PhaseModel::StartRuntime => ErrorModel::SandboxInit(
            "Failed to start proxy runtime: "@ + reason,
        ),
        PhaseModel::StartServer => ErrorModel::SandboxInit("Failed to start proxy: "@ + reason),
        _ => ErrorModel::ConfigParse(reason),
    }
}

/// The phase after work that was done.
pub open spec fn phase_after(args: ArgsModel, phase: PhaseModel) -> PhaseModel {
    match phase {
        PhaseModel::BuildOptions => PhaseModel::BuildConfig,
        PhaseModel::BuildConfig => if args.pass matches Some(pass) && pass.len() == 0 {
            PhaseModel::Failed(ErrorModel::ConfigParse("--pass requires a non-empty password"@))
        } else {
            PhaseModel::ApplyTls
        },
        PhaseModel::ApplyTls => if supplies_ca(args) && args.trust_proxy_ca {
            PhaseModel::Failed(
                ErrorModel::ConfigParse(
                    "--proxy-ca-cert cannot be combined with --trust-proxy-ca; the former supplies its own CA while the latter manages one in the macOS Keychain"@,
                ),
            )
        } else if supplies_ca(args) {
            PhaseModel::ReadCaCert
        } else {
            PhaseModel::BuildCapture
        },
        PhaseModel::ReadCaCert => PhaseModel::ReadCaKey,
        PhaseModel::ReadCaKey => PhaseModel::SplitCa,
        PhaseModel::SplitCa => PhaseModel::BindCa,
        PhaseModel::BindCa => PhaseModel::BuildCapture,
        PhaseModel::BuildCapture => PhaseModel::BuildApproval,
        PhaseModel::BuildApproval => PhaseModel::StartRuntime,
        PhaseModel::StartRuntime => PhaseModel::StartServer,
        PhaseModel::StartServer => PhaseModel::Serve,
        PhaseModel::Serve => PhaseModel::Stopped,
        ended => ended,
    }
}

/// The phase after an outcome. What has ended stays ended, and serving ends
/// however it was interrupted.
pub open spec fn next_phase(
    args: ArgsModel,
    phase: PhaseModel,
    outcome: OutcomeModel,
) -> PhaseModel {
    match (phase, outcome) {
        (PhaseModel::Stopped, _) => phase,
        (PhaseModel::Failed(_), _) => phase,
        (PhaseModel::Serve, _) => PhaseModel::Stopped,
        (_, OutcomeModel::Done) => phase_after(args, phase),
        (_, OutcomeModel::Refused(error)) => PhaseModel::Failed(error),
        (_, OutcomeModel::Broke(reason)) => PhaseModel::Failed(phase_error(args, phase, reason)),
    }
}

/// Begins to bring up the proxy, unless it would stand open to other hosts.
pub fn run_proxy(args: &ProxyArgs, listen: &ListenAddr) -> (r: ProxyPhase)
    ensures
        r@ == first_phase(args@, listen.spelled@, listen.octets@),
{
    if args.no_auth && !listen.is_loopback() {
        return ProxyPhase::Failed(
            NonoError::ConfigParse(
                text::cat3(
                    "--no-auth requires a loopback --listen address (got ",
                    listen.spelled.as_str(),
                    "); refusing to start an open proxy reachable from other hosts",
                ),
            ),
        );
    }
    ProxyPhase::BuildOptions
}

fn shown_argument(named: &Option<String>) -> (r: String)
    ensures
        r@ == paths::shown(
            vstd::utf8::encode_utf8(
                match text::opt_text(*named) {
                    Some(path) => path,
                    None => Seq::empty(),
                },
            ),
        ),
{
    match named {
        Some(path) => FilePath::from_text(path.as_str()).display(),
        None => {
            let none = String::new();
            assert(none@ =~= Seq::empty());
            FilePath::from_text(none.as_str()).display()
        },
    }
}

fn broken_phase(args: &ProxyArgs, phase: &ProxyPhase, reason: String) -> (r: NonoError)
    ensures
        r@ == phase_error(args@, phase@, reason@),
{
    match phase {
        ProxyPhase::ReadCaCert => NonoError::ConfigParse(
            text::cat4(
                "failed to read --proxy-ca-cert ",
                shown_argument(&args.proxy_ca_cert).as_str(),
                ": ",
                reason.as_str(),
            ),
        ),
        ProxyPhase::ReadCaKey => NonoError::ConfigParse(
            text::cat4(
                "failed to read --proxy-ca-key ",
                shown_argument(&args.proxy_ca_key).as_str(),
                ": ",
                reason.as_str(),
            ),
        ),
        ProxyPhase::SplitCa | ProxyPhase::BindCa => NonoError::ConfigParse(
            text::cat2("invalid proxy CA material: ", reason.as_str()),
        ),
        ProxyPhase::StartRuntime => NonoError::SandboxInit(
            text::cat2("Failed to start proxy runtime: ", reason.as_str()),
        ),
        ProxyPhase::StartServer => NonoError::SandboxInit(
            text::cat2("Failed to start proxy: ", reason.as_str()),
        ),
        _ => NonoError::ConfigParse(reason),
    }
}

fn done_phase(args: &ProxyArgs, phase: ProxyPhase) -> (r: ProxyPhase)
    ensures
        r@ == phase_after(args@, phase@),
{
    match phase {
        ProxyPhase::BuildOptions => ProxyPhase::BuildConfig,
        ProxyPhase::BuildConfig => {
            if let Some(pass) = &args.pass {
                if pass.as_str().is_empty() {
                    return ProxyPhase::Failed(
                        NonoError::ConfigParse(
                            "--pass requires a non-empty password".to_owned(),
                        ),
                    );
                }
            }
            ProxyPhase::ApplyTls
        },
        ProxyPhase::ApplyTls => {
            if args.proxy_ca_cert.is_none() || args.proxy_ca_key.is_none() {
                return ProxyPhase::BuildCapture;
            }
            if args.trust_proxy_ca {
                return ProxyPhase::Failed(
                    NonoError::ConfigParse(
                        "--proxy-ca-cert cannot be combined with --trust-proxy-ca; the former supplies its own CA while the latter manages one in the macOS Keychain".to_owned(),
                    ),
                );
            }
            ProxyPhase::ReadCaCert
        },
        ProxyPhase::ReadCaCert => ProxyPhase::ReadCaKey,
        ProxyPhase::ReadCaKey => ProxyPhase::SplitCa,
        ProxyPhase::SplitCa => ProxyPhase::BindCa,
        ProxyPhase::BindCa => ProxyPhase::BuildCapture,
        ProxyPhase::BuildCapture => ProxyPhase::BuildApproval,
        ProxyPhase::BuildApproval => ProxyPhase::StartRuntime,
        ProxyPhase::StartRuntime => ProxyPhase::StartServer,
        ProxyPhase::StartServer => ProxyPhase::Serve,
        ProxyPhase::Serve => ProxyPhase::Stopped,
        ended => ended,
    }
}

/// Takes the proxy one phase further.
pub fn advance_proxy(args: &ProxyArgs, phase: ProxyPhase, outcome: PhaseOutcome) -> (r: ProxyPhase)
    ensures
        r@ == next_phase(args@, phase@, outcome@),
{
    match phase {
        ProxyPhase::Stopped => ProxyPhase::Stopped,
        ProxyPhase::Failed(error) => ProxyPhase::Failed(error),
        ProxyPhase::Serve => ProxyPhase::Stopped,
        running => match outcome {
            PhaseOutcome::Done => done_phase(args, running),
            PhaseOutcome::Refused(error) => ProxyPhase::Failed(error),
            PhaseOutcome::Broke(reason) => ProxyPhase::Failed(broken_phase(args, &running, reason)),
        },
    }
}

/// An open proxy is brought up on loopback only.
pub proof fn law_open_proxy_is_local(args: ArgsModel, spelled: Seq<char>, octets: Seq<u8>)
    ensures
        first_phase(args, spelled, octets) is Failed <==> args.no_auth && !loopback(octets),
{
}

/// The supplied authority comes last: reading it begins only once the settings
/// for TLS interception are applied, and only if it was asked for; and the
/// server starts only after it was read and held against its key.
pub proof fn law_supplied_ca_comes_last(
    args: ArgsModel,
    phase: PhaseModel,
    outcome: OutcomeModel,
)
    ensures
        next_phase(args, phase, outcome) is ReadCaCert ==> phase is ApplyTls && outcome is Done
            && supplies_ca(args),
        next_phase(args, phase, outcome) is BuildCapture && supplies_ca(args) ==> phase is BindCa
            && outcome is Done,
        next_phase(args, phase, outcome) is BuildApproval ==> phase is BuildCapture,
        next_phase(args, phase, outcome) is StartRuntime ==> phase is BuildApproval,
        next_phase(args, phase, outcome) is StartServer ==> phase is StartRuntime,
        next_phase(args, phase, outcome) is Serve ==> phase is StartServer && outcome is Done,
{
}

/// The phase that is reached after the outcomes of a run.
pub open spec fn reached(
    args: ArgsModel,
    first: PhaseModel,
    outcomes: Seq<OutcomeModel>,
) -> PhaseModel
    decreases outcomes.len(),
{
    if outcomes.len() == 0 {
        first
    } else {
        next_phase(args, reached(args, first, outcomes.drop_last()), outcomes.last())
    }
}

/// How many phases lie before an end at most.
pub open spec fn phases_left(phase: PhaseModel) -> nat {
    match phase {
        PhaseModel::BuildOptions => 12,
        PhaseModel::BuildConfig => 11,
        PhaseModel::ApplyTls => 10,
        PhaseModel::ReadCaCert => 9,
        PhaseModel::ReadCaKey => 8,
        PhaseModel::SplitCa => 7,
        PhaseModel::BindCa => 6,
        PhaseModel::BuildCapture => 5,
        PhaseModel::BuildApproval => 4,
        PhaseModel::StartRuntime => 3,
        PhaseModel::StartServer => 2,
        PhaseModel::Serve => 1,
        PhaseModel::Stopped => 0,
        PhaseModel::Failed(_) => 0,
    }
}

/// Every run comes to an end, whatever came of its phases: each outcome takes
/// it closer, until it has stopped or failed.
pub proof fn law_proxy_runs_end(
    args: ArgsModel,
    spelled: Seq<char>,
    octets: Seq<u8>,
    outcomes: Seq<OutcomeModel>,
)
    ensures
        phases_left(reached(args, first_phase(args, spelled, octets), outcomes)) + outcomes.len()
            <= 12 || phases_left(reached(args, first_phase(args, spelled, octets), outcomes)) == 0,
    decreases outcomes.len(),
{
    if outcomes.len() > 0 {
        law_proxy_runs_end(args, spelled, octets, outcomes.drop_last());
    }
}

/// The proxy has got past the configuration of the server.
spec fn configured(phase: PhaseModel) -> bool {
    !(phase is BuildOptions || phase is BuildConfig || phase is Failed)
}

/// The proxy has got past the authority that the user supplies.
spec fn past_authority(phase: PhaseModel) -> bool {
    configured(phase) && phases_left(phase) <= 5
}

/// What holds of every phase that a run reaches.
spec fn sound(
    args: ArgsModel,
    octets: Seq<u8>,
    first: PhaseModel,
    outcomes: Seq<OutcomeModel>,
) -> bool {
    let phase = reached(args, first, outcomes);
    &&& phase !is Failed ==> !args.no_auth || loopback(octets)
    &&& configured(phase) ==> !(args.pass matches Some(pass) && pass.len() == 0)
    &&& configured(phase) && !(phase is ApplyTls) ==> !(supplies_ca(args) && args.trust_proxy_ca)
    &&& past_authority(phase) && supplies_ca(args) ==> exists|k: int|
        0 <= k < outcomes.len() && #[trigger] reached(args, first, outcomes.take(k)) is BindCa
            && outcomes[k] is Done
}

proof fn lemma_phases_are_sound(
    args: ArgsModel,
    spelled: Seq<char>,
    octets: Seq<u8>,
    outcomes: Seq<OutcomeModel>,
)
    ensures
        sound(args, octets, first_phase(args, spelled, octets), outcomes),
    decreases outcomes.len(),
{
    let first = first_phase(args, spelled, octets);
    if outcomes.len() > 0 {
        let front = outcomes.drop_last();
        let phase = reached(args, first, front);
        lemma_phases_are_sound(args, spelled, octets, front);
        if past_authority(reached(args, first, outcomes)) && supplies_ca(args) {
            if past_authority(phase) {
                let k = choose|k: int|
                    0 <= k < front.len() && #[trigger] reached(args, first, front.take(k)) is BindCa
                        && front[k] is Done;
                assert(front.take(k) =~= outcomes.take(k));
                assert(reached(args, first, outcomes.take(k)) is BindCa);
            } else {
                assert(front =~= outcomes.take(outcomes.len() - 1));
                assert(reached(args, first, outcomes.take(outcomes.len() - 1)) is BindCa);
            }
        }
    }
}

/// A proxy that serves is a safe one: it has authentication or stays on this
/// machine, its password is not blank, and an authority that the user supplies
/// was held against its key and is not the keychain's.
pub proof fn law_serving_is_earned(
    args: ArgsModel,
    spelled: Seq<char>,
    octets: Seq<u8>,
    outcomes: Seq<OutcomeModel>,
)
    requires
        reached(args, first_phase(args, spelled, octets), outcomes) is Serve,
    ensures
        !args.no_auth || loopback(octets),
        args.pass matches Some(pass) ==> pass.len() > 0,
        supplies_ca(args) ==> !args.trust_proxy_ca,
        supplies_ca(args) ==> exists|k: int|
            0 <= k < outcomes.len() && #[trigger] reached(
                args,
                first_phase(args, spelled, octets),
                outcomes.take(k),
            ) is BindCa && outcomes[k] is Done,
{
    lemma_phases_are_sound(args, spelled, octets, outcomes);
}

// ---------------------------------------------------------------------------
// Settings of the server
// ---------------------------------------------------------------------------

/// The files of an authority that the user supplies.
#[derive(Debug, PartialEq, Eq)]
pub struct SuppliedCa {
    pub cert: String,
    pub key: String,
}

/// What such files stand for.
#[verifier::ext_equal]
pub struct SuppliedCaModel {
    pub cert: Seq<char>,
    pub key: Seq<char>,
}

impl View for SuppliedCa {
    type V = SuppliedCaModel;

    open spec fn view(&self) -> SuppliedCaModel {
        SuppliedCaModel { cert: self.cert@, key: self.key@ }
    }
}

/// The settings of the server that come from the flags alone.
#[derive(Debug, PartialEq, Eq)]
pub struct ServerSettings {
    pub bind_addr: String,
    pub bind_port: u16,
    pub require_auth: bool,
    /// Tunnels without authentication are refused.
    pub strict_connect_auth: bool,
    pub max_connections: usize,
    /// The password, in place of a token made for the session.
    pub session_token: Option<String>,
    /// The authority that the user supplies, in place of any other.
    pub supplied_ca: Option<SuppliedCa>,
}

/// What settings stand for.
#[verifier::ext_equal]
pub struct SettingsModel {
    pub bind_addr: Seq<char>,
    pub bind_port: u16,
    pub require_auth: bool,
    pub strict_connect_auth: bool,
    pub max_connections: usize,
    pub session_token: Option<Seq<char>>,
    pub supplied_ca: Option<SuppliedCaModel>,
}

impl View for ServerSettings {
    type V = SettingsModel;

    open spec fn view(&self) -> SettingsModel {
        SettingsModel {
            bind_addr: self.bind_addr@,
            bind_port: self.bind_port,
            require_auth: self.require_auth,
            strict_connect_auth: self.strict_connect_auth,
            max_connections: self.max_connections,
            session_token: text::opt_text(self.session_token),
            supplied_ca: command_policy::opt_view(self.supplied_ca),
        }
    }
}

/// The settings for some arguments. The address, the port and authentication
/// are the flags' alone, and both files of an authority make one.
pub open spec fn settings_for(args: ArgsModel) -> SettingsModel {
    SettingsModel {
        bind_addr: args.listen,
        bind_port: args.port,
        require_auth: !args.no_auth,
        strict_connect_auth: !args.no_auth,
        max_connections: args.max_connections,
        session_token: args.pass,
        supplied_ca: match (args.proxy_ca_cert, args.proxy_ca_key) {
            (Some(cert), Some(key)) => Some(SuppliedCaModel { cert, key }),
            _ => None,
        },
    }
}

/// What the flags say of the server.
pub fn server_settings(args: &ProxyArgs) -> (r: ServerSettings)
    ensures
        r@ == settings_for(args@),
        r.supplied_ca is Some <==> supplies_ca(args@),
{
    ServerSettings {
        bind_addr: args.listen.clone(),
        bind_port: args.port,
        require_auth: !args.no_auth,
        strict_connect_auth: !args.no_auth,
        max_connections: args.max_connections,
        session_token: text::copy_opt_text(&args.pass),
        supplied_ca: match (&args.proxy_ca_cert, &args.proxy_ca_key) {
            (Some(cert), Some(key)) => Some(SuppliedCa { cert: cert.clone(), key: key.clone() }),
            _ => None,
        },
    }
}

/// The authority with which the server signs: the one that was loaded from the
/// files that the user supplies, if any, whatever else the profile asked for.
pub open spec fn signing_ca<A>(args: ArgsModel, profile: Option<A>, loaded: Option<A>) -> Option<
    A,
> {
    if supplies_ca(args) {
        loaded
    } else {
        profile
    }
}

/// Chooses the authority with which the server signs. `profile` is the one that
/// the settings for TLS interception installed, and `loaded` the one from the
/// files that the user supplies.
pub fn preloaded_ca<A>(args: &ProxyArgs, profile: Option<A>, loaded: Option<A>) -> (r: Option<A>)
    ensures
        r == signing_ca(args@, profile, loaded),
{
    if args.proxy_ca_cert.is_some() && args.proxy_ca_key.is_some() {
        loaded
    } else {
        profile
    }
}

/// An authority that the user supplies wins: the server signs with what was
/// loaded from the files that the flags name, and with nothing of the profile's.
pub proof fn law_supplied_ca_wins<A>(args: ArgsModel, profile: Option<A>, loaded: A)
    requires
        supplies_ca(args),
    ensures
        signing_ca(args, profile, Some(loaded)) == Some(loaded),
        settings_for(args).supplied_ca == Some(
            SuppliedCaModel { cert: args.proxy_ca_cert->0, key: args.proxy_ca_key->0 },
        ),
{
}

/// The bundle from which a supplied authority is loaded: the key comes first.
pub fn ca_bundle(key_pem: &str, cert_pem: &str) -> (r: String)
    ensures
        r@ == key_pem@ + cert_pem@,
{
    text::cat2(key_pem, cert_pem)
}

// ---------------------------------------------------------------------------
// What the user is told
// ---------------------------------------------------------------------------

/// How part of a line is set off.
#[derive(Debug, Clone, Copy, PartialEq, Eq, Structural)]
pub enum Style {
    Plain,
    Bold,
    Yellow,
    Cyan,
    Dimmed,
}

/// A line, part of which is set off.
#[derive(Debug, PartialEq, Eq)]
pub struct StyledLine {
    pub before: String,
    pub style: Style,
    pub styled: String,
    pub after: String,
}

/// What a line stands for.
#[verifier::ext_equal]
pub struct LineModel {
    pub before: Seq<char>,
    pub style: Style,
    pub styled: Seq<char>,
    pub after: Seq<char>,
}

impl View for StyledLine {
    type V = LineModel;

    open spec fn view(&self) -> LineModel {
        LineModel {
            before: self.before@,
            style: self.style,
            styled: self.styled@,
            after: self.after@,
        }
    }
}

/// A line with a part that is set off.
pub open spec fn styled(
    before: Seq<char>,
    style: Style,
    part: Seq<char>,
    after: Seq<char>,
) -> LineModel {
    LineModel { before, style, styled: part, after }
}

/// A line without a part that is set off.
pub open spec fn plain(line: Seq<char>) -> LineModel {
    styled(line, Style::Plain, Seq::empty(), Seq::empty())
}

fn styled_line(before: String, style: Style, part: String, after: String) -> (r: StyledLine)
    ensures
        r@ == styled(before@, style, part@, after@),
{
    StyledLine { before, style, styled: part, after }
}

fn plain_line(line: String) -> (r: StyledLine)
    ensures
        r@ == plain(line@),
{
    let part = String::new();
    let after = String::new();
    assert(part@ =~= Seq::empty());
    assert(after@ =~= Seq::empty());
    StyledLine { before: line, style: Style::Plain, styled: part, after }
}

/// `host:port`.
pub open spec fn socket(addr: Seq<char>, port: u16) -> Seq<char> {
    addr + ":"@ + text::decimal(port as nat)
}

/// The address of the proxy, with the token in it.
pub open spec fn token_url(token: Seq<char>, addr: Seq<char>, port: u16) -> Seq<char> {
    "http://nono:"@ + token + "@"@ + socket(addr, port)
}

/// How the proxy can be reached: openly, or with a token.
pub open spec fn access_lines(
    addr: Seq<char>,
    port: u16,
    token: Seq<char>,
    no_auth: bool,
) -> Seq<LineModel> {
    if no_auth {
        seq![
            styled(
                "  "@,
                Style::Yellow,
                "auth disabled (--no-auth): any local process can use this proxy"@,
                ""@,
            ),
            plain("  proxy URL: http://"@ + socket(addr, port)),
        ]
    } else {
        seq![
            styled("  proxy URL: "@, Style::Cyan, token_url(token, addr, port), ""@),
            styled("  token:     "@, Style::Dimmed, token, ""@),
            plain(""@),
            plain("  export HTTPS_PROXY="@ + token_url(token, addr, port)),
            plain("  export HTTP_PROXY="@ + token_url(token, addr, port)),
        ]
    }
}

/// The routes, if there are any.
pub open spec fn route_lines(routes: Seq<Seq<char>>) -> Seq<LineModel> {
    if routes.len() == 0 {
        Seq::empty()
    } else {
        seq![plain(""@), styled("  "@, Style::Bold, "routes:"@, ""@)] + routes.map_values(
            |route: Seq<char>| plain("    "@ + route),
        )
    }
}

/// Where the authority is found that clients must trust.
pub open spec fn ca_lines(ca_path: Option<Seq<u8>>) -> Seq<LineModel> {
    match ca_path {
        Some(path) => seq![
            plain(""@),
            plain("  TLS interception trust bundle: "@ + paths::shown(path)),
        ],
        None => Seq::empty(),
    }
}

/// What the user is told once the proxy serves.
pub open spec fn connection_lines(
    addr: Seq<char>,
    port: u16,
    token: Seq<char>,
    no_auth: bool,
    routes: Seq<Seq<char>>,
    ca_path: Option<Seq<u8>>,
    silent: bool,
) -> Seq<LineModel> {
    if silent {
        Seq::empty()
    } else {
        seq![
            plain(""@),
            styled("  "@, Style::Bold, "nono proxy listening on"@, " "@ + socket(addr, port)),
        ] + access_lines(addr, port, token, no_auth) + route_lines(routes) + ca_lines(ca_path)
            + seq![plain(""@), styled("  "@, Style::Dimmed, "Press Ctrl-C to stop."@, ""@)]
    }
}

fn push_line(lines: &mut Vec<StyledLine>, line: StyledLine)
    ensures
        text::views(final(lines)@) == text::views(old(lines)@).push(line@),
{
    let ghost before = text::views(lines@);
    let ghost value = line@;
    lines.push(line);
    assert(text::views(lines@) =~= before.push(value));
}

fn push_access_lines(
    lines: &mut Vec<StyledLine>,
    addr: &str,
    port: u16,
    token: &str,
    no_auth: bool,
)
    ensures
        text::views(final(lines)@) == text::views(old(lines)@) + access_lines(
            addr@,
            port,
            token@,
            no_auth,
        ),
{
    let at = text::cat3(addr, ":", text::decimal_text(port as u128).as_str());
    if no_auth {
        push_line(
            lines,
            styled_line(
                "  ".to_owned(),
                Style::Yellow,
                "auth disabled (--no-auth): any local process can use this proxy".to_owned(),
                "".to_owned(),
            ),
        );
        push_line(lines, plain_line(text::cat2("  proxy URL: http://", at.as_str())));
    } else {
        let url = text::cat4("http://nono:", token, "@", at.as_str());
        push_line(
            lines,
            styled_line("  proxy URL: ".to_owned(), Style::Cyan, url.clone(), "".to_owned()),
        );
        push_line(
            lines,
            styled_line(
                "  token:     ".to_owned(),
                Style::Dimmed,
                token.to_owned(),
                "".to_owned(),
            ),
        );
        push_line(lines, plain_line("".to_owned()));
        push_line(lines, plain_line(text::cat2("  export HTTPS_PROXY=", url.as_str())));
        push_line(lines, plain_line(text::cat2("  export HTTP_PROXY=", url.as_str())));
    }
}

fn push_route_lines(lines: &mut Vec<StyledLine>, routes: &Vec<String>)
    ensures
        text::views(final(lines)@) == text::views(old(lines)@) + route_lines(
            text::texts(routes@),
        ),
{
    if routes.len() > 0 {
        push_line(lines, plain_line("".to_owned()));
        push_line(
            lines,
            styled_line("  ".to_owned(), Style::Bold, "routes:".to_owned(), "".to_owned()),
        );
        let ghost before = text::views(lines@);
        let ghost all = text::texts(routes@).map_values(
            |route: Seq<char>| plain("    "@ + route),
        );
        assert(before + all.take(0) =~= before);
        for i in 0..routes.len()
            invariant
                all == text::texts(routes@).map_values(|route: Seq<char>| plain("    "@ + route)),
                text::views(lines@) == before + all.take(i as int),
        {
            push_line(lines, plain_line(text::cat2("    ", routes[i].as_str())));
            assert(all[i as int] == plain("    "@ + routes@[i as int]@));
            assert(all.take(i + 1) =~= all.take(i as int).push(all[i as int]));
        }
        assert(all.take(all.len() as int) =~= all);
    }
}

/// Says how the running proxy can be reached. `token` is the credential of the
/// session, `routes` describes the routes, and `ca_path` is where clients find
/// the authority to trust.
pub fn print_connection_info(
    addr: &str,
    port: u16,
    token: &str,
    no_auth: bool,
    routes: &Vec<String>,
    ca_path: Option<&FilePath>,
    silent: bool,
) -> (r: Vec<StyledLine>)
    ensures
        text::views(r@) == connection_lines(
            addr@,
            port,
            token@,
            no_auth,
            text::texts(routes@),
            match ca_path {
                Some(path) => Some(path@),
                None => None,
            },
            silent,
        ),
{
    let mut lines: Vec<StyledLine> = Vec::new();
    assert(text::views(lines@) =~= Seq::empty());
    if silent {
        return lines;
    }
    push_line(&mut lines, plain_line("".to_owned()));
    push_line(
        &mut lines,
        styled_line(
            "  ".to_owned(),
            Style::Bold,
            "nono proxy listening on".to_owned(),
            text::cat4(" ", addr, ":", text::decimal_text(port as u128).as_str()),
        ),
    );
    proof {
        assert(" "@ + addr@ + ":"@ + text::decimal(port as nat) =~= " "@ + socket(addr@, port));
    }
    push_access_lines(&mut lines, addr, port, token, no_auth);
    push_route_lines(&mut lines, routes);
    if let Some(path) = ca_path {
        push_line(&mut lines, plain_line("".to_owned()));
        push_line(
            &mut lines,
            plain_line(text::cat2("  TLS interception trust bundle: ", path.display().as_str())),
        );
    }
    push_line(&mut lines, plain_line("".to_owned()));
    push_line(
        &mut lines,
        styled_line(
            "  ".to_owned(),
            Style::Dimmed,
            "Press Ctrl-C to stop.".to_owned(),
            "".to_owned(),
        ),
    );
    lines
}

} // verus!
