//! The latency tester's settings: defaults, environment fallbacks, command-line options and
//! the URLs derived from them; and the probe datagram it sends.
use vstd::prelude::*;
use vstd::string::StringExecFns;

use crate::numbers::{bounded_value, parse_bounded};
use crate::protocol::{push_all, PKT_UNRELIABLE};
use crate::text::{decimal, owned, push_decimal};

verus! {

/// Host the tester measures by default.
pub const DEFAULT_HOST: &'static str = "kotatsu.ruxel.net";

/// HTTP API port used by default.
pub const DEFAULT_API_PORT: u16 = 8080;

/// UDP port used by default.
pub const DEFAULT_UDP_PORT: u16 = 4433;

/// Number of probes sent by default.
pub const DEFAULT_SAMPLES: usize = 10;

/// Why the settings could not be read.
#[derive(Debug)]
pub enum ConfigError {
    /// `value` given for `flag` is not a number of type `number_kind`.
    NotANumber { flag: String, number_kind: String },
    /// `flag` came last, without its value.
    MissingValue { flag: String },
    /// `--samples 0` was given.
    ZeroSamples,
    /// An argument that is no option; the usage text follows in the message.
    UnknownArgument { arg: String, usage: String },
}

/// A `ConfigError` with its texts as character sequences.
pub enum ConfigErrorView {
    NotANumber { flag: Seq<char>, number_kind: Seq<char> },
    MissingValue { flag: Seq<char> },
    ZeroSamples,
    UnknownArgument { arg: Seq<char>, usage: Seq<char> },
}

impl View for ConfigError {
    type V = ConfigErrorView;

    open spec fn view(&self) -> ConfigErrorView {
        match self {
            ConfigError::NotANumber { flag, number_kind } => ConfigErrorView::NotANumber { flag: flag@, number_kind: number_kind@ },
            ConfigError::MissingValue { flag } => ConfigErrorView::MissingValue { flag: flag@ },
            ConfigError::ZeroSamples => ConfigErrorView::ZeroSamples,
            ConfigError::UnknownArgument { arg, usage } => ConfigErrorView::UnknownArgument { arg: arg@, usage: usage@ },
        }
    }
}

/// The text of a settings error.
pub open spec fn config_error_message(e: ConfigErrorView) -> Seq<char> {
    match e {
        ConfigErrorView::NotANumber { flag, number_kind } => "failed to parse "@ + flag + " as "@ + number_kind,
        ConfigErrorView::MissingValue { flag } => "missing value for "@ + flag,
        ConfigErrorView::ZeroSamples => "--samples must be greater than 0"@,
        ConfigErrorView::UnknownArgument { arg, usage } => "unknown argument: "@ + arg + "\n\n"@ + usage,
    }
}

impl ConfigError {
    /// Returns the error's text.
    pub fn message(&self) -> (s: String)
        ensures
            s@ == config_error_message(self@),
    {
        match self {
            ConfigError::NotANumber { flag, number_kind } => {
                let s = owned("failed to parse ").concat(flag.as_str()).concat(" as ").concat(number_kind.as_str());
                s
            },
            ConfigError::MissingValue { flag } => owned("missing value for ").concat(flag.as_str()),
            ConfigError::ZeroSamples => owned("--samples must be greater than 0"),
            ConfigError::UnknownArgument { arg, usage } => owned("unknown argument: ").concat(arg.as_str()).concat("\n\n").concat(usage.as_str()),
        }
    }
}

/// The tester's settings.
#[derive(Debug)]
pub struct Config {
    pub remote_host: String,
    pub remote_ip: Option<String>,
    pub api_port: u16,
    pub udp_port: u16,
    pub samples: usize,
    pub api_base_url: Option<String>,
    pub udp_override_url: Option<String>,
}

/// The tester's settings with their texts as character sequences.
pub struct ConfigModel {
    pub remote_host: Seq<char>,
    pub remote_ip: Option<Seq<char>>,
    pub api_port: u16,
    pub udp_port: u16,
    pub samples: usize,
    pub api_base_url: Option<Seq<char>>,
    pub udp_override_url: Option<Seq<char>>,
}

/// The view of an optional text.
pub open spec fn opt_view(o: Option<String>) -> Option<Seq<char>> {
    match o {
        Some(s) => Some(s@),
        None => None,
    }
}

impl View for Config {
    type V = ConfigModel;

    open spec fn view(&self) -> ConfigModel {
        ConfigModel {
            remote_host: self.remote_host@,
            remote_ip: opt_view(self.remote_ip),
            api_port: self.api_port,
            udp_port: self.udp_port,
            samples: self.samples,
            api_base_url: opt_view(self.api_base_url),
            udp_override_url: opt_view(self.udp_override_url),
        }
    }
}

/// The host the tester talks to: the IP override when given, else the host name.
pub open spec fn target_host(c: ConfigModel) -> Seq<char> {
    match c.remote_ip {
        Some(ip) => ip,
        None => c.remote_host,
    }
}

/// The API base URL: the explicit one when given, else `http://<host>:<api port>`.
pub open spec fn spec_api_base(c: ConfigModel) -> Seq<char> {
    match c.api_base_url {
        Some(url) => url,
        None => "http://"@ + target_host(c) + ":"@ + decimal(c.api_port as nat),
    }
}

/// The UDP URL: the explicit one when given, else `udp://<host>:<udp port>`.
pub open spec fn spec_udp_override(c: ConfigModel) -> Seq<char> {
    match c.udp_override_url {
        Some(url) => url,
        None => "udp://"@ + target_host(c) + ":"@ + decimal(c.udp_port as nat),
    }
}

impl Config {
    fn target(&self) -> (t: &String)
        ensures
            t@ == target_host(self@),
    {
        match &self.remote_ip {
            Some(ip) => ip,
            None => &self.remote_host,
        }
    }

    /// Returns the API base URL.
    pub fn api_base(&self) -> (url: String)
        ensures
            url@ == spec_api_base(self@),
    {
        if let Some(url) = &self.api_base_url {
            return url.clone();
        }
        let mut s = owned("http://").concat(self.target().as_str()).concat(":");
        push_decimal(&mut s, self.api_port as u64);
        s
    }

    /// Returns the UDP URL to connect to.
    pub fn udp_override(&self) -> (url: String)
        ensures
            url@ == spec_udp_override(self@),
    {
        if let Some(url) = &self.udp_override_url {
            return url.clone();
        }
        let mut s = owned("udp://").concat(self.target().as_str()).concat(":");
        push_decimal(&mut s, self.udp_port as u64);
        s
    }
}

/// What reading `value` for `flag` as a `u16` answers.
pub open spec fn u16_result(value: Seq<char>, flag: Seq<char>) -> Result<u16, ConfigErrorView> {
    match bounded_value(value, u16::MAX as u64) {
        Some(v) => Ok(v as u16),
        None => Err(ConfigErrorView::NotANumber { flag, number_kind: "u16"@ }),
    }
}

/// What reading `value` for `flag` as a `usize` answers.
pub open spec fn usize_result(value: Seq<char>, flag: Seq<char>) -> Result<usize, ConfigErrorView> {
    match bounded_value(value, usize::MAX as u64) {
        Some(v) => Ok(v as usize),
        None => Err(ConfigErrorView::NotANumber { flag, number_kind: "usize"@ }),
    }
}

/// Reads `value`, given for `flag`, as a `u16`.
pub fn parse_u16(value: &str, flag: &str) -> (r: Result<u16, ConfigError>)
    ensures
        match r {
            Ok(v) => u16_result(value@, flag@) == Ok::<u16, ConfigErrorView>(v),
            Err(e) => u16_result(value@, flag@) == Err::<u16, ConfigErrorView>(e@),
        },
{
    match parse_bounded(value, u16::MAX as u64) {
        Some(v) => Ok(v as u16),
        None => Err(ConfigError::NotANumber { flag: owned(flag), number_kind: owned("u16") }),
    }
}

/// Reads `value`, given for `flag`, as a `usize`.
pub fn parse_usize(value: &str, flag: &str) -> (r: Result<usize, ConfigError>)
    ensures
        match r {
            Ok(v) => usize_result(value@, flag@) == Ok::<usize, ConfigErrorView>(v),
            Err(e) => usize_result(value@, flag@) == Err::<usize, ConfigErrorView>(e@),
        },
{
    match parse_bounded(value, usize::MAX as u64) {
        Some(v) => Ok(v as usize),
        None => Err(ConfigError::NotANumber { flag: owned(flag), number_kind: owned("usize") }),
    }
}


/// The help text for a program called `program`.
pub open spec fn usage_text(program: Seq<char>) -> Seq<char> {
    "Usage: "@ + program + " [options]\n\nMeasures post-connect UDP datagram one-way latency over\nclient A -> server -> client B.\n\nOptions:\n--host <host>            Remote hostname (default: "@ + DEFAULT_HOST@
        + ")\n--remote-ip <ip>         Use this IP for API/UDP instead of resolving the host\n--api-port <port>        HTTP API port (default: "@ + decimal(DEFAULT_API_PORT as nat)
        + ")\n--udp-port <port>        UDP port (default: "@ + decimal(DEFAULT_UDP_PORT as nat)
        + ")\n--samples <count>        Number of datagram samples (default: "@ + decimal(DEFAULT_SAMPLES as nat)
        + ")\n--api-base-url <url>     Override the full HTTP API base URL\n--udp-url <url>          Override the full UDP URL\n-h, --help               Show this help\n\nEnvironment fallback:\nREMOTE_HOST, REMOTE_IP, API_PORT, UDP_PORT, RTT_SAMPLES,\nAPI_BASE_URL, UDP_OVERRIDE_URL\n"@
}

/// Returns the help text for a program called `program`.
pub fn usage(program: &str) -> (text: String)
    ensures
        text@ == usage_text(program@),
{
    let mut s = owned("Usage: ");
    s.append(program);
    s.append(" [options]\n\nMeasures post-connect UDP datagram one-way latency over\nclient A -> server -> client B.\n\nOptions:\n--host <host>            Remote hostname (default: ");
    s.append(DEFAULT_HOST);
    s.append(")\n--remote-ip <ip>         Use this IP for API/UDP instead of resolving the host\n--api-port <port>        HTTP API port (default: ");
    push_decimal(&mut s, DEFAULT_API_PORT as u64);
    s.append(")\n--udp-port <port>        UDP port (default: ");
    push_decimal(&mut s, DEFAULT_UDP_PORT as u64);
    s.append(")\n--samples <count>        Number of datagram samples (default: ");
    push_decimal(&mut s, DEFAULT_SAMPLES as u64);
    s.append(")\n--api-base-url <url>     Override the full HTTP API base URL\n--udp-url <url>          Override the full UDP URL\n-h, --help               Show this help\n\nEnvironment fallback:\nREMOTE_HOST, REMOTE_IP, API_PORT, UDP_PORT, RTT_SAMPLES,\nAPI_BASE_URL, UDP_OVERRIDE_URL\n");
    s
}


/// The environment variables the tester falls back on, each `None` when unset.
pub struct EnvSettings {
    pub remote_host: Option<String>,
    pub remote_ip: Option<String>,
    pub api_port: Option<String>,
    pub udp_port: Option<String>,
    pub quic_port: Option<String>,
    pub rtt_samples: Option<String>,
    pub api_base_url: Option<String>,
    pub udp_override_url: Option<String>,
    pub quic_override_url: Option<String>,
}

/// What reading the settings leads to: run with them, or print the help text and stop.
#[derive(Debug)]
pub enum ConfigOutcome {
    Run(Config),
    Help(String),
}

/// A `ConfigOutcome` with its texts as character sequences.
pub enum OutcomeView {
    Run(ConfigModel),
    Help(Seq<char>),
}

/// The view of a settings answer.
pub open spec fn outcome_view(r: Result<ConfigOutcome, ConfigError>) -> Result<OutcomeView, ConfigErrorView> {
    match r {
        Ok(ConfigOutcome::Run(c)) => Ok(OutcomeView::Run(c@)),
        Ok(ConfigOutcome::Help(h)) => Ok(OutcomeView::Help(h@)),
        Err(e) => Err(e@),
    }
}

/// A text, unless it is empty.
pub open spec fn non_empty(o: Option<Seq<char>>) -> Option<Seq<char>> {
    match o {
        Some(s) => if s.len() > 0 {
            Some(s)
        } else {
            None
        },
        None => None,
    }
}

/// The first of two optional texts that is present.
pub open spec fn first_present(a: Option<Seq<char>>, b: Option<Seq<char>>) -> Option<Seq<char>> {
    if a is Some {
        a
    } else {
        b
    }
}

/// The settings the environment gives, before any command-line option: the API port, the
/// UDP port and the number of samples are read in this order, and the first unreadable one
/// is the error.
pub open spec fn env_config(e: EnvSettings) -> Result<ConfigModel, ConfigErrorView> {
    let api = match opt_view(e.api_port) {
        None => Ok(DEFAULT_API_PORT),
        Some(v) => u16_result(v, "API_PORT"@),
    };
    let udp = match first_present(opt_view(e.udp_port), opt_view(e.quic_port)) {
        None => Ok(DEFAULT_UDP_PORT),
        Some(v) => u16_result(v, "UDP_PORT"@),
    };
    let samples = match opt_view(e.rtt_samples) {
        None => Ok(DEFAULT_SAMPLES),
        Some(v) => match usize_result(v, "RTT_SAMPLES"@) {
            Ok(n) => Ok::<usize, ConfigErrorView>(if n > 0 { n } else { DEFAULT_SAMPLES }),
            Err(x) => Err(x),
        },
    };
    if api is Err {
        Err(api->Err_0)
    } else if udp is Err {
        Err(udp->Err_0)
    } else if samples is Err {
        Err(samples->Err_0)
    } else {
        Ok(ConfigModel {
            remote_host: match opt_view(e.remote_host) {
                Some(h) => h,
                None => DEFAULT_HOST@,
            },
            remote_ip: non_empty(opt_view(e.remote_ip)),
            api_port: api->Ok_0,
            udp_port: udp->Ok_0,
            samples: samples->Ok_0,
            api_base_url: non_empty(opt_view(e.api_base_url)),
            udp_override_url: non_empty(first_present(opt_view(e.udp_override_url), opt_view(e.quic_override_url))),
        })
    }
}

/// The settings after the options `args` (the program name already taken off) are applied
/// to `c`, or the help text, or the first error.
pub open spec fn apply_args(c: ConfigModel, args: Seq<Seq<char>>, program: Seq<char>) -> Result<OutcomeView, ConfigErrorView>
    decreases args.len(),
{
    if args.len() == 0 {
        Ok(OutcomeView::Run(c))
    } else {
        let a = args[0];
        let rest = args.drop_first();
        if a == "--host"@ {
            if rest.len() == 0 {
                Err(ConfigErrorView::MissingValue { flag: a })
            } else {
                apply_args(ConfigModel { remote_host: rest[0], ..c }, rest.drop_first(), program)
            }
        } else if a == "--remote-ip"@ {
            if rest.len() == 0 {
                Err(ConfigErrorView::MissingValue { flag: a })
            } else {
                apply_args(ConfigModel { remote_ip: Some(rest[0]), ..c }, rest.drop_first(), program)
            }
        } else if a == "--api-port"@ {
            if rest.len() == 0 {
                Err(ConfigErrorView::MissingValue { flag: a })
            } else {
                match u16_result(rest[0], a) {
                    Ok(port) => apply_args(ConfigModel { api_port: port, ..c }, rest.drop_first(), program),
                    Err(x) => Err(x),
                }
            }
        } else if a == "--udp-port"@ || a == "--quic-port"@ {
            if rest.len() == 0 {
                Err(ConfigErrorView::MissingValue { flag: a })
            } else {
                match u16_result(rest[0], a) {
                    Ok(port) => apply_args(ConfigModel { udp_port: port, ..c }, rest.drop_first(), program),
                    Err(x) => Err(x),
                }
            }
        } else if a == "--samples"@ {
            if rest.len() == 0 {
                Err(ConfigErrorView::MissingValue { flag: a })
            } else {
                match usize_result(rest[0], a) {
                    Ok(n) => if n == 0 {
                        Err(ConfigErrorView::ZeroSamples)
                    } else {
                        apply_args(ConfigModel { samples: n, ..c }, rest.drop_first(), program)
                    },
                    Err(x) => Err(x),
                }
            }
        } else if a == "--api-base-url"@ {
            if rest.len() == 0 {
                Err(ConfigErrorView::MissingValue { flag: a })
            } else {
                apply_args(ConfigModel { api_base_url: Some(rest[0]), ..c }, rest.drop_first(), program)
            }
        } else if a == "--udp-url"@ || a == "--quic-url"@ {
            if rest.len() == 0 {
                Err(ConfigErrorView::MissingValue { flag: a })
            } else {
                apply_args(ConfigModel { udp_override_url: Some(rest[0]), ..c }, rest.drop_first(), program)
            }
        } else if a == "-h"@ || a == "--help"@ {
            Ok(OutcomeView::Help(usage_text(program)))
        } else {
            Err(ConfigErrorView::UnknownArgument { arg: a, usage: usage_text(program) })
        }
    }
}

/// What the tester's settings come to, from the environment and the command line `args`
/// (whose first item is the program's name).
pub open spec fn spec_parse_config(e: EnvSettings, args: Seq<Seq<char>>) -> Result<OutcomeView, ConfigErrorView> {
    match env_config(e) {
        Err(x) => Err(x),
        Ok(c) => if args.len() == 0 {
            apply_args(c, Seq::empty(), "remote-rtt"@)
        } else {
            apply_args(c, args.drop_first(), args[0])
        },
    }
}

/// `RTT_SAMPLES` sets the number of probes: a positive number is used as it is, zero falls back
/// to the default, and without the variable the default applies; a run with no options takes
/// the environment's settings unchanged.
pub proof fn lemma_env_samples(e: EnvSettings, program: Seq<char>)
    requires
        env_config(e) is Ok,
    ensures
        opt_view(e.rtt_samples) is None ==> env_config(e)->Ok_0.samples == DEFAULT_SAMPLES,
        opt_view(e.rtt_samples) matches Some(v) ==> (bounded_value(v, usize::MAX as u64) matches Some(n) ==> {
            &&& n > 0 ==> env_config(e)->Ok_0.samples == n
            &&& n == 0 ==> env_config(e)->Ok_0.samples == DEFAULT_SAMPLES
        }),
        spec_parse_config(e, seq![program]) == Ok::<OutcomeView, ConfigErrorView>(OutcomeView::Run(env_config(e)->Ok_0)),
{
    assert(seq![program].drop_first() =~= Seq::<Seq<char>>::empty());
}

fn text_is(a: &String, lit: &str) -> (b: bool)
    ensures
        b == (a@ == lit@),
{
    *a == owned(lit)
}

fn non_empty_text(o: Option<String>) -> (r: Option<String>)
    ensures
        opt_view(r) == non_empty(opt_view(o)),
{
    match o {
        Some(s) => if !s.as_str().is_empty() {
            Some(s)
        } else {
            None
        },
        None => None,
    }
}

fn clone_opt(o: &Option<String>) -> (r: Option<String>)
    ensures
        opt_view(r) == opt_view(*o),
{
    match o {
        Some(s) => Some(s.clone()),
        None => None,
    }
}

/// Reads the environment part of the settings; see `env_config`.
pub fn config_from_env(e: &EnvSettings) -> (r: Result<Config, ConfigError>)
    ensures
        match r {
            Ok(c) => env_config(*e) == Ok::<ConfigModel, ConfigErrorView>(c@),
            Err(x) => env_config(*e) == Err::<ConfigModel, ConfigErrorView>(x@),
        },
{
    proof {
        reveal_strlit("API_PORT");
        reveal_strlit("UDP_PORT");
        reveal_strlit("RTT_SAMPLES");
    }
    let api_port = match &e.api_port {
        None => DEFAULT_API_PORT,
        Some(v) => parse_u16(v.as_str(), "API_PORT")?,
    };
    let udp_source = if e.udp_port.is_some() { &e.udp_port } else { &e.quic_port };
    let udp_port = match udp_source {
        None => DEFAULT_UDP_PORT,
        Some(v) => parse_u16(v.as_str(), "UDP_PORT")?,
    };
    let samples = match &e.rtt_samples {
        None => DEFAULT_SAMPLES,
        Some(v) => {
            let n = parse_usize(v.as_str(), "RTT_SAMPLES")?;
            if n > 0 { n } else { DEFAULT_SAMPLES }
        },
    };
    let remote_host = match &e.remote_host {
        Some(h) => h.clone(),
        None => owned(DEFAULT_HOST),
    };
    let override_source = if e.udp_override_url.is_some() { &e.udp_override_url } else { &e.quic_override_url };
    Ok(Config {
        remote_host,
        remote_ip: non_empty_text(clone_opt(&e.remote_ip)),
        api_port,
        udp_port,
        samples,
        api_base_url: non_empty_text(clone_opt(&e.api_base_url)),
        udp_override_url: non_empty_text(clone_opt(override_source)),
    })
}

/// Returns the value after option `flag` at `args[i]`, or the error that it is missing.
pub fn next_arg_value(args: &Vec<String>, i: usize, flag: &String) -> (r: Result<String, ConfigError>)
    ensures
        i + 1 < args@.len() ==> r is Ok && r->Ok_0@ == args@[i + 1]@,
        i + 1 >= args@.len() ==> r is Err && r->Err_0@ == (ConfigErrorView::MissingValue { flag: flag@ }),
{
    if i < args.len() && i + 1 < args.len() {
        Ok(args[i + 1].clone())
    } else {
        Err(ConfigError::MissingValue { flag: flag.clone() })
    }
}

/// Reads the tester's settings from the environment `e` and the command line `args`, whose
/// first item is the program's name.
pub fn parse_config_from(e: &EnvSettings, args: &Vec<String>) -> (r: Result<ConfigOutcome, ConfigError>)
    ensures
        outcome_view(r) == spec_parse_config(*e, crate::keys::string_views(args@)),
{
    let ghost argv = crate::keys::string_views(args@);
    let mut config = config_from_env(e)?;
    if args.len() == 0 {
        proof {
            reveal_strlit("remote-rtt");
        }
        return Ok(ConfigOutcome::Run(config));
    }
    let program = args[0].clone();
    let mut i: usize = 1;
    proof {
        assert(argv.drop_first() =~= argv.skip(1));
    }
    while i < args.len()
        invariant
            argv == crate::keys::string_views(args@),
            argv.len() > 0,
            program@ == argv[0],
            1 <= i <= args@.len(),
            spec_parse_config(*e, argv) == apply_args(config@, argv.skip(i as int), program@),
        decreases args@.len() - i,
    {
        let ghost rest = argv.skip(i as int);
        proof {
            assert(rest[0] == args@[i as int]@);
            assert(rest.drop_first() =~= argv.skip(i + 1));
            if i + 1 < args.len() {
                assert(rest.drop_first()[0] == args@[i + 1]@);
                assert(rest.drop_first().drop_first() =~= argv.skip(i + 2));
            }
        }
        let arg = &args[i];
        if text_is(arg, "--host") {
            config.remote_host = next_arg_value(args, i, arg)?;
            i = i + 2;
        } else if text_is(arg, "--remote-ip") {
            config.remote_ip = Some(next_arg_value(args, i, arg)?);
            i = i + 2;
        } else if text_is(arg, "--api-port") {
            let value = next_arg_value(args, i, arg)?;
            config.api_port = parse_u16(value.as_str(), arg.as_str())?;
            i = i + 2;
        } else if text_is(arg, "--udp-port") || text_is(arg, "--quic-port") {
            let value = next_arg_value(args, i, arg)?;
            config.udp_port = parse_u16(value.as_str(), arg.as_str())?;
            i = i + 2;
        } else if text_is(arg, "--samples") {
            let value = next_arg_value(args, i, arg)?;
            let parsed = parse_usize(value.as_str(), arg.as_str())?;
            if parsed == 0 {
                return Err(ConfigError::ZeroSamples);
            }
            config.samples = parsed;
            i = i + 2;
        } else if text_is(arg, "--api-base-url") {
            config.api_base_url = Some(next_arg_value(args, i, arg)?);
            i = i + 2;
        } else if text_is(arg, "--udp-url") || text_is(arg, "--quic-url") {
            config.udp_override_url = Some(next_arg_value(args, i, arg)?);
            i = i + 2;
        } else if text_is(arg, "-h") || text_is(arg, "--help") {
            return Ok(ConfigOutcome::Help(usage(program.as_str())));
        } else {
            return Err(ConfigError::UnknownArgument { arg: arg.clone(), usage: usage(program.as_str()) });
        }
    }
    proof {
        assert(argv.skip(i as int) =~= Seq::<Seq<char>>::empty());
    }
    Ok(ConfigOutcome::Run(config))
}


/// Largest sequence number whose `f32` value is the number itself, so that the probe's `x`
/// coordinate reads as the sequence number.
pub const PROBE_SEQ_MAX: u64 = 16777216;

/// The JSON text of the position probe `seq`: at `x = seq`, at rest at the origin otherwise,
/// with the fields in the order the client's datagram type declares them.
pub open spec fn pos_probe_text(seq: u64) -> Seq<char> {
    "{\"t\":\"pos\",\"seq\":"@ + decimal(seq as nat) + ",\"x\":"@ + decimal(seq as nat)
        + ".0,\"y\":0.0,\"vx\":0.0,\"vy\":0.0}"@
}

/// Returns the datagram packet of position probe `seq`: the datagram type byte followed by
/// the probe's JSON text.
pub fn encoded_pos(seq: u64) -> (packet: Vec<u8>)
    requires
        seq <= PROBE_SEQ_MAX,
    ensures
        packet@ == seq![PKT_UNRELIABLE] + vstd::utf8::encode_utf8(pos_probe_text(seq)),
{
    let mut text = owned("{\"t\":\"pos\",\"seq\":");
    push_decimal(&mut text, seq);
    text.append(",\"x\":");
    push_decimal(&mut text, seq);
    text.append(".0,\"y\":0.0,\"vx\":0.0,\"vy\":0.0}");
    let mut packet: Vec<u8> = Vec::new();
    packet.push(PKT_UNRELIABLE);
    push_all(&mut packet, text.as_str().as_bytes());
    assert(packet@ =~= seq![PKT_UNRELIABLE] + vstd::utf8::encode_utf8(pos_probe_text(seq)));
    packet
}

/// The host and the port that `url::Url::parse` reads from a URL text, or `None` when the
/// text is no URL.
pub uninterp spec fn parsed_url_parts(s: Seq<char>) -> Option<(Option<Seq<char>>, Option<u16>)>;

/// `url::Url::parse`, with the parsed URL read through `host_str` and `port`: `None` when
/// the text does not parse; otherwise the host text, if any, and the explicit port, if any
/// (a port that is the scheme's default reads as none). What the parser accepts and how it
/// normalises the host are left to the name `parsed_url_parts`.
#[verifier::external_body]
fn url_parts(s: &str) -> (r: Option<(Option<String>, Option<u16>)>)
    ensures
        match r {
            None => parsed_url_parts(s@) is None,
            Some((h, p)) => parsed_url_parts(s@) == Some((opt_view(h), p)),
        },
{
    match url::Url::parse(s) {
        Ok(u) => Some((u.host_str().map(String::from), u.port())),
        Err(_) => None,
    }
}

/// Why a UDP URL gives no address to connect to.
#[derive(Clone, Copy, Debug, PartialEq, Eq, Structural)]
pub enum EndpointError {
    BadUrl,
    HostMissing,
    PortMissing,
}

impl EndpointError {
    /// The error's text.
    pub open spec fn spec_message(self) -> Seq<char> {
        match self {
            EndpointError::BadUrl => "parse udp_url"@,
            EndpointError::HostMissing => "udp_url host missing"@,
            EndpointError::PortMissing => "udp_url port missing"@,
        }
    }

    /// Returns the error's text.
    pub fn message(&self) -> (s: String)
        ensures
            s@ == self.spec_message(),
    {
        match self {
            EndpointError::BadUrl => owned("parse udp_url"),
            EndpointError::HostMissing => owned("udp_url host missing"),
            EndpointError::PortMissing => owned("udp_url port missing"),
        }
    }
}

/// What a parsed URL's host and port give to connect to: both are needed.
pub open spec fn endpoint_result(parts: Option<(Option<Seq<char>>, Option<u16>)>, r: Result<(String, u16), EndpointError>) -> bool {
    match parts {
        None => r == Err::<(String, u16), EndpointError>(EndpointError::BadUrl),
        Some((h, p)) => {
            &&& h is None ==> r == Err::<(String, u16), EndpointError>(EndpointError::HostMissing)
            &&& h is Some && p is None ==> r == Err::<(String, u16), EndpointError>(EndpointError::PortMissing)
            &&& h is Some && p is Some ==> r is Ok && r->Ok_0.0@ == h->Some_0 && r->Ok_0.1 == p->Some_0
        },
    }
}

/// Returns the host and port to connect to, given what the URL parser read from the URL
/// (`None` when it did not parse).
pub fn endpoint_from_parts(parts: Option<(Option<String>, Option<u16>)>) -> (r: Result<(String, u16), EndpointError>)
    ensures
        endpoint_result(
            match parts {
                None => None,
                Some((h, p)) => Some((opt_view(h), p)),
            },
            r,
        ),
{
    match parts {
        None => Err(EndpointError::BadUrl),
        Some((host, port)) => match host {
            None => Err(EndpointError::HostMissing),
            Some(h) => match port {
                None => Err(EndpointError::PortMissing),
                Some(p) => Ok((h, p)),
            },
        },
    }
}

/// Returns the host and port to reach the realtime server at `udp_url`.
pub fn udp_endpoint(udp_url: &str) -> (r: Result<(String, u16), EndpointError>)
    ensures
        endpoint_result(parsed_url_parts(udp_url@), r),
{
    endpoint_from_parts(url_parts(udp_url))
}

} // verus!
