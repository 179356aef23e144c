//! Launching a fresh Bedrock node.
use crate::text::{parse_unsigned, push_decimal, replace_all};
use std::fmt::Write;
use vstd::prelude::*;
use vstd::string::StringExecFns;

verus! {

/// The port of a node when none is asked for.
pub const DEFAULT_BEDROCK_PORT: u16 = 18080;

/// The address of a node when none is asked for.
pub const DEFAULT_BEDROCK_ADDR: &'static str = "127.0.0.1:18080";

/// The port that a setting stands for: the default if there is no setting or
/// it is no port number.
pub open spec fn port_of(setting: Option<Seq<char>>) -> u16 {
    match setting {
        Some(text) => match crate::text::parsed_unsigned(text, u16::MAX as nat) {
            Some(n) => n as u16,
            None => DEFAULT_BEDROCK_PORT,
        },
        None => DEFAULT_BEDROCK_PORT,
    }
}

/// What is known before a node is launched: the environment variables, with
/// the reason for one that cannot be read, and which files are there.
#[derive(Debug)]
pub struct LaunchEnv {
    /// `LEZ_BEDROCK_BIN`
    pub bin: Result<String, String>,
    /// `LEZ_BEDROCK_CONFIG_DIR`
    pub config_dir: Result<String, String>,
    /// `LEZ_BEDROCK_PORT`
    pub port: Option<String>,
    /// Whether the binary is a file.
    pub bin_is_file: bool,
    /// Whether the directory has a `node-config.yaml`.
    pub node_config_is_file: bool,
    /// Whether the directory has a `deployment-settings.yaml`.
    pub template_is_file: bool,
}

/// What a node is launched with.
#[derive(Debug, Clone)]
pub struct LaunchPlan {
    pub bin: String,
    pub config_dir: String,
    pub port: u16,
}

/// Why a node cannot be launched.
#[derive(Debug, Clone)]
pub enum LaunchError {
    NoBin { reason: String },
    NoConfigDir { reason: String },
    BinIsNoFile { bin: String },
    ConfigIncomplete { config_dir: String },
}

impl LaunchError {
    /// The words in which the failure is reported.
    pub open spec fn message_text(self) -> Seq<char> {
        match self {
            LaunchError::NoBin { reason } => "LEZ_BEDROCK_BIN is required ("@ + reason@
                + "). Set it to the absolute path of the logos-blockchain-node binary (e.g. `export LEZ_BEDROCK_BIN=/path/to/logos-blockchain/target/release/logos-blockchain-node`)."@,
            LaunchError::NoConfigDir { reason } => "LEZ_BEDROCK_CONFIG_DIR is required ("@
                + reason@
                + "). Set it to the directory containing node-config.yaml and deployment-settings.yaml (see tools/e2e_bench/README.md for the expected layout)."@,
            LaunchError::BinIsNoFile { bin } => "LEZ_BEDROCK_BIN does not point at a file: "@ + bin@
                + ". Build it via `cargo build -p logos-blockchain-node --release` in logos-blockchain."@,
            LaunchError::ConfigIncomplete { config_dir } =>
                "LEZ_BEDROCK_CONFIG_DIR is missing node-config.yaml or deployment-settings.yaml at "@
                + config_dir@,
        }
    }

    /// Reports the failure in words.
    pub fn message(&self) -> (text: String)
        ensures
            text@ == self.message_text(),
    {
        match self {
            LaunchError::NoBin { reason } => {
                let mut text = "LEZ_BEDROCK_BIN is required (".to_owned();
                text.append(reason.as_str());
                text.append(
                    "). Set it to the absolute path of the logos-blockchain-node binary (e.g. `export LEZ_BEDROCK_BIN=/path/to/logos-blockchain/target/release/logos-blockchain-node`).",
                );
                text
            },
            LaunchError::NoConfigDir { reason } => {
                let mut text = "LEZ_BEDROCK_CONFIG_DIR is required (".to_owned();
                text.append(reason.as_str());
                text.append(
                    "). Set it to the directory containing node-config.yaml and deployment-settings.yaml (see tools/e2e_bench/README.md for the expected layout).",
                );
                text
            },
            LaunchError::BinIsNoFile { bin } => {
                let mut text = "LEZ_BEDROCK_BIN does not point at a file: ".to_owned();
                text.append(bin.as_str());
                text.append(
                    ". Build it via `cargo build -p logos-blockchain-node --release` in logos-blockchain.",
                );
                text
            },
            LaunchError::ConfigIncomplete { config_dir } => {
                let mut text =
                    "LEZ_BEDROCK_CONFIG_DIR is missing node-config.yaml or deployment-settings.yaml at ".to_owned();
                text.append(config_dir.as_str());
                text
            },
        }
    }
}

/// What a node is launched with, or the first thing that stands against it.
pub open spec fn launch_plan(env: LaunchEnv) -> Result<LaunchPlan, LaunchError> {
    match (env.bin, env.config_dir) {
        (Err(reason), _) => Err(LaunchError::NoBin { reason }),
        (Ok(_), Err(reason)) => Err(LaunchError::NoConfigDir { reason }),
        (Ok(bin), Ok(config_dir)) => if !env.bin_is_file {
            Err(LaunchError::BinIsNoFile { bin })
        } else if !env.node_config_is_file || !env.template_is_file {
            Err(LaunchError::ConfigIncomplete { config_dir })
        } else {
            Ok(
                LaunchPlan {
                    bin,
                    config_dir,
                    port: port_of(
                        match env.port {
                            Some(text) => Some(text@),
                            None => None,
                        },
                    ),
                },
            )
        },
    }
}

/// Reads the port out of a setting.
fn bedrock_port(setting: &Option<String>) -> (port: u16)
    ensures
        port == port_of(
            match *setting {
                Some(text) => Some(text@),
                None => None,
            },
        ),
{
    match setting {
        Some(text) => match parse_unsigned(text.as_str(), u16::MAX as u64) {
            Some(n) => n as u16,
            None => DEFAULT_BEDROCK_PORT,
        },
        None => DEFAULT_BEDROCK_PORT,
    }
}

/// Decides whether a node can be launched and with what.
pub fn plan_launch(env: LaunchEnv) -> (res: Result<LaunchPlan, LaunchError>)
    ensures
        res == launch_plan(env),
{
    let port: u16 = bedrock_port(&env.port);
    let bin = match env.bin {
        Ok(bin) => bin,
        Err(reason) => return Err(LaunchError::NoBin { reason }),
    };
    let config_dir = match env.config_dir {
        Ok(config_dir) => config_dir,
        Err(reason) => return Err(LaunchError::NoConfigDir { reason }),
    };
    if !env.bin_is_file {
        return Err(LaunchError::BinIsNoFile { bin });
    }
    if !env.node_config_is_file || !env.template_is_file {
        return Err(LaunchError::ConfigIncomplete { config_dir });
    }
    Ok(LaunchPlan { bin, config_dir, port })
}

/// A port number in decimal is taken as it is.
pub proof fn any_port_can_be_asked_for(port: u16)
    ensures
        port_of(Some(crate::text::decimal(port as nat))) == port,
{
    crate::text::decimal_roundtrip(port as nat, u16::MAX as nat);
}

/// The address of the node to use: the setting, or the default.
pub fn bedrock_addr(setting: Option<String>) -> (addr: String)
    ensures
        addr@ == match setting {
            Some(text) => text@,
            None => "127.0.0.1:18080"@,
        },
{
    match setting {
        Some(text) => text,
        None => DEFAULT_BEDROCK_ADDR.to_owned(),
    }
}

/// The address of a node on this machine.
pub open spec fn local_addr_text(port: u16) -> Seq<char> {
    "127.0.0.1:"@ + crate::text::decimal(port as nat)
}

/// The address of a node that was launched on this machine.
pub fn local_addr(port: u16) -> (addr: String)
    ensures
        addr@ == local_addr_text(port),
{
    let mut addr = "127.0.0.1:".to_owned();
    push_decimal(&mut addr, port as u128);
    addr
}

/// Reports an address setting that is no address.
pub fn invalid_addr_message(setting: &str) -> (text: String)
    ensures
        text@ == "invalid LEZ_BEDROCK_ADDR `"@ + setting@ + "`"@,
{
    let mut text = "invalid LEZ_BEDROCK_ADDR `".to_owned();
    text.append(setting);
    text.append("`");
    text
}

/// What stands in the template where the start time of the chain belongs.
pub open spec fn start_time_placeholder() -> Seq<char> {
    "PLACEHOLDER_CHAIN_START_TIME"@
}

/// Fills the start time of the chain into the deployment template.
pub fn deployment_settings(template: &str, start_time: &str) -> (settings: String)
    ensures
        settings@ == crate::text::replaced_from(
            template@,
            start_time_placeholder(),
            start_time@,
            0,
        ),
{
    proof {
        reveal_strlit("PLACEHOLDER_CHAIN_START_TIME");
    }
    replace_all(template, "PLACEHOLDER_CHAIN_START_TIME", start_time)
}

/// What `chrono` makes of a time, in seconds and nanoseconds since the epoch,
/// under a format string. `None` if there is no such time or format.
pub uninterp spec fn formatted_utc(secs: i64, nanos: u32, format: Seq<char>) -> Option<Seq<char>>;

/// The characters of a text that may be missing.
pub open spec fn optional_text(text: Option<String>) -> Option<Seq<char>> {
    match text {
        Some(t) => Some(t@),
        None => None,
    }
}

/// Calls `chrono::DateTime::from_timestamp` and writes the time with
/// `chrono::DateTime::format`. A time out of range and a bad format string
/// give `None`. The text depends on the arguments alone: the time is in UTC
/// and the format is not localized.
#[verifier::external_body]
fn format_utc(secs: i64, nanos: u32, format: &str) -> (text: Option<String>)
    ensures
        optional_text(text) == formatted_utc(secs, nanos, format@),
{
    let time = chrono::DateTime::from_timestamp(secs, nanos)?;
    let mut text = String::new();
    write!(text, "{}", time.format(format)).ok()?;
    Some(text)
}

/// The start time of the chain as the deployment settings want it:
/// `YYYY-MM-DD HH:MM:SS.ffffff +00:00:00`.
pub fn chain_start_time(secs: i64, nanos: u32) -> (text: Option<String>)
    ensures
        optional_text(text) == formatted_utc(secs, nanos, "%Y-%m-%d %H:%M:%S%.6f +00:00:00"@),
{
    format_utc(secs, nanos, "%Y-%m-%d %H:%M:%S%.6f +00:00:00")
}

/// A setting that is no port number counts as none, and no setting means the
/// default port.
pub proof fn other_settings_mean_the_default_port(setting: Seq<char>, n: nat)
    ensures
        port_of(None) == 18080,
        crate::text::parsed_unsigned(setting, 65535) is None ==> port_of(Some(setting)) == 18080,
        n > 65535 ==> port_of(Some(crate::text::decimal(n))) == 18080,
        n <= 65535 ==> port_of(Some(crate::text::decimal(n))) == n,
{
    crate::text::numbers_are_read_up_to_the_limit(n, 65535);
}

/// A node is launched exactly if both variables are set and all three files are
/// there, and then with what the variables say. Otherwise the first thing that is
/// missing is named.
pub proof fn launch_needs_everything(env: LaunchEnv)
    ensures
        launch_plan(env) is Ok <==> env.bin is Ok && env.config_dir is Ok && env.bin_is_file
            && env.node_config_is_file && env.template_is_file,
        launch_plan(env) matches Ok(plan) ==> env.bin == Ok::<String, String>(plan.bin)
            && env.config_dir == Ok::<String, String>(plan.config_dir),
        launch_plan(env) matches Ok(plan) ==> (env.port is None ==> plan.port == 18080),
        launch_plan(env) matches Ok(plan) ==> (env.port matches Some(text) ==> match
            crate::text::parsed_unsigned(text@, 65535) {
            Some(n) => plan.port == n,
            None => plan.port == 18080,
        }),
        env.bin matches Err(reason) ==> launch_plan(env) == Err::<LaunchPlan, LaunchError>(
            LaunchError::NoBin { reason },
        ),
        env.bin is Ok ==> (env.config_dir matches Err(reason) ==> launch_plan(env) == Err::<
            LaunchPlan,
            LaunchError,
        >(LaunchError::NoConfigDir { reason })),
        env.bin is Ok && env.config_dir is Ok && !env.bin_is_file ==> launch_plan(env) == Err::<
            LaunchPlan,
            LaunchError,
        >(LaunchError::BinIsNoFile { bin: env.bin->Ok_0 }),
        env.bin is Ok && env.config_dir is Ok && env.bin_is_file && !(env.node_config_is_file
            && env.template_is_file) ==> launch_plan(env) == Err::<LaunchPlan, LaunchError>(
            LaunchError::ConfigIncomplete { config_dir: env.config_dir->Ok_0 },
        ),
{
}

/// A failed launch is reported with what stands against it: the reason for a
/// variable that cannot be read, or the path that is wrong. The place where it
/// stands in the report is returned.
pub proof fn reports_name_the_obstacle(error: LaunchError) -> (place: int)
    ensures
        ({
            let named = match error {
                LaunchError::NoBin { reason } => reason@,
                LaunchError::NoConfigDir { reason } => reason@,
                LaunchError::BinIsNoFile { bin } => bin@,
                LaunchError::ConfigIncomplete { config_dir } => config_dir@,
            };
            let text = error.message_text();
            &&& 0 <= place <= text.len() - named.len()
            &&& text.subrange(place, place + named.len()) == named
        }),
{
    let text = error.message_text();
    match error {
        LaunchError::NoBin { reason } => {
            let place = "LEZ_BEDROCK_BIN is required ("@.len() as int;
            assert(text.subrange(place, place + reason@.len()) =~= reason@);
            place
        },
        LaunchError::NoConfigDir { reason } => {
            let place = "LEZ_BEDROCK_CONFIG_DIR is required ("@.len() as int;
            assert(text.subrange(place, place + reason@.len()) =~= reason@);
            place
        },
        LaunchError::BinIsNoFile { bin } => {
            let place = "LEZ_BEDROCK_BIN does not point at a file: "@.len() as int;
            assert(text.subrange(place, place + bin@.len()) =~= bin@);
            place
        },
        LaunchError::ConfigIncomplete { config_dir } => {
            let place =
                "LEZ_BEDROCK_CONFIG_DIR is missing node-config.yaml or deployment-settings.yaml at "@.len() as int;
            assert(text.subrange(place, place + config_dir@.len()) =~= config_dir@);
            place
        },
    }
}

/// The start time replaces the placeholder in the template, and nothing else
/// changes: what stands before the first placeholder stays, and so does a template
/// without one.
pub proof fn only_the_placeholder_is_replaced(
    before: Seq<char>,
    after: Seq<char>,
    start_time: Seq<char>,
)
    requires
        forall|at: int|
            0 <= at < before.len() + start_time_placeholder().len() + after.len() && at
                != before.len() ==> !#[trigger] crate::text::stands_at(
                before + start_time_placeholder() + after,
                start_time_placeholder(),
                at,
            ),
    ensures
        crate::text::replaced_from(
            before + "PLACEHOLDER_CHAIN_START_TIME"@ + after,
            start_time_placeholder(),
            start_time,
            0,
        ) == before + start_time + after,
{
    reveal_strlit("PLACEHOLDER_CHAIN_START_TIME");
    let placeholder = start_time_placeholder();
    let template = before + placeholder + after;
    let at = before.len() as int;
    assert(template.subrange(at, at + placeholder.len()) =~= placeholder);
    crate::text::replacing_the_first(template, placeholder, start_time, 0, at);
    crate::text::replacing_nothing(template, placeholder, start_time, at + placeholder.len());
    assert(template.skip(at + placeholder.len()) =~= after);
    assert(template.subrange(0, at) =~= before);
}

} // verus!
