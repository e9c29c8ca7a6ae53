//! The receiver's configuration.

use vstd::prelude::*;

use crate::text;
use crate::text::{parse_unsigned, push_decimal};

verus! {

/// Identifier of the application.
pub const APP_ID: &'static str = "io.github.gabrialdeora.WirelessDisplay";

/// Port on which the receiver listens unless told otherwise.
pub const DEFAULT_PORT: u16 = 48321;

/// First port that is not privileged.
pub const FIRST_FREE_PORT: u16 = 1024;

/// Least width of the window.
pub const MIN_WIDTH: i32 = 320;

/// Least height of the window.
pub const MIN_HEIGHT: i32 = 240;

/// The whole configuration.
#[derive(Debug, PartialEq)]
pub struct Config {
    pub general: GeneralConfig,
    pub network: NetworkConfig,
}

/// Logging and window.
#[derive(Debug, PartialEq)]
pub struct GeneralConfig {
    pub log_level: String,
    pub window_width: i32,
    pub window_height: i32,
    pub window_maximized: bool,
}

/// Network.
#[derive(Debug, Clone, Copy, PartialEq, Eq, Structural)]
pub struct NetworkConfig {
    pub listen_port: u16,
}

/// The view of a `Config`.
#[verifier::ext_equal]
pub struct ConfigModel {
    pub log_level: Seq<char>,
    pub window_width: i32,
    pub window_height: i32,
    pub window_maximized: bool,
    pub listen_port: u16,
}

impl View for Config {
    type V = ConfigModel;

    open spec fn view(&self) -> ConfigModel {
        ConfigModel {
            log_level: self.general.log_level@,
            window_width: self.general.window_width,
            window_height: self.general.window_height,
            window_maximized: self.general.window_maximized,
            listen_port: self.network.listen_port,
        }
    }
}

/// The configuration of a receiver that was never configured.
pub open spec fn default_config() -> ConfigModel {
    ConfigModel {
        log_level: "info"@,
        window_width: 900,
        window_height: 640,
        window_maximized: false,
        listen_port: DEFAULT_PORT,
    }
}

impl Clone for GeneralConfig {
    fn clone(&self) -> (r: Self)
        ensures
            r == *self,
    {
        GeneralConfig {
            log_level: self.log_level.clone(),
            window_width: self.window_width,
            window_height: self.window_height,
            window_maximized: self.window_maximized,
        }
    }
}

impl Clone for Config {
    fn clone(&self) -> (r: Self)
        ensures
            r == *self,
    {
        Config { general: self.general.clone(), network: self.network }
    }
}

impl Default for Config {
    fn default() -> (r: Self)
        ensures
            r@ == default_config(),
    {
        Config {
            general: GeneralConfig {
                log_level: "info".to_owned(),
                window_width: 900,
                window_height: 640,
                window_maximized: false,
            },
            network: NetworkConfig { listen_port: DEFAULT_PORT },
        }
    }
}

impl Default for GeneralConfig {
    fn default() -> (r: Self)
        ensures
            r.log_level@ == Seq::<char>::empty(),
            r.window_width == 0,
            r.window_height == 0,
            !r.window_maximized,
    {
        GeneralConfig {
            log_level: String::new(),
            window_width: 0,
            window_height: 0,
            window_maximized: false,
        }
    }
}

impl Default for NetworkConfig {
    fn default() -> (r: Self)
        ensures
            r.listen_port == 0,
    {
        NetworkConfig { listen_port: 0 }
    }
}

/// Why there is no configuration.
#[derive(Debug, Clone, PartialEq)]
pub enum ConfigError {
    NoConfigDir,
    Io(String),
}

impl ConfigError {
    /// The message of the error.
    pub open spec fn text(self) -> Seq<char> {
        match self {
            ConfigError::NoConfigDir => "config directory unavailable"@,
            ConfigError::Io(why) => "io error: "@ + why@,
        }
    }

    /// The message of the error.
    pub fn to_string(&self) -> (r: String)
        ensures
            r@ == self.text(),
    {
        match self {
            ConfigError::NoConfigDir => "config directory unavailable".to_owned(),
            ConfigError::Io(why) => {
                let mut out = "io error: ".to_owned();
                out.append(why.as_str());
                out
            },
        }
    }
}

impl GeneralConfig {
    /// A section of a file; what the file leaves out is empty, 0 or false.
    pub fn from_parts(
        log_level: Option<String>,
        window_width: Option<i32>,
        window_height: Option<i32>,
        window_maximized: Option<bool>,
    ) -> (r: GeneralConfig)
        ensures
            r.log_level@ == (match log_level {
                Some(s) => s@,
                None => Seq::empty(),
            }),
            r.window_width == (match window_width {
                Some(v) => v,
                None => 0,
            }),
            r.window_height == (match window_height {
                Some(v) => v,
                None => 0,
            }),
            r.window_maximized == (window_maximized == Some(true)),
    {
        GeneralConfig {
            log_level: match log_level {
                Some(s) => s,
                None => String::new(),
            },
            window_width: match window_width {
                Some(v) => v,
                None => 0,
            },
            window_height: match window_height {
                Some(v) => v,
                None => 0,
            },
            window_maximized: match window_maximized {
                Some(v) => v,
                None => false,
            },
        }
    }
}

impl NetworkConfig {
    /// A section of a file; a port that the file leaves out is 0.
    pub fn from_parts(listen_port: Option<u16>) -> (r: NetworkConfig)
        ensures
            r.listen_port == (match listen_port {
                Some(v) => v,
                None => 0,
            }),
    {
        NetworkConfig {
            listen_port: match listen_port {
                Some(v) => v,
                None => 0,
            },
        }
    }
}

/// What was found where the configuration is kept.
#[derive(Debug, PartialEq)]
pub enum Found {
    /// A file that could be read, with the sections it has.
    Sections { general: Option<GeneralConfig>, network: Option<NetworkConfig> },
    /// A file that makes no sense.
    Invalid,
    /// Nothing.
    Missing,
}

/// What to do about what was found.
#[derive(Debug, PartialEq)]
pub struct Loaded {
    /// The configuration to use.
    pub config: Config,
    /// Whether to move the file aside first.
    pub back_up: bool,
    /// Whether to write the configuration.
    pub save: bool,
}

impl Config {
    /// The configuration in a file; a section that it leaves out is as by default.
    pub fn from_sections(general: Option<GeneralConfig>, network: Option<NetworkConfig>) -> (r:
        Config)
        ensures
            match general {
                Some(g) => r.general == g,
                None => r.general.log_level@ == "info"@ && r.general.window_width == 900
                    && r.general.window_height == 640 && !r.general.window_maximized,
            },
            r.network.listen_port == (match network {
                Some(n) => n.listen_port,
                None => DEFAULT_PORT,
            }),
    {
        let base = Config::default();
        Config {
            general: match general {
                Some(g) => g,
                None => base.general,
            },
            network: match network {
                Some(n) => n,
                None => base.network,
            },
        }
    }

    /// The configuration with the port that the environment asks for, if it asks for one.
    pub fn fill_defaults_from_env(self, port: Option<String>) -> (r: Config)
        ensures
            r.general == self.general,
            r.network.listen_port == (match port {
                Some(p) => match text::parsed_unsigned(p@, 65535) {
                    Some(n) => n as u16,
                    None => self.network.listen_port,
                },
                None => self.network.listen_port,
            }),
    {
        match port {
            Some(p) => match parse_unsigned(p.as_str(), 65535) {
                Some(n) => Config {
                    general: self.general,
                    network: NetworkConfig { listen_port: n as u16 },
                },
                None => self,
            },
            None => self,
        }
    }

    /// Decides what to do about what was found: a good file is used, with the port of the
    /// environment; a bad one is moved aside and, like a missing one, replaced by the
    /// defaults.
    pub fn load_from(found: Found, port: Option<String>) -> (r: Loaded)
        ensures
            match found {
                Found::Sections { general, network } => {
                    &&& !r.back_up && !r.save
                    &&& (match general {
                        Some(g) => r.config.general == g,
                        None => r.config@.log_level == "info"@ && r.config@.window_width == 900
                            && r.config@.window_height == 640 && !r.config@.window_maximized,
                    })
                    &&& r.config@.listen_port == ({
                        let own = match network {
                            Some(n) => n.listen_port,
                            None => DEFAULT_PORT,
                        };
                        match port {
                            Some(p) => match text::parsed_unsigned(p@, 65535) {
                                Some(n) => n as u16,
                                None => own,
                            },
                            None => own,
                        }
                    })
                },
                Found::Invalid => r.back_up && r.save && r.config@ == default_config(),
                Found::Missing => !r.back_up && r.save && r.config@ == default_config(),
            },
    {
        match found {
            Found::Sections { general, network } => Loaded {
                config: Config::from_sections(general, network).fill_defaults_from_env(port),
                back_up: false,
                save: false,
            },
            Found::Invalid => Loaded { config: Config::default(), back_up: true, save: true },
            Found::Missing => Loaded { config: Config::default(), back_up: false, save: true },
        }
    }

    /// Notes the size of the window, or the least size if it is smaller.
    pub fn set_geometry(&mut self, width: i32, height: i32, maximized: bool)
        ensures
            final(self)@ == (ConfigModel {
                window_width: if width < MIN_WIDTH {
                    MIN_WIDTH
                } else {
                    width
                },
                window_height: if height < MIN_HEIGHT {
                    MIN_HEIGHT
                } else {
                    height
                },
                window_maximized: maximized,
                ..old(self)@
            }),
    {
        self.general.window_width =
        if width < MIN_WIDTH {
            MIN_WIDTH
        } else {
            width
        };
        self.general.window_height =
        if height < MIN_HEIGHT {
            MIN_HEIGHT
        } else {
            height
        };
        self.general.window_maximized = maximized;
    }
}

/// What is wrong with a configuration, if anything.
pub open spec fn config_problem(c: ConfigModel) -> Option<Seq<char>> {
    if c.log_level.len() == 0 {
        Some("log_level must not be empty"@)
    } else if c.listen_port < FIRST_FREE_PORT {
        Some(
            "listen_port "@ + text::decimal(c.listen_port as nat) + " is privileged (<1024)"@,
        )
    } else if c.window_width < MIN_WIDTH || c.window_height < MIN_HEIGHT {
        Some("window size below minimum 320x240"@)
    } else {
        None
    }
}

/// Checks a configuration.
pub fn validate(cfg: &Config) -> (r: Result<(), String>)
    ensures
        match config_problem(cfg@) {
            None => r is Ok,
            Some(why) => r matches Err(e) && e@ == why,
        },
{
    if cfg.general.log_level.as_str().is_empty() {
        return Err("log_level must not be empty".to_owned());
    }
    if cfg.network.listen_port < FIRST_FREE_PORT {
        let mut why = "listen_port ".to_owned();
        push_decimal(&mut why, cfg.network.listen_port as u64);
        why.append(" is privileged (<1024)");
        return Err(why);
    }
    if cfg.general.window_width < MIN_WIDTH || cfg.general.window_height < MIN_HEIGHT {
        return Err("window size below minimum 320x240".to_owned());
    }
    Ok(())
}

/// The defaults are a valid configuration.
pub proof fn law_defaults_are_valid()
    ensures
        config_problem(default_config()) is None,
{
    reveal_strlit("info");
}

/// A valid configuration stays valid whatever the window was sized to.
pub proof fn law_geometry_keeps_a_configuration_valid(
    c: ConfigModel,
    width: i32,
    height: i32,
    maximized: bool,
)
    requires
        config_problem(c) is None,
    ensures
        config_problem(
            ConfigModel {
                window_width: if width < MIN_WIDTH {
                    MIN_WIDTH
                } else {
                    width
                },
                window_height: if height < MIN_HEIGHT {
                    MIN_HEIGHT
                } else {
                    height
                },
                window_maximized: maximized,
                ..c
            },
        ) is None,
{
}

/// A configuration is valid exactly when it has a log level, a port from 1024 on and a window
/// of at least 320 by 240; otherwise the first of these that fails is what is told.
pub proof fn law_what_a_configuration_must_have(c: ConfigModel)
    ensures
        ({
            let level = c.log_level.len() > 0;
            let port = c.listen_port >= 1024;
            let size = c.window_width >= 320 && c.window_height >= 240;
            &&& config_problem(c) is None <==> level && port && size
            &&& !level ==> config_problem(c) == Some("log_level must not be empty"@)
            &&& level && !port ==> config_problem(c) == Some(
                "listen_port "@ + text::decimal(c.listen_port as nat) + " is privileged (<1024)"@,
            )
            &&& level && port && !size ==> config_problem(c) == Some(
                "window size below minimum 320x240"@,
            )
        }),
{
}

/// A receiver that was never configured logs at `info`, opens a window of 900 by 640 and
/// listens on port 48321.
pub proof fn law_defaults()
    ensures
        default_config() == (ConfigModel {
            log_level: "info"@,
            window_width: 900,
            window_height: 640,
            window_maximized: false,
            listen_port: 48_321,
        }),
{
}

/// A configuration that cannot be had is told by its cause.
pub proof fn law_failures_name_their_cause(why: String)
    ensures
        ConfigError::NoConfigDir.text() == "config directory unavailable"@,
        ConfigError::Io(why).text() == "io error: "@ + why@,
{
}

} // verus!
