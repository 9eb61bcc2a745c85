//! The configuration of the login daemon.

use crate::assoc::pair_views;
use vstd::prelude::*;

verus! {

/// Every field has a default, so that the daemon runs unconfigured.
#[derive(Debug, PartialEq, Eq)]
pub struct Config {
    /// The unprivileged user that the greeter runs as.
    pub greeter_user: String,
    /// The command that starts the greeter.
    pub greeter_cmd: String,
    /// The command that starts the session of an authenticated user.
    pub session_cmd: String,
    /// The socket that the greeter connects to.
    pub socket_path: String,
    /// The PAM service that authenticates a user and opens their session.
    pub pam_service: String,
    /// The PAM service of the greeter's own session, which never asks for a
    /// password.
    pub greeter_pam_service: String,
    /// The terminal that is handed to PAM.
    pub tty_name: String,
    /// The console, which the session sees as `XDG_VTNR`.
    pub vt: u32,
    /// The XKB layout of the session.
    pub keyboard_layout: String,
    /// The XKB variant of the session; empty for none.
    pub keyboard_variant: String,
    /// The XKB model of the session; empty for the default.
    pub keyboard_model: String,
    /// The XKB options of the session; empty for none.
    pub keyboard_options: String,
    /// Variables that are added to the environment of the session, or replace
    /// variables of it.
    pub session_environment: Vec<(String, String)>,
}

/// The value of a [`Config`].
pub ghost struct ConfigView {
    pub greeter_user: Seq<char>,
    pub greeter_cmd: Seq<char>,
    pub session_cmd: Seq<char>,
    pub socket_path: Seq<char>,
    pub pam_service: Seq<char>,
    pub greeter_pam_service: Seq<char>,
    pub tty_name: Seq<char>,
    pub vt: u32,
    pub keyboard_layout: Seq<char>,
    pub keyboard_variant: Seq<char>,
    pub keyboard_model: Seq<char>,
    pub keyboard_options: Seq<char>,
    pub session_environment: Seq<(Seq<char>, Seq<char>)>,
}

impl View for Config {
    type V = ConfigView;

    open spec fn view(&self) -> ConfigView {
        ConfigView {
            greeter_user: self.greeter_user@,
            greeter_cmd: self.greeter_cmd@,
            session_cmd: self.session_cmd@,
            socket_path: self.socket_path@,
            pam_service: self.pam_service@,
            greeter_pam_service: self.greeter_pam_service@,
            tty_name: self.tty_name@,
            vt: self.vt,
            keyboard_layout: self.keyboard_layout@,
            keyboard_variant: self.keyboard_variant@,
            keyboard_model: self.keyboard_model@,
            keyboard_options: self.keyboard_options@,
            session_environment: pair_views(self.session_environment@),
        }
    }
}

/// The configuration of a daemon that was not configured.
pub open spec fn default_config() -> ConfigView {
    ConfigView {
        greeter_user: "focaldm"@,
        greeter_cmd: "/usr/libexec/focaldm-greeter"@,
        session_cmd: "/usr/bin/focaldesk"@,
        socket_path: "/run/focaldmd/greeter.sock"@,
        pam_service: "focaldmd"@,
        greeter_pam_service: "focaldmd-greeter"@,
        tty_name: "tty1"@,
        vt: 1,
        keyboard_layout: "us"@,
        keyboard_variant: Seq::empty(),
        keyboard_model: Seq::empty(),
        keyboard_options: Seq::empty(),
        session_environment: Seq::empty(),
    }
}

impl Default for Config {
    fn default() -> (r: Config)
        ensures
            r@ == default_config(),
    {
        let r = Config {
            greeter_user: "focaldm".to_owned(),
            greeter_cmd: "/usr/libexec/focaldm-greeter".to_owned(),
            session_cmd: "/usr/bin/focaldesk".to_owned(),
            socket_path: "/run/focaldmd/greeter.sock".to_owned(),
            pam_service: "focaldmd".to_owned(),
            greeter_pam_service: "focaldmd-greeter".to_owned(),
            tty_name: "tty1".to_owned(),
            vt: 1,
            keyboard_layout: "us".to_owned(),
            keyboard_variant: String::new(),
            keyboard_model: String::new(),
            keyboard_options: String::new(),
            session_environment: Vec::new(),
        };
        assert(r@.session_environment =~= Seq::empty());
        r
    }
}

/// What a configuration file sets; the rest is left out.
#[derive(Debug)]
pub struct ConfigFile {
    pub greeter_user: Option<String>,
    pub greeter_cmd: Option<String>,
    pub session_cmd: Option<String>,
    pub socket_path: Option<String>,
    pub pam_service: Option<String>,
    pub greeter_pam_service: Option<String>,
    pub tty_name: Option<String>,
    pub vt: Option<u32>,
    pub keyboard_layout: Option<String>,
    pub keyboard_variant: Option<String>,
    pub keyboard_model: Option<String>,
    pub keyboard_options: Option<String>,
    pub session_environment: Option<Vec<(String, String)>>,
}

/// What came of reading the configuration file.
#[derive(Debug)]
pub enum ConfigRead {
    Parsed { file: ConfigFile },
    /// The file is not there.
    Missing,
    /// The file could not be read.
    Unreadable { error: String },
    /// The file is no configuration.
    Invalid { error: String },
}

/// Why there is no configuration.
#[derive(Debug)]
pub enum ConfigError {
    Read { error: String },
    Parse { error: String },
}

/// A setting of a file, or its default.
pub open spec fn text_or(value: Option<String>, default: Seq<char>) -> Seq<char> {
    match value {
        Some(text) => text@,
        None => default,
    }
}

/// A file laid over a configuration: it has what the file sets, and keeps the
/// rest.
pub open spec fn overlaid(base: ConfigView, file: ConfigFile) -> ConfigView {
    ConfigView {
        greeter_user: text_or(file.greeter_user, base.greeter_user),
        greeter_cmd: text_or(file.greeter_cmd, base.greeter_cmd),
        session_cmd: text_or(file.session_cmd, base.session_cmd),
        socket_path: text_or(file.socket_path, base.socket_path),
        pam_service: text_or(file.pam_service, base.pam_service),
        greeter_pam_service: text_or(file.greeter_pam_service, base.greeter_pam_service),
        tty_name: text_or(file.tty_name, base.tty_name),
        vt: match file.vt {
            Some(n) => n,
            None => base.vt,
        },
        keyboard_layout: text_or(file.keyboard_layout, base.keyboard_layout),
        keyboard_variant: text_or(file.keyboard_variant, base.keyboard_variant),
        keyboard_model: text_or(file.keyboard_model, base.keyboard_model),
        keyboard_options: text_or(file.keyboard_options, base.keyboard_options),
        session_environment: match file.session_environment {
            Some(list) => pair_views(list@),
            None => base.session_environment,
        },
    }
}

fn text_over(value: Option<String>, default: String) -> (r: String)
    ensures
        r@ == text_or(value, default@),
{
    match value {
        Some(text) => text,
        None => default,
    }
}

impl Config {
    /// The configuration with what a file sets.
    pub fn overlay(self, file: ConfigFile) -> (r: Config)
        ensures
            r@ == overlaid(self@, file),
    {
        Config {
            greeter_user: text_over(file.greeter_user, self.greeter_user),
            greeter_cmd: text_over(file.greeter_cmd, self.greeter_cmd),
            session_cmd: text_over(file.session_cmd, self.session_cmd),
            socket_path: text_over(file.socket_path, self.socket_path),
            pam_service: text_over(file.pam_service, self.pam_service),
            greeter_pam_service: text_over(file.greeter_pam_service, self.greeter_pam_service),
            tty_name: text_over(file.tty_name, self.tty_name),
            vt: match file.vt {
                Some(n) => n,
                None => self.vt,
            },
            keyboard_layout: text_over(file.keyboard_layout, self.keyboard_layout),
            keyboard_variant: text_over(file.keyboard_variant, self.keyboard_variant),
            keyboard_model: text_over(file.keyboard_model, self.keyboard_model),
            keyboard_options: text_over(file.keyboard_options, self.keyboard_options),
            session_environment: match file.session_environment {
                Some(list) => list,
                None => self.session_environment,
            },
        }
    }

    /// The configuration: the file laid over the defaults, or the defaults
    /// where there is no file.
    pub fn load(read: ConfigRead) -> (r: Result<Config, ConfigError>)
        ensures
            match read {
                ConfigRead::Parsed { file } => r is Ok && r->Ok_0@ == overlaid(
                    default_config(),
                    file,
                ),
                ConfigRead::Missing => r is Ok && r->Ok_0@ == default_config(),
                ConfigRead::Unreadable { error } => r == Err::<Config, ConfigError>(
                    ConfigError::Read { error },
                ),
                ConfigRead::Invalid { error } => r == Err::<Config, ConfigError>(
                    ConfigError::Parse { error },
                ),
            },
    {
        let base = Config::default();
        match read {
            ConfigRead::Parsed { file } => Ok(base.overlay(file)),
            ConfigRead::Missing => Ok(base),
            ConfigRead::Unreadable { error } => Err(ConfigError::Read { error }),
            ConfigRead::Invalid { error } => Err(ConfigError::Parse { error }),
        }
    }
}

/// A file that sets nothing.
pub open spec fn sets_nothing(file: ConfigFile) -> bool {
    &&& file.greeter_user is None
    &&& file.greeter_cmd is None
    &&& file.session_cmd is None
    &&& file.socket_path is None
    &&& file.pam_service is None
    &&& file.greeter_pam_service is None
    &&& file.tty_name is None
    &&& file.vt is None
    &&& file.keyboard_layout is None
    &&& file.keyboard_variant is None
    &&& file.keyboard_model is None
    &&& file.keyboard_options is None
    &&& file.session_environment is None
}

/// A file only needs to set what differs: one that sets nothing changes
/// nothing, and one that is laid over twice changes nothing more.
pub proof fn law_overlay(base: ConfigView, file: ConfigFile)
    ensures
        sets_nothing(file) ==> overlaid(base, file) == base,
        overlaid(overlaid(base, file), file) == overlaid(base, file),
{
}

/// What a file sets holds, setting by setting, and what it does not set stays as
/// it was: no setting of the file reaches another one.
pub proof fn law_overlay_by_setting(base: ConfigView, file: ConfigFile)
    ensures
        ({
            let r = overlaid(base, file);
            &&& r.greeter_user == match file.greeter_user {
                Some(s) => s@,
                None => base.greeter_user,
            }
            &&& r.greeter_cmd == match file.greeter_cmd {
                Some(s) => s@,
                None => base.greeter_cmd,
            }
            &&& r.session_cmd == match file.session_cmd {
                Some(s) => s@,
                None => base.session_cmd,
            }
            &&& r.socket_path == match file.socket_path {
                Some(s) => s@,
                None => base.socket_path,
            }
            &&& r.pam_service == match file.pam_service {
                Some(s) => s@,
                None => base.pam_service,
            }
            &&& r.greeter_pam_service == match file.greeter_pam_service {
                Some(s) => s@,
                None => base.greeter_pam_service,
            }
            &&& r.tty_name == match file.tty_name {
                Some(s) => s@,
                None => base.tty_name,
            }
            &&& file.vt is Some ==> r.vt == file.vt->Some_0
            &&& file.vt is None ==> r.vt == base.vt
            &&& r.keyboard_layout == match file.keyboard_layout {
                Some(s) => s@,
                None => base.keyboard_layout,
            }
            &&& r.keyboard_variant == match file.keyboard_variant {
                Some(s) => s@,
                None => base.keyboard_variant,
            }
            &&& r.keyboard_model == match file.keyboard_model {
                Some(s) => s@,
                None => base.keyboard_model,
            }
            &&& r.keyboard_options == match file.keyboard_options {
                Some(s) => s@,
                None => base.keyboard_options,
            }
            &&& file.session_environment is Some ==> r.session_environment == pair_views(
                file.session_environment->Some_0@,
            )
            &&& file.session_environment is None ==> r.session_environment
                == base.session_environment
        }),
{
}

/// Without a configuration the greeter runs as a user of its own, on the first
/// console and its terminal, and its PAM service is not the one that
/// authenticates users.
pub proof fn law_defaults()
    ensures
        default_config().vt == 1,
        default_config().tty_name == "tty"@ + crate::text::dec(default_config().vt as nat),
        default_config().pam_service != default_config().greeter_pam_service,
        default_config().greeter_cmd != default_config().session_cmd,
        default_config().session_environment.len() == 0,
        default_config().keyboard_variant.len() == 0,
        default_config().keyboard_model.len() == 0,
        default_config().keyboard_options.len() == 0,
{
    reveal_strlit("tty1");
    reveal_strlit("tty");
    reveal_strlit("focaldmd");
    reveal_strlit("focaldmd-greeter");
    reveal_strlit("/usr/libexec/focaldm-greeter");
    reveal_strlit("/usr/bin/focaldesk");
    assert("tty1"@ =~= "tty"@ + crate::text::dec(1));
    assert("focaldmd"@.len() != "focaldmd-greeter"@.len());
    assert("/usr/libexec/focaldm-greeter"@.len() != "/usr/bin/focaldesk"@.len());
}

} // verus!
