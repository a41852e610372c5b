//! User preferences: a small file, apart from the data.
//!
//! A preference is a choice of whoever uses the program, and losing it can
//! cost no task nor keep the list from opening. So a missing, unreadable or
//! corrupt file is never fatal and never rewritten: the program goes on with
//! the defaults and a warning. The file lives at
//! `<config dir>/todo-ratatui/config.json`, beside nothing of the database.

use vstd::prelude::*;

use crate::dominio::atomic::{caminho_junto, juntar_caminho};

verus! {

/// Directory of the application inside the system's configuration directory.
pub const APP_DIR: &'static str = "todo-ratatui";

/// Name of the preferences file inside the application directory.
pub const CONFIG_FILE_NAME: &'static str = "config.json";

/// Environment variable that replaces the path of the preferences file.
pub const ENV_CONFIG: &'static str = "TODO_RATATUI_CONFIG";

/// Preferences on disk: the slug of the theme (for instance
/// `"tokyo-night-storm"`), when one was chosen. A file without `theme` is a
/// valid file: there is no preference yet.
#[derive(Debug, Clone, PartialEq, Eq)]
pub struct Config {
    pub theme: Option<String>,
}

impl Default for Config {
    fn default() -> (r: Config)
        ensures
            r.theme is None,
    {
        Config { theme: None }
    }
}

/// Errors of the preferences file. Each one that is about a file names it.
#[derive(Debug, Clone, PartialEq, Eq)]
pub enum ConfigError {
    /// There is no configuration directory: neither `XDG_CONFIG_HOME` nor
    /// `HOME` resolves.
    NoConfigDir,
    Io { path: String, source: String },
    Json { path: String, source: String },
}

/// The text of a preferences error.
pub open spec fn texto_do_erro_de_config(e: ConfigError) -> Seq<char> {
    match e {
        ConfigError::Io { path, source } => "falha de I/O em «"@ + path@ + "»: "@ + source@,
        ConfigError::Json { path, source } => "JSON inválido em «"@ + path@ + "»: "@ + source@,
        ConfigError::NoConfigDir => "não consigo determinar o directório de configuração: define XDG_CONFIG_HOME ou HOME, ou usa --config <caminho>"@,
    }
}

/// The warning that goes with falling back to the defaults: what happened,
/// with what the program goes on, and that the file was not touched.
pub open spec fn texto_do_aviso(e: ConfigError) -> Seq<char> {
    texto_do_erro_de_config(e) + " — sigo com os valores por omissão; o ficheiro fica como está"@
}

impl ConfigError {
    /// The file the error is about, when there is one.
    pub fn path(&self) -> (r: Option<&str>)
        ensures
            match *self {
                ConfigError::Io { path, .. } => r matches Some(p) && p@ == path@,
                ConfigError::Json { path, .. } => r matches Some(p) && p@ == path@,
                ConfigError::NoConfigDir => r is None,
            },
    {
        match self {
            ConfigError::Io { path, .. } => Some(path.as_str()),
            ConfigError::Json { path, .. } => Some(path.as_str()),
            ConfigError::NoConfigDir => None,
        }
    }

    /// The message shown to the user.
    pub fn mensagem(&self) -> (r: String)
        ensures
            r@ == texto_do_erro_de_config(*self),
    {
        let mut s = String::new();
        match self {
            ConfigError::Io { path, source } => {
                s.append("falha de I/O em «");
                s.append(path.as_str());
                s.append("»: ");
                s.append(source.as_str());
            },
            ConfigError::Json { path, source } => {
                s.append("JSON inválido em «");
                s.append(path.as_str());
                s.append("»: ");
                s.append(source.as_str());
            },
            ConfigError::NoConfigDir => {
                s.append(
                    "não consigo determinar o directório de configuração: define XDG_CONFIG_HOME ou HOME, ou usa --config <caminho>",
                );
            },
        }
        assert(s@ =~= texto_do_erro_de_config(*self));
        s
    }
}

/// The warning printed when the file cannot be used.
pub fn aviso(err: &ConfigError) -> (r: String)
    ensures
        r@ == texto_do_aviso(*err),
{
    let mut s = err.mensagem();
    s.append(" — sigo com os valores por omissão; o ficheiro fica como está");
    s
}

/// Where the preferences file lives: `--config <path>`, then the
/// environment variable (when set and not empty), then
/// `<config dir>/todo-ratatui/config.json`.
///
/// The caller reads the variable and asks the system for its configuration
/// directory; this decides between them.
pub fn resolve_path(explicit: Option<&str>, env: Option<&str>, config_dir: Option<&str>) -> (r:
    Result<String, ConfigError>)
    ensures
        explicit matches Some(p) ==> (r matches Ok(q) && q@ == p@),
        explicit is None && (env matches Some(v) && v@.len() > 0) ==> (r matches Ok(q) && q@
            == env->0@),
        explicit is None && !(env matches Some(v) && v@.len() > 0) ==> match config_dir {
            Some(base) => (r matches Ok(q) && q@ == caminho_junto(
                caminho_junto(base@, APP_DIR@),
                CONFIG_FILE_NAME@,
            )),
            None => r == Err::<String, ConfigError>(ConfigError::NoConfigDir),
        },
        explicit is None && !(env matches Some(v) && v@.len() > 0) ==> (config_dir matches Some(base)
            ==> (base@.len() > 0 && base@.last() != '/' ==> (r matches Ok(q) && q@ == base@ + "/"@
            + APP_DIR@ + "/"@ + CONFIG_FILE_NAME@))),
{
    if let Some(p) = explicit {
        return Ok(p.to_owned());
    }
    if let Some(v) = env {
        if !v.is_empty() {
            return Ok(v.to_owned());
        }
    }
    match config_dir {
        Some(base) => {
            proof {
                reveal_strlit("todo-ratatui");
                reveal_strlit("config.json");
            }
            let dir = juntar_caminho(base, APP_DIR);
            let q = juntar_caminho(dir.as_str(), CONFIG_FILE_NAME);
            proof {
                if base@.len() > 0 && base@.last() != '/' {
                    assert(dir@.last() == APP_DIR@.last());
                    assert(q@ =~= base@ + "/"@ + APP_DIR@ + "/"@ + CONFIG_FILE_NAME@);
                }
            }
            Ok(q)
        },
        None => Err(ConfigError::NoConfigDir),
    }
}

/// What reading the preferences file gave.
pub enum LeituraConfig {
    /// There is no file.
    Ausente,
    /// The file could not be read, or did not parse as preferences.
    Falhou(ConfigError),
    /// The preferences the file holds.
    Lida(Config),
}

impl Config {
    /// The preferences to use after reading the file, and the warning to
    /// print, if any: a missing file gives the defaults silently, a file that
    /// failed gives the defaults and a warning. Nothing is ever written back.
    pub fn load_or_default(lida: LeituraConfig) -> (r: (Config, Option<String>))
        ensures
            match lida {
                LeituraConfig::Ausente => r.0.theme is None && r.1 is None,
                LeituraConfig::Falhou(e) => r.0.theme is None && (r.1 matches Some(a) && a@
                    == texto_do_aviso(e)),
                LeituraConfig::Lida(c) => r.0 == c && r.1 is None,
            },
    {
        match lida {
            LeituraConfig::Ausente => (Config { theme: None }, None),
            LeituraConfig::Falhou(e) => (Config { theme: None }, Some(aviso(&e))),
            LeituraConfig::Lida(c) => (c, None),
        }
    }
}

} // verus!
