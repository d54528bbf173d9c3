use vstd::prelude::*;
use vstd::string::StringExecFns;
use crate::error::ConfigError;

verus! {

/// Where the configuration file lies below the configuration directory.
pub const CONFIG_FILE: &'static str = "/emoti/config.yaml";

/// The configuration directory: the configuration home when it is known,
/// else `.config` in the home directory, else `/home/<user>`.
pub open spec fn config_dir(
    config_home: Option<Seq<char>>,
    home: Option<Seq<char>>,
    user: Option<Seq<char>>,
) -> Option<Seq<char>> {
    match config_home {
        Some(dir) => Some(dir),
        None => match home {
            Some(h) => Some(h + "/.config"@),
            None => match user {
                Some(u) => Some("/home/"@ + u),
                None => None,
            },
        },
    }
}

pub open spec fn opt_view(s: Option<String>) -> Option<Seq<char>> {
    match s {
        Some(x) => Some(x@),
        None => None,
    }
}

/// The path of the configuration file, from the values of the configuration
/// home, home directory and user name variables (`None` where one is unset).
pub fn smart(config_home: Option<String>, home: Option<String>, user: Option<String>) -> (r: Result<
    String,
    ConfigError,
>)
    ensures
        match config_dir(opt_view(config_home), opt_view(home), opt_view(user)) {
            Some(dir) => r matches Ok(p) && p@ == dir + CONFIG_FILE@,
            None => r matches Err(ConfigError::SmartPath),
        },
{
    let dir = match config_home {
        Some(dir) => dir,
        None => match home {
            Some(h) => h.concat("/.config"),
            None => match user {
                Some(u) => String::from_str("/home/").concat(u.as_str()),
                None => return Err(ConfigError::SmartPath),
            },
        },
    };
    Ok(dir.concat(CONFIG_FILE))
}

} // verus!
