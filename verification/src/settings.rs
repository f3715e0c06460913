//! The client's Spotify credentials and what is reported when they are
//! missing.

use vstd::prelude::*;
use vstd::string::StringExecFns;

verus! {

/// The Spotify application credentials the client authenticates with.
#[derive(Debug)]
pub struct Settings {
    pub client_id: String,
    pub client_secret: String,
    pub redirect_uri: String,
}

/// The redirect URI used when none is configured.
pub open spec fn default_redirect_uri() -> Seq<char> {
    "http://127.0.0.1:8888/callback"@
}

/// Where the credentials file is said to belong when the platform has no
/// configuration directory.
pub open spec fn fallback_config_path() -> Seq<char> {
    "~/.config/spot-tty/.env"@
}

/// The report for a missing client id, naming the credentials file.
pub open spec fn missing_client_id_message(config_path: Seq<char>) -> Seq<char> {
    "RSPOTIFY_CLIENT_ID is not set.\n\nAdd your Spotify credentials to:\n\n\t"@ + config_path
        + "\n\nThe file should contain:\n\n\tRSPOTIFY_CLIENT_ID=your_client_id_here\n\tRSPOTIFY_CLIENT_SECRET=your_client_secret_here\n\tRSPOTIFY_REDIRECT_URI=http://127.0.0.1:8888/callback\n\nGet these from https://developer.spotify.com/dashboard"@
}

impl Settings {
    /// Builds the settings from the values found in the environment (after
    /// the credentials files were loaded into it): an unset id or secret reads
    /// as empty, an unset redirect URI as the local callback. An empty client
    /// id is refused with a report naming `config_file` (the platform's
    /// credentials file, when the platform has a configuration directory).
    pub fn resolve(
        client_id: Option<String>,
        client_secret: Option<String>,
        redirect_uri: Option<String>,
        config_file: Option<String>,
    ) -> (r: Result<Settings, String>)
        ensures
            r is Err <==> match client_id {
                Some(id) => id@.len() == 0,
                None => true,
            },
            r matches Err(msg) ==> msg@ == missing_client_id_message(match config_file {
                Some(p) => p@,
                None => fallback_config_path(),
            }),
            r matches Ok(s) ==> {
                &&& Some(s.client_id) == client_id
                &&& s.client_secret@ == match client_secret {
                    Some(t) => t@,
                    None => Seq::empty(),
                }
                &&& s.redirect_uri@ == match redirect_uri {
                    Some(t) => t@,
                    None => default_redirect_uri(),
                }
            },
    {
        let client_id = match client_id {
            Some(id) => id,
            None => String::new(),
        };
        let client_secret = match client_secret {
            Some(s) => s,
            None => String::new(),
        };
        let redirect_uri = match redirect_uri {
            Some(u) => u,
            None => String::from_str("http://127.0.0.1:8888/callback"),
        };
        if client_id.as_str().is_empty() {
            let path = match config_file {
                Some(p) => p,
                None => String::from_str("~/.config/spot-tty/.env"),
            };
            let mut msg = String::from_str("RSPOTIFY_CLIENT_ID is not set.\n\nAdd your Spotify credentials to:\n\n\t");
            msg.append(path.as_str());
            msg.append("\n\nThe file should contain:\n\n\tRSPOTIFY_CLIENT_ID=your_client_id_here\n\tRSPOTIFY_CLIENT_SECRET=your_client_secret_here\n\tRSPOTIFY_REDIRECT_URI=http://127.0.0.1:8888/callback\n\nGet these from https://developer.spotify.com/dashboard");
            return Err(msg);
        }
        Ok(Settings { client_id, client_secret, redirect_uri })
    }
}

} // verus!
