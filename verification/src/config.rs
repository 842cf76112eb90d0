//! Gateway configuration: the endpoints and credentials of the two backends,
//! and the address the gateway itself listens on.  The values are opaque
//! strings with no format constraint beyond being present; they typically
//! come from the process environment, which the shell reads before handing
//! them here.

use vstd::prelude::*;

use crate::text::{all_digits, dec_string, dec_value, parse_u16, u64_to_decimal};

verus! {

/// Everything the gateway needs at startup.
#[derive(Debug, Clone)]
pub struct Config {
    pub prowlarr_url: String,
    pub prowlarr_api_key: String,
    pub qbit_url: String,
    pub qbit_username: String,
    pub qbit_password: String,
    pub host: String,
    pub port: u16,
}

/// Whether a port string denotes a `u16`.
pub open spec fn valid_port(s: Seq<char>) -> bool {
    s.len() > 0 && all_digits(s) && dec_value(s) <= u16::MAX
}

impl Config {
    /// Assembles a configuration from the raw values the shell read, `None`
    /// standing for a value that was not set.  The five backend values are
    /// required, in this order; the listen host defaults to "0.0.0.0" and the
    /// port to 3001.  A missing required value, or a port that does not
    /// denote a `u16`, is reported with the startup message the shell prints.
    pub fn from_values(
        prowlarr_url: Option<String>,
        prowlarr_api_key: Option<String>,
        qbit_url: Option<String>,
        qbit_username: Option<String>,
        qbit_password: Option<String>,
        host: Option<String>,
        port: Option<String>,
    ) -> (r: Result<Config, String>)
        ensures
            r is Ok <==> (prowlarr_url is Some && prowlarr_api_key is Some && qbit_url is Some
                && qbit_username is Some && qbit_password is Some && (port matches Some(p) ==>
            valid_port(p@))),
            r matches Ok(c) ==> {
                &&& prowlarr_url matches Some(v) && c.prowlarr_url == v
                &&& prowlarr_api_key matches Some(v) && c.prowlarr_api_key == v
                &&& qbit_url matches Some(v) && c.qbit_url == v
                &&& qbit_username matches Some(v) && c.qbit_username == v
                &&& qbit_password matches Some(v) && c.qbit_password == v
                &&& match host {
                    Some(h) => c.host == h,
                    None => c.host@ == "0.0.0.0"@,
                }
                &&& match port {
                    Some(p) => c.port as nat == dec_value(p@),
                    None => c.port == 3001,
                }
            },
            prowlarr_url is None ==> (r matches Err(m) && m@
                == "Missing required environment variable: PROWLARR_URL"@),
            prowlarr_url is Some && prowlarr_api_key is None ==> (r matches Err(m) && m@
                == "Missing required environment variable: PROWLARR_API_KEY"@),
            prowlarr_url is Some && prowlarr_api_key is Some && qbit_url is None ==> (r matches
                Err(m) && m@ == "Missing required environment variable: QBIT_URL"@),
            prowlarr_url is Some && prowlarr_api_key is Some && qbit_url is Some && qbit_username
                is None ==> (r matches Err(m) && m@
                == "Missing required environment variable: QBIT_USERNAME"@),
            prowlarr_url is Some && prowlarr_api_key is Some && qbit_url is Some && qbit_username
                is Some && qbit_password is None ==> (r matches Err(m) && m@
                == "Missing required environment variable: QBIT_PASSWORD"@),
            prowlarr_url is Some && prowlarr_api_key is Some && qbit_url is Some && qbit_username
                is Some && qbit_password is Some && (port matches Some(p) && !valid_port(p@)) ==> (
            r matches Err(m) && m@ == "PORT must be a valid u16"@),
    {
        let prowlarr_url = match prowlarr_url {
            Some(v) => v,
            None => {
                return Err("Missing required environment variable: PROWLARR_URL".to_owned());
            },
        };
        let prowlarr_api_key = match prowlarr_api_key {
            Some(v) => v,
            None => {
                return Err("Missing required environment variable: PROWLARR_API_KEY".to_owned());
            },
        };
        let qbit_url = match qbit_url {
            Some(v) => v,
            None => {
                return Err("Missing required environment variable: QBIT_URL".to_owned());
            },
        };
        let qbit_username = match qbit_username {
            Some(v) => v,
            None => {
                return Err("Missing required environment variable: QBIT_USERNAME".to_owned());
            },
        };
        let qbit_password = match qbit_password {
            Some(v) => v,
            None => {
                return Err("Missing required environment variable: QBIT_PASSWORD".to_owned());
            },
        };
        let host = match host {
            Some(h) => h,
            None => "0.0.0.0".to_owned(),
        };
        let port: u16 = match port {
            Some(p) => match parse_u16(p.as_str()) {
                Some(n) => n,
                None => {
                    return Err("PORT must be a valid u16".to_owned());
                },
            },
            None => 3001,
        };
        Ok(
            Config {
                prowlarr_url,
                prowlarr_api_key,
                qbit_url,
                qbit_username,
                qbit_password,
                host,
                port,
            },
        )
    }

    /// The `host:port` address the gateway binds to.
    pub fn bind_addr(&self) -> (r: String)
        ensures
            r@ == self.host@ + ":"@ + dec_string(self.port as nat),
    {
        self.host.clone().concat(":").concat(u64_to_decimal(self.port as u64).as_str())
    }
}

} // verus!
