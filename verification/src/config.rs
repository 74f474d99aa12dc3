use vstd::prelude::*;

use crate::text::{parsed_i64, parse_i64, split_on, split_text, texts, trim, trim_str};

verus! {

broadcast use vstd::string::group_string_axioms;

pub const DEFAULT_MAX_FILE_SIZE_BYTES: i64 = 15 * 1024 * 1024 * 1024;

pub const DEFAULT_PRESIGNED_URL_TTL_SECONDS: i64 = 900;

pub const DEFAULT_PUBLIC_WEB_URL: &'static str = "http://localhost:3000";

pub const DEFAULT_HOST: &'static str = "0.0.0.0";

pub const DEFAULT_PORT: &'static str = "8080";

pub const DEFAULT_WORKER_INTERVAL_SECONDS: i64 = 60;

pub const DEFAULT_TRASH_RETENTION_DAYS: i64 = 30;

/// Settings of the API and worker processes.
#[derive(Debug, Clone)]
pub struct Config {
    pub host: String,
    pub port: String,
    pub database_url: String,
    pub max_file_size_bytes: i64,
    pub presigned_url_ttl_seconds: i64,
    pub public_web_url: String,
    pub worker_interval_seconds: i64,
    pub trash_retention_days: i64,
}

/// Raw values of the environment variables a `Config` is read from.
#[derive(Debug, Clone)]
pub struct EnvValues {
    pub host: Option<String>,
    pub port: Option<String>,
    pub database_url: Option<String>,
    pub max_file_size_bytes: Option<String>,
    pub presigned_url_ttl_seconds: Option<String>,
    pub public_web_url: Option<String>,
    pub worker_interval_seconds: Option<String>,
    pub trash_retention_days: Option<String>,
}

/// The integer a variable holds, or `default` when it is unset or does not
/// parse.
pub open spec fn spec_env_i64(raw: Option<Seq<char>>, default: i64) -> i64 {
    match raw {
        Some(text) => match parsed_i64(text) {
            Some(v) => v,
            None => default,
        },
        None => default,
    }
}

/// The integer value of a variable, or `default`.
pub fn env_i64(raw: &Option<String>, default: i64) -> (r: i64)
    ensures
        r == spec_env_i64(
            match raw {
                Some(t) => Some(t@),
                None => None,
            },
            default,
        ),
{
    match raw {
        Some(text) => match parse_i64(text.as_str()) {
            Some(v) => v,
            None => default,
        },
        None => default,
    }
}

/// The text of a variable, or `default`.
pub fn env_text(raw: &Option<String>, default: &str) -> (r: String)
    ensures
        r@ == match raw {
            Some(t) => t@,
            None => default@,
        },
{
    match raw {
        Some(text) => text.clone(),
        None => default.to_string(),
    }
}

impl Config {
    /// Builds the settings from the environment's values: unset or
    /// unparsable numbers take their defaults, a missing database URL is
    /// empty.
    pub fn from_values(values: &EnvValues) -> (r: Config)
        ensures
            r.host@ == match values.host {
                Some(t) => t@,
                None => DEFAULT_HOST@,
            },
            r.port@ == match values.port {
                Some(t) => t@,
                None => DEFAULT_PORT@,
            },
            r.database_url@ == match values.database_url {
                Some(t) => t@,
                None => ""@,
            },
            r.public_web_url@ == match values.public_web_url {
                Some(t) => t@,
                None => DEFAULT_PUBLIC_WEB_URL@,
            },
            r.max_file_size_bytes == spec_env_i64(
                match values.max_file_size_bytes {
                    Some(t) => Some(t@),
                    None => None,
                },
                DEFAULT_MAX_FILE_SIZE_BYTES,
            ),
            r.presigned_url_ttl_seconds == spec_env_i64(
                match values.presigned_url_ttl_seconds {
                    Some(t) => Some(t@),
                    None => None,
                },
                DEFAULT_PRESIGNED_URL_TTL_SECONDS,
            ),
            r.worker_interval_seconds == spec_env_i64(
                match values.worker_interval_seconds {
                    Some(t) => Some(t@),
                    None => None,
                },
                DEFAULT_WORKER_INTERVAL_SECONDS,
            ),
            r.trash_retention_days == spec_env_i64(
                match values.trash_retention_days {
                    Some(t) => Some(t@),
                    None => None,
                },
                DEFAULT_TRASH_RETENTION_DAYS,
            ),
    {
        Config {
            host: env_text(&values.host, DEFAULT_HOST),
            port: env_text(&values.port, DEFAULT_PORT),
            database_url: env_text(&values.database_url, ""),
            max_file_size_bytes: env_i64(&values.max_file_size_bytes, DEFAULT_MAX_FILE_SIZE_BYTES),
            presigned_url_ttl_seconds: env_i64(
                &values.presigned_url_ttl_seconds,
                DEFAULT_PRESIGNED_URL_TTL_SECONDS,
            ),
            public_web_url: env_text(&values.public_web_url, DEFAULT_PUBLIC_WEB_URL),
            worker_interval_seconds: env_i64(
                &values.worker_interval_seconds,
                DEFAULT_WORKER_INTERVAL_SECONDS,
            ),
            trash_retention_days: env_i64(&values.trash_retention_days, DEFAULT_TRASH_RETENTION_DAYS),
        }
    }

    /// The `host:port` address the server listens on.
    pub fn address(&self) -> (r: String)
        ensures
            r@ == self.host@ + ":"@ + self.port@,
    {
        let mut address = self.host.clone();
        address.append(":");
        address.append(self.port.as_str());
        address
    }
}

/// Which browser origins may call the API.
#[derive(Debug, Clone)]
pub struct CorsConfig {
    pub allowed_origins: Option<String>,
}

impl CorsConfig {
    /// The configured origins: the comma-separated list, each entry trimmed;
    /// `None` means any origin is allowed.
    pub fn origin_candidates(&self) -> (r: Option<Vec<String>>)
        ensures
            self.allowed_origins is None <==> r is None,
            r matches Some(list) ==> texts(list@) == split_text(self.allowed_origins->0@, ',').map_values(
                |p: Seq<char>| trim(p),
            ),
    {
        match &self.allowed_origins {
            None => None,
            Some(list) => {
                let pieces = split_on(list.as_str(), ',');
                let ghost piece_texts = texts(pieces@);
                let mut out: Vec<String> = Vec::new();
                let n = pieces.len();
                for i in 0..n
                    invariant
                        n == pieces@.len(),
                        piece_texts == texts(pieces@),
                        out@.len() == i,
                        forall|k: int| 0 <= k < i ==> out@[k]@ == trim(#[trigger] piece_texts[k]),
                {
                    out.push(trim_str(pieces[i].as_str()));
                }
                assert(texts(out@) =~= piece_texts.map_values(|p: Seq<char>| trim(p)));
                assert(piece_texts.len() == out@.len());
                Some(out)
            },
        }
    }
}

} // verus!
