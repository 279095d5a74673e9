//! Recorder settings, their defaults, and the paths they name.

use vstd::prelude::*;

verus! {

/// A flag that is on unless the configuration turns it off.
#[derive(Clone, Copy, Debug, PartialEq, Eq)]
pub struct BoolDefaultTrue(pub bool);

impl Default for BoolDefaultTrue {
    fn default() -> (b: Self)
        ensures
            b.0,
    {
        BoolDefaultTrue(true)
    }
}

impl From<BoolDefaultTrue> for bool {
    fn from(b: BoolDefaultTrue) -> (r: bool) {
        b.0
    }
}

impl vstd::std_specs::convert::FromSpecImpl<BoolDefaultTrue> for bool {
    open spec fn obeys_from_spec() -> bool {
        true
    }

    open spec fn from_spec(b: BoolDefaultTrue) -> bool {
        b.0
    }
}

/// The MQTT broker to record from.
#[derive(Clone, Debug, PartialEq)]
pub struct MqttConfig {
    pub enabled: BoolDefaultTrue,
    pub host: String,
    pub port: u16,
    pub username: Option<String>,
    pub password: Option<String>,
    pub topic: String,
    pub client_id: String,
    pub tls: bool,
    pub ca_file: Option<String>,
}

/// Where the database lives.
#[derive(Clone, Debug, PartialEq)]
pub struct StorageConfig {
    pub db_path: String,
}

/// The HTTP API.
#[derive(Clone, Debug, PartialEq)]
pub struct HttpConfig {
    pub enabled: BoolDefaultTrue,
    pub bind: String,
    pub cors_any_origin: bool,
}

/// All settings.
#[derive(Clone, Debug, PartialEq)]
pub struct Config {
    pub mqtt: MqttConfig,
    pub storage: StorageConfig,
    pub http: HttpConfig,
}

pub fn default_mqtt_host() -> (s: String)
    ensures
        s@ == "localhost"@,
{
    "localhost".to_owned()
}

pub fn default_mqtt_port() -> (p: u16)
    ensures
        p == 1883,
{
    1883
}

pub fn default_topic() -> (s: String)
    ensures
        s@ == "owntracks/#"@,
{
    "owntracks/#".to_owned()
}

pub fn default_client_id() -> (s: String)
    ensures
        s@ == "owntracks-recorder"@,
{
    "owntracks-recorder".to_owned()
}

pub fn default_http_bind() -> (s: String)
    ensures
        s@ == "127.0.0.1:8080"@,
{
    "127.0.0.1:8080".to_owned()
}

impl Default for MqttConfig {
    fn default() -> (c: Self)
        ensures
            c.enabled.0,
            c.host@ == "localhost"@,
            c.port == 1883,
            c.username is None,
            c.password is None,
            c.topic@ == "owntracks/#"@,
            c.client_id@ == "owntracks-recorder"@,
            !c.tls,
            c.ca_file is None,
    {
        MqttConfig {
            enabled: BoolDefaultTrue::default(),
            host: default_mqtt_host(),
            port: default_mqtt_port(),
            username: None,
            password: None,
            topic: default_topic(),
            client_id: default_client_id(),
            tls: false,
            ca_file: None,
        }
    }
}

impl Default for HttpConfig {
    fn default() -> (c: Self)
        ensures
            c.enabled.0,
            c.bind@ == "127.0.0.1:8080"@,
            !c.cors_any_origin,
    {
        HttpConfig { enabled: BoolDefaultTrue::default(), bind: default_http_bind(), cors_any_origin: false }
    }
}

/// `rel` appended to `base` as a Unix path: a `rel` that starts with `/`
/// replaces `base`; otherwise a `/` separates them unless `base` is empty
/// or already ends with one.
pub open spec fn join_path_spec(base: Seq<char>, rel: Seq<char>) -> Seq<char> {
    if rel.len() > 0 && rel[0] == '/' {
        rel
    } else if base.len() == 0 || base.last() == '/' {
        base + rel
    } else {
        base + seq!['/'] + rel
    }
}

/// `PathBuf::join` on Unix paths held as text.
pub fn join_path(base: &str, rel: &str) -> (r: String)
    ensures
        r@ == join_path_spec(base@, rel@),
{
    let b = crate::text::chars_of(base);
    let rv = crate::text::chars_of(rel);
    if rv.len() > 0 && rv[0] == '/' {
        return rel.to_owned();
    }
    let mut s = base.to_owned();
    if !(b.len() == 0 || b[b.len() - 1] == '/') {
        s.push('/');
    }
    s.append(rel);
    s
}

/// `dir` when known, else the current directory.
pub open spec fn dir_or_here(dir: Option<Seq<char>>) -> Seq<char> {
    match dir {
        Some(d) => d,
        None => "."@,
    }
}

fn dir_or_here_exec(dir: Option<String>) -> (r: String)
    ensures
        r@ == dir_or_here(crate::text::opt_view(dir)),
{
    match dir {
        Some(d) => d,
        None => ".".to_owned(),
    }
}

/// The application's directory under the user's data directory
/// (`data_dir`, as the platform reports it).
pub open spec fn app_data_dir(data_dir: Option<Seq<char>>) -> Seq<char> {
    join_path_spec(dir_or_here(data_dir), "otrecorder"@)
}

/// The database file when the configuration names none:
/// `<data dir>/otrecorder/owntracks.db`.
pub fn default_db_path(data_dir: Option<String>) -> (r: String)
    ensures
        r@ == join_path_spec(app_data_dir(crate::text::opt_view(data_dir)), "owntracks.db"@),
{
    let d = dir_or_here_exec(data_dir);
    let app = join_path(d.as_str(), "otrecorder");
    join_path(app.as_str(), "owntracks.db")
}

/// The configuration file when none is named on the command line:
/// `<config dir>/otrecorder/config.toml`.
pub fn default_config_path(config_dir: Option<String>) -> (r: String)
    ensures
        r@ == join_path_spec(
            join_path_spec(dir_or_here(crate::text::opt_view(config_dir)), "otrecorder"@),
            "config.toml"@,
        ),
{
    let d = dir_or_here_exec(config_dir);
    let app = join_path(d.as_str(), "otrecorder");
    join_path(app.as_str(), "config.toml")
}

impl StorageConfig {
    /// The storage settings when the configuration has none.
    pub fn default_in(data_dir: Option<String>) -> (c: Self)
        ensures
            c.db_path@ == join_path_spec(
                app_data_dir(crate::text::opt_view(data_dir)),
                "owntracks.db"@,
            ),
    {
        StorageConfig { db_path: default_db_path(data_dir) }
    }
}

/// A path with a leading `~/` or `$HOME` resolved against the home
/// directory `home`: `$HOME` alone is the home directory, `$HOME/...` and
/// `~/...` are the rest of the path under it. `$HOME` followed by anything
/// but `/` is a different name and is not expanded; neither is any path
/// when the home directory is unknown.
pub open spec fn expand_path_spec(p: Seq<char>, home: Option<Seq<char>>) -> Seq<char> {
    if p.len() >= 2 && p.take(2) == "~/"@ && home is Some {
        join_path_spec(home->0, p.skip(2))
    } else if p == "$HOME"@ && home is Some {
        home->0
    } else if p.len() >= 6 && p.take(6) == "$HOME/"@ && home is Some {
        join_path_spec(home->0, p.skip(6))
    } else {
        p
    }
}

/// Expands a leading `~/` or `$HOME` in a path.
pub fn expand_path(p: &str, home: Option<String>) -> (r: String)
    ensures
        r@ == expand_path_spec(p@, crate::text::opt_view(home)),
{
    proof {
        reveal_strlit("~/");
        reveal_strlit("$HOME/");
        reveal_strlit("$HOME");
    }
    let v = crate::text::chars_of(p);
    let n = v.len();
    match home {
        None => p.to_owned(),
        Some(h) => {
            if n >= 2 && v[0] == '~' && v[1] == '/' {
                assert(v@.take(2) =~= "~/"@);
                let rest = crate::text::copy_range(&v, 2, n);
                let rest_s = crate::text::string_of(rest.as_slice());
                assert(rest_s@ =~= p@.skip(2));
                join_path(h.as_str(), rest_s.as_str())
            } else if n == 5 && v[0] == '$' && v[1] == 'H' && v[2] == 'O' && v[3] == 'M' && v[4]
                == 'E' {
                assert(p@ =~= "$HOME"@);
                assert(!(v@.take(2) =~= "~/"@)) by {
                    assert(v@.take(2)[0] != "~/"@[0]);
                }
                h
            } else if n >= 6 && v[0] == '$' && v[1] == 'H' && v[2] == 'O' && v[3] == 'M' && v[4]
                == 'E' && v[5] == '/' {
                assert(v@.take(6) =~= "$HOME/"@);
                assert(p@ != "$HOME"@);
                assert(!(v@.take(2) =~= "~/"@)) by {
                    assert(v@.take(2)[0] != "~/"@[0]);
                }
                let rest = crate::text::copy_range(&v, 6, n);
                let rest_s = crate::text::string_of(rest.as_slice());
                assert(rest_s@ =~= p@.skip(6));
                join_path(h.as_str(), rest_s.as_str())
            } else {
                proof {
                    if n >= 2 && v@.take(2) == "~/"@ {
                        assert(v@.take(2)[0] == v@[0]);
                        assert(v@.take(2)[1] == v@[1]);
                    }
                    if v@ == "$HOME"@ {
                        assert(v@[0] == "$HOME"@[0]);
                        assert(v@[1] == "$HOME"@[1]);
                        assert(v@[2] == "$HOME"@[2]);
                        assert(v@[3] == "$HOME"@[3]);
                        assert(v@[4] == "$HOME"@[4]);
                    }
                    if n >= 6 && v@.take(6) == "$HOME/"@ {
                        assert(v@.take(6)[0] == v@[0]);
                        assert(v@.take(6)[1] == v@[1]);
                        assert(v@.take(6)[2] == v@[2]);
                        assert(v@.take(6)[3] == v@[3]);
                        assert(v@.take(6)[4] == v@[4]);
                        assert(v@.take(6)[5] == v@[5]);
                    }
                }
                p.to_owned()
            }
        },
    }
}

/// The configuration file written when there is none yet.
pub const TEMPLATE: &'static str = r#"# otrecorder config

[mqtt]
enabled  = true
host     = "localhost"
port     = 1883
# username = "your-mqtt-user"
# password = "your-mqtt-pass"
topic    = "owntracks/#"
client_id = "owntracks-recorder"
tls      = false
# ca_file is only needed for self-signed or private CAs. Public CAs like
# Let's Encrypt are trusted via the system root store automatically.
# ca_file  = "/path/to/ca.crt"

[storage]
# Path is expanded for ~ and $HOME. Parent directory is created if missing.
# db_path = "~/.local/share/otrecorder/owntracks.db"

[http]
enabled = true
bind    = "127.0.0.1:8080"
cors_any_origin = false
"#;

} // verus!
