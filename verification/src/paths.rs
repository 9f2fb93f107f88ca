//! Where the daemon keeps its configuration, TLS material and logs.

use vstd::prelude::*;
use crate::formats::{chars_of, string_from_chars};

verus! {

/// `base` with the relative component `seg` appended, as `PathBuf::push`
/// does on Unix: a separator goes between them unless `base` is empty or
/// already ends in one.
pub open spec fn path_join(base: Seq<char>, seg: Seq<char>) -> Seq<char> {
    if base.len() == 0 || base.last() == '/' {
        base + seg
    } else {
        base + seq!['/'] + seg
    }
}

/// The directory under which the daemon keeps its files: `macrdp` in the
/// platform's configuration directory, else `.config/macrdp` in the home
/// directory, else `.macrdp`.
pub open spec fn spec_config_dir(native: Option<Seq<char>>, home: Option<Seq<char>>) -> Seq<char> {
    match native {
        Some(d) => path_join(d, "macrdp"@),
        None => match home {
            Some(h) => path_join(path_join(h, ".config"@), "macrdp"@),
            None => ".macrdp"@,
        },
    }
}

/// `base` joined with the relative component `seg`.
pub fn join_path(base: &str, seg: &str) -> (p: String)
    ensures
        p@ == path_join(base@, seg@),
{
    let b = chars_of(base);
    let s = chars_of(seg);
    let mut out: Vec<char> = Vec::new();
    let mut i: usize = 0;
    while i < b.len()
        invariant
            i <= b@.len(),
            out@ == b@.take(i as int),
        decreases b.len() - i,
    {
        out.push(b[i]);
        assert(out@ =~= b@.take(i + 1));
        i = i + 1;
    }
    assert(b@.take(b@.len() as int) =~= b@);
    if b.len() > 0 && b[b.len() - 1] != '/' {
        out.push('/');
    }
    let ghost head = out@;
    let mut j: usize = 0;
    while j < s.len()
        invariant
            j <= s@.len(),
            out@ == head + s@.take(j as int),
        decreases s.len() - j,
    {
        out.push(s[j]);
        assert(out@ =~= head + s@.take(j + 1));
        j = j + 1;
    }
    assert(s@.take(s@.len() as int) =~= s@);
    let r = string_from_chars(&out, out.len());
    assert(out@.take(out@.len() as int) =~= out@);
    r
}

/// `dirs::config_dir()`, as text (`Path::to_string_lossy`: bytes that are
/// not UTF-8 become U+FFFD, since the library holds paths as text). Nothing
/// is promised of it: it depends on the environment.
#[verifier::external_body]
fn native_config_dir() -> Option<String> {
    match dirs::config_dir() {
        Some(p) => Some(p.to_string_lossy().into_owned()),
        None => None,
    }
}

/// `dirs::home_dir()`, as text (`Path::to_string_lossy`, as above).
/// Nothing is promised of it: it depends on the environment.
#[verifier::external_body]
fn home_dir() -> Option<String> {
    match dirs::home_dir() {
        Some(p) => Some(p.to_string_lossy().into_owned()),
        None => None,
    }
}

/// The configuration directory for the given platform and home
/// directories.
pub fn config_dir_from(native: Option<&str>, home: Option<&str>) -> (d: String)
    ensures
        d@ == spec_config_dir(
            match native {
                Some(n) => Some(n@),
                None => None,
            },
            match home {
                Some(h) => Some(h@),
                None => None,
            },
        ),
{
    match native {
        Some(n) => join_path(n, "macrdp"),
        None => match home {
            Some(h) => {
                let c = join_path(h, ".config");
                join_path(c.as_str(), "macrdp")
            },
            None => String::from_str(".macrdp"),
        },
    }
}

/// The configuration directory of this process's environment.
pub fn config_dir() -> (d: String)
    ensures
        exists|native: Option<Seq<char>>, home: Option<Seq<char>>| d@ == #[trigger] spec_config_dir(native, home),
{
    let native = native_config_dir();
    let home = home_dir();
    match native {
        Some(n) => {
            let d = config_dir_from(Some(n.as_str()), None);
            assert(d@ == spec_config_dir(Some(n@), None));
            d
        },
        None => match home {
            Some(h) => {
                let d = config_dir_from(None, Some(h.as_str()));
                assert(d@ == spec_config_dir(None, Some(h@)));
                d
            },
            None => {
                let d = config_dir_from(None, None);
                assert(d@ == spec_config_dir(None, None));
                d
            },
        },
    }
}

/// The daemon's file locations under one configuration directory.
pub struct DefaultPaths {
    pub config: String,
    pub log: String,
    pub tls_dir: String,
    pub cert: String,
    pub key: String,
}

pub open spec fn spec_default_config_path(dir: Seq<char>) -> Seq<char> {
    path_join(dir, "config.toml"@)
}

pub open spec fn spec_default_log_path(dir: Seq<char>) -> Seq<char> {
    path_join(path_join(dir, "logs"@), "macrdp.log"@)
}

pub open spec fn spec_default_tls_dir(dir: Seq<char>) -> Seq<char> {
    path_join(dir, "tls"@)
}

pub open spec fn spec_default_cert_path(dir: Seq<char>) -> Seq<char> {
    path_join(spec_default_tls_dir(dir), "cert.pem"@)
}

pub open spec fn spec_default_key_path(dir: Seq<char>) -> Seq<char> {
    path_join(spec_default_tls_dir(dir), "key.pem"@)
}

/// `config.toml`, `logs/macrdp.log`, `tls`, `tls/cert.pem` and
/// `tls/key.pem` under `dir`.
pub fn default_paths_in(dir: &str) -> (p: DefaultPaths)
    ensures
        p.config@ == spec_default_config_path(dir@),
        p.log@ == spec_default_log_path(dir@),
        p.tls_dir@ == spec_default_tls_dir(dir@),
        p.cert@ == spec_default_cert_path(dir@),
        p.key@ == spec_default_key_path(dir@),
{
    let config = join_path(dir, "config.toml");
    let logs = join_path(dir, "logs");
    let log = join_path(logs.as_str(), "macrdp.log");
    let tls_dir = join_path(dir, "tls");
    let cert = join_path(tls_dir.as_str(), "cert.pem");
    let key = join_path(tls_dir.as_str(), "key.pem");
    DefaultPaths { config, log, tls_dir, cert, key }
}

/// Joining keeps the base as a prefix.
pub proof fn lemma_join_extends(base: Seq<char>, seg: Seq<char>)
    ensures
        base.is_prefix_of(path_join(base, seg)),
{
    let j = path_join(base, seg);
    assert(j.take(base.len() as int) =~= base);
}

/// Every default location lies under the configuration directory, and the
/// certificate and key under the TLS directory.
pub proof fn lemma_default_paths_share_dir(dir: Seq<char>)
    ensures
        dir.is_prefix_of(spec_default_config_path(dir)),
        dir.is_prefix_of(spec_default_log_path(dir)),
        dir.is_prefix_of(spec_default_tls_dir(dir)),
        spec_default_tls_dir(dir).is_prefix_of(spec_default_cert_path(dir)),
        spec_default_tls_dir(dir).is_prefix_of(spec_default_key_path(dir)),
{
    lemma_join_extends(dir, "config.toml"@);
    lemma_join_extends(dir, "logs"@);
    lemma_join_extends(path_join(dir, "logs"@), "macrdp.log"@);
    lemma_join_extends(dir, "tls"@);
    lemma_join_extends(spec_default_tls_dir(dir), "cert.pem"@);
    lemma_join_extends(spec_default_tls_dir(dir), "key.pem"@);
    let logs = path_join(dir, "logs"@);
    assert(spec_default_log_path(dir).take(dir.len() as int) =~= logs.take(dir.len() as int));
}

/// `config.toml` in the configuration directory.
pub fn default_config_path() -> (p: String)
    ensures
        exists|native: Option<Seq<char>>, home: Option<Seq<char>>|
            p@ == spec_default_config_path(#[trigger] spec_config_dir(native, home)),
{
    let d = config_dir();
    let p = default_paths_in(d.as_str()).config;
    let ghost w = choose|native: Option<Seq<char>>, home: Option<Seq<char>>| d@ == spec_config_dir(native, home);
    assert(p@ == spec_default_config_path(spec_config_dir(w.0, w.1)));
    p
}

/// `logs/macrdp.log` in the configuration directory.
pub fn default_log_path() -> (p: String)
    ensures
        exists|native: Option<Seq<char>>, home: Option<Seq<char>>|
            p@ == spec_default_log_path(#[trigger] spec_config_dir(native, home)),
{
    let d = config_dir();
    let p = default_paths_in(d.as_str()).log;
    let ghost w = choose|native: Option<Seq<char>>, home: Option<Seq<char>>| d@ == spec_config_dir(native, home);
    assert(p@ == spec_default_log_path(spec_config_dir(w.0, w.1)));
    p
}

/// The `tls` directory in the configuration directory.
pub fn default_tls_dir() -> (p: String)
    ensures
        exists|native: Option<Seq<char>>, home: Option<Seq<char>>|
            p@ == spec_default_tls_dir(#[trigger] spec_config_dir(native, home)),
{
    let d = config_dir();
    let p = default_paths_in(d.as_str()).tls_dir;
    let ghost w = choose|native: Option<Seq<char>>, home: Option<Seq<char>>| d@ == spec_config_dir(native, home);
    assert(p@ == spec_default_tls_dir(spec_config_dir(w.0, w.1)));
    p
}

/// `tls/cert.pem` in the configuration directory.
pub fn default_cert_path() -> (p: String)
    ensures
        exists|native: Option<Seq<char>>, home: Option<Seq<char>>|
            p@ == spec_default_cert_path(#[trigger] spec_config_dir(native, home)),
{
    let d = config_dir();
    let p = default_paths_in(d.as_str()).cert;
    let ghost w = choose|native: Option<Seq<char>>, home: Option<Seq<char>>| d@ == spec_config_dir(native, home);
    assert(p@ == spec_default_cert_path(spec_config_dir(w.0, w.1)));
    p
}

/// `tls/key.pem` in the configuration directory.
pub fn default_key_path() -> (p: String)
    ensures
        exists|native: Option<Seq<char>>, home: Option<Seq<char>>|
            p@ == spec_default_key_path(#[trigger] spec_config_dir(native, home)),
{
    let d = config_dir();
    let p = default_paths_in(d.as_str()).key;
    let ghost w = choose|native: Option<Seq<char>>, home: Option<Seq<char>>| d@ == spec_config_dir(native, home);
    assert(p@ == spec_default_key_path(spec_config_dir(w.0, w.1)));
    p
}

} // verus!
