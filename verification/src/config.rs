//! Server configuration and its defaults.

use vstd::prelude::*;

use std::path::PathBuf;

use vstd::utf8::encode_utf8;

verus! {

#[verifier::external_type_specification]
#[verifier::external_body]
pub struct ExPathBuf(std::path::PathBuf);

#[derive(Debug)]
pub struct Config {
    pub http: HttpConfig,
    pub storage: StorageConfig,
    pub auth: AuthConfig,
    pub ocpp: OcppConfig,
}

#[derive(Debug, Clone)]
pub struct OcppConfig {
    /// Interval in seconds at which wallboxes report meter values during a
    /// charge; set on the wallbox when it connects. 0 leaves the wallbox's
    /// own setting alone.
    pub meter_interval_s: u32,
}

#[derive(Debug, Clone)]
pub struct HttpConfig {
    pub bind: String,
    pub public_base_url: String,
}

#[derive(Debug)]
pub struct StorageConfig {
    pub data_dir: PathBuf,
    pub db_file: String,
}

#[derive(Debug, Clone)]
pub struct AuthConfig {
    pub ldap: Option<LdapConfig>,
    pub oidc: Option<OidcConfig>,
}

#[derive(Debug, Clone)]
pub struct LdapConfig {
    pub url: String,
    pub bind_dn: String,
    pub bind_password: String,
    pub user_base_dn: String,
    pub user_filter: String,
}

#[derive(Debug, Clone)]
pub struct OidcConfig {
    pub issuer: String,
    pub client_id: String,
    pub client_secret: String,
    pub redirect_uri: String,
}

pub fn default_meter_interval_s() -> (r: u32)
    ensures
        r == 30,
{
    30
}

pub fn default_bind() -> (r: String)
    ensures
        r@ == "0.0.0.0:8080"@,
{
    String::from_str("0.0.0.0:8080")
}

pub fn default_public_base_url() -> (r: String)
    ensures
        r@ == "http://localhost:8080"@,
{
    String::from_str("http://localhost:8080")
}

/// What a path holds: its bytes as `as_os_str().as_encoded_bytes()` gives
/// them (for a path made of a text, that text in UTF-8).
pub uninterp spec fn path_bytes(p: PathBuf) -> Seq<u8>;

/// A file name that every platform reads as one relative component: not
/// empty, not `.` or `..`, and holding no `/`, `\` or `:`.
pub open spec fn plain_file_name(f: Seq<char>) -> bool {
    &&& f.len() > 0
    &&& f != seq!['.']
    &&& f != seq!['.', '.']
    &&& forall|k: int| 0 <= k < f.len() ==> f[k] != '/' && f[k] != '\\' && f[k] != ':'
}

/// The path starts with the Windows verbatim prefix `\\?\`.
pub open spec fn verbatim_prefix(p: Seq<u8>) -> bool {
    p.len() >= 4 && p[0] == 0x5Cu8 && p[1] == 0x5Cu8 && p[2] == 0x3Fu8 && p[3] == 0x5Cu8
}

/// `file` adjoined to the directory `dir`: alone when `dir` is empty,
/// directly after a trailing `/`, otherwise after one separator (`/` or
/// `\`, the platform's); after a trailing `\` or `:` the platform may also
/// add none.
pub open spec fn adjoined(dir: Seq<u8>, file: Seq<u8>, r: Seq<u8>) -> bool {
    if dir.len() == 0 {
        r == file
    } else if dir.last() == 0x2Fu8 {
        r == dir + file
    } else {
        ||| r == dir + seq![0x2Fu8] + file
        ||| r == dir + seq![0x5Cu8] + file
        ||| (dir.last() == 0x5Cu8 || dir.last() == 0x3Au8) && r == dir + file
    }
}

/// `PathBuf::from`: the path holding the given text (in UTF-8).
#[verifier::external_body]
fn path_from(s: &str) -> (r: PathBuf)
    ensures
        path_bytes(r) == encode_utf8(s@),
{
    PathBuf::from(s)
}

/// `Path::join`: `file` adjoined to `dir`. Stated for a plain relative file
/// name and a directory without a verbatim prefix, where the directory's
/// bytes are kept and at most one separator is put between (see
/// `adjoined`). Left unsaid: which separator the platform puts, and the
/// result for absolute or prefixed names and verbatim directories, where
/// the platform's rules replace or normalise the path.
#[verifier::external_body]
fn path_join(dir: &PathBuf, file: &str) -> (r: PathBuf)
    ensures
        plain_file_name(file@) && !verbatim_prefix(path_bytes(*dir)) ==> adjoined(
            path_bytes(*dir),
            encode_utf8(file@),
            path_bytes(r),
        ),
{
    dir.join(file)
}

/// `data` (relative to the working directory).
pub fn default_data_dir() -> (r: PathBuf)
    ensures
        path_bytes(r) == encode_utf8("data"@),
{
    path_from("data")
}

pub fn default_db_file() -> (r: String)
    ensures
        r@ == "easy-occp.db"@,
{
    String::from_str("easy-occp.db")
}

impl Default for OcppConfig {
    fn default() -> (r: Self)
        ensures
            r.meter_interval_s == 30,
    {
        OcppConfig { meter_interval_s: default_meter_interval_s() }
    }
}

impl Default for HttpConfig {
    fn default() -> (r: Self)
        ensures
            r.bind@ == "0.0.0.0:8080"@,
            r.public_base_url@ == "http://localhost:8080"@,
    {
        HttpConfig { bind: default_bind(), public_base_url: default_public_base_url() }
    }
}

impl Default for StorageConfig {
    fn default() -> (r: Self)
        ensures
            path_bytes(r.data_dir) == encode_utf8("data"@),
            r.db_file@ == "easy-occp.db"@,
    {
        StorageConfig { data_dir: default_data_dir(), db_file: default_db_file() }
    }
}

impl Default for AuthConfig {
    fn default() -> (r: Self)
        ensures
            r.ldap is None,
            r.oidc is None,
    {
        AuthConfig { ldap: None, oidc: None }
    }
}

impl Default for Config {
    fn default() -> (r: Self)
        ensures
            r.http.bind@ == "0.0.0.0:8080"@,
            r.http.public_base_url@ == "http://localhost:8080"@,
            path_bytes(r.storage.data_dir) == encode_utf8("data"@),
            r.storage.db_file@ == "easy-occp.db"@,
            r.auth.ldap is None,
            r.auth.oidc is None,
            r.ocpp.meter_interval_s == 30,
    {
        Config {
            http: HttpConfig::default(),
            storage: StorageConfig::default(),
            auth: AuthConfig::default(),
            ocpp: OcppConfig::default(),
        }
    }
}

impl Config {
    /// The data directory.
    pub fn data_dir(&self) -> (r: &PathBuf)
        ensures
            *r == self.storage.data_dir,
    {
        &self.storage.data_dir
    }

    /// The database file inside the data directory.
    pub fn db_path(&self) -> (r: PathBuf)
        ensures
            plain_file_name(self.storage.db_file@) && !verbatim_prefix(
                path_bytes(self.storage.data_dir),
            ) ==> adjoined(
                path_bytes(self.storage.data_dir),
                encode_utf8(self.storage.db_file@),
                path_bytes(r),
            ),
    {
        path_join(&self.storage.data_dir, self.storage.db_file.as_str())
    }
}

/// The UTF-8 bytes of the default data directory `data`.
proof fn lemma_data_bytes()
    ensures
        encode_utf8("data"@) == seq![0x64u8, 0x61u8, 0x74u8, 0x61u8],
{
    reveal_strlit("data");
    let s = "data"@;
    assert((0x64u32 & 0x7Fu32) == 0x64u32) by (bit_vector);
    assert((0x61u32 & 0x7Fu32) == 0x61u32) by (bit_vector);
    assert((0x74u32 & 0x7Fu32) == 0x74u32) by (bit_vector);
    let s1 = s.drop_first();
    let s2 = s1.drop_first();
    let s3 = s2.drop_first();
    let s4 = s3.drop_first();
    assert(s4.len() == 0);
    assert(encode_utf8(s4) =~= Seq::<u8>::empty());
    assert(encode_utf8(s3) =~= seq![0x61u8]);
    assert(encode_utf8(s2) =~= seq![0x74u8, 0x61u8]);
    assert(encode_utf8(s1) =~= seq![0x61u8, 0x74u8, 0x61u8]);
    assert(encode_utf8(s) =~= seq![0x64u8, 0x61u8, 0x74u8, 0x61u8]);
}

/// With the default directory and file name the database lies at `data`,
/// one separator, `easy-occp.db` (`data/easy-occp.db` where `/` is the
/// separator).
pub proof fn lemma_default_db_path(c: Config, r: PathBuf)
    requires
        path_bytes(c.storage.data_dir) == encode_utf8("data"@),
        c.storage.db_file@ == "easy-occp.db"@,
        plain_file_name(c.storage.db_file@) && !verbatim_prefix(path_bytes(c.storage.data_dir))
            ==> adjoined(path_bytes(c.storage.data_dir), encode_utf8(c.storage.db_file@), path_bytes(r)),
    ensures
        path_bytes(r) == encode_utf8("data"@) + seq![0x2Fu8] + encode_utf8("easy-occp.db"@)
            || path_bytes(r) == encode_utf8("data"@) + seq![0x5Cu8] + encode_utf8("easy-occp.db"@),
{
    lemma_data_bytes();
    reveal_strlit("easy-occp.db");
    let f = c.storage.db_file@;
    assert(f.len() == 12);
    assert(f != seq!['.']);
    assert(f != seq!['.', '.']) by {
        assert(f[2] != '.');
    }
    assert(plain_file_name(f));
    let d = path_bytes(c.storage.data_dir);
    assert(d.last() == 0x61u8);
    assert(!verbatim_prefix(d));
}

} // verus!
