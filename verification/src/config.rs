//! The configuration: which model to ask, what to do with the answer, and
//! the prompts. Reading and parsing the file is done by the caller.
use crate::commit::DEFAULT_SYSTEM_PROMPT;
use crate::text::{trim, trimmed};
use vstd::prelude::*;

verus! {

/// `s` trimmed, when something is left.
pub open spec fn non_empty_of(s: Option<Seq<char>>) -> Option<Seq<char>> {
    match s {
        Some(t) => if trim(t).len() > 0 {
            Some(trim(t))
        } else {
            None
        },
        None => None,
    }
}

/// The view of an optional string.
pub open spec fn opt_view(s: Option<String>) -> Option<Seq<char>> {
    match s {
        Some(t) => Some(t@),
        None => None,
    }
}

/// `s` without leading and trailing whitespace, or `None` when nothing is left.
pub fn non_empty(s: Option<&str>) -> (r: Option<String>)
    ensures
        opt_view(r) == non_empty_of(
            match s {
                Some(t) => Some(t@),
                None => None,
            },
        ),
{
    match s {
        Some(t) => {
            let u = trimmed(t);
            if u.as_str().is_empty() {
                None
            } else {
                Some(u)
            }
        },
        None => None,
    }
}

/// The model to ask and how to reach it.
#[derive(Debug)]
pub struct ModelConfig {
    pub provider: String,
    pub name: String,
    base_url: Option<String>,
    api_key_env: Option<String>,
    api_key: Option<String>,
}

impl ModelConfig {
    /// The provider's name, as written.
    pub closed spec fn provider_setting(&self) -> Seq<char> {
        self.provider@
    }

    /// The model's name, as written.
    pub closed spec fn name_setting(&self) -> Seq<char> {
        self.name@
    }

    /// The configured endpoint, as written.
    pub closed spec fn base_url_setting(&self) -> Option<Seq<char>> {
        opt_view(self.base_url)
    }

    /// The configured name of the variable holding the API key, as written.
    pub closed spec fn api_key_env_setting(&self) -> Option<Seq<char>> {
        opt_view(self.api_key_env)
    }

    /// The configured API key, as written.
    pub closed spec fn api_key_setting(&self) -> Option<Seq<char>> {
        opt_view(self.api_key)
    }

    /// A model configuration with the settings as written in the file.
    pub fn new(
        provider: String,
        name: String,
        base_url: Option<String>,
        api_key_env: Option<String>,
        api_key: Option<String>,
    ) -> (m: Self)
        ensures
            m.provider_setting() == provider@,
            m.name_setting() == name@,
            m.base_url_setting() == opt_view(base_url),
            m.api_key_env_setting() == opt_view(api_key_env),
            m.api_key_setting() == opt_view(api_key),
    {
        ModelConfig { provider, name, base_url, api_key_env, api_key }
    }

    /// The provider's name, as written.
    pub fn provider_name(&self) -> (r: &str)
        ensures
            r@ == self.provider_setting(),
    {
        self.provider.as_str()
    }

    /// The model's name, as written.
    pub fn model_name(&self) -> (r: &str)
        ensures
            r@ == self.name_setting(),
    {
        self.name.as_str()
    }

    /// The endpoint, trimmed; `None` when unset or blank.
    pub fn base_url(&self) -> (r: Option<String>)
        ensures
            opt_view(r) == non_empty_of(self.base_url_setting()),
    {
        match &self.base_url {
            Some(s) => non_empty(Some(s.as_str())),
            None => None,
        }
    }

    /// The name of the variable holding the API key, trimmed; `None` when unset or blank.
    pub fn api_key_env(&self) -> (r: Option<String>)
        ensures
            opt_view(r) == non_empty_of(self.api_key_env_setting()),
    {
        match &self.api_key_env {
            Some(s) => non_empty(Some(s.as_str())),
            None => None,
        }
    }

    /// The API key, trimmed; `None` when unset or blank.
    pub fn api_key(&self) -> (r: Option<String>)
        ensures
            opt_view(r) == non_empty_of(self.api_key_setting()),
    {
        match &self.api_key {
            Some(s) => non_empty(Some(s.as_str())),
            None => None,
        }
    }
}

/// What to do with the answer.
#[derive(Debug, Clone, Copy)]
pub struct Output {
    /// Copy the answer to the clipboard.
    pub copy: bool,
    /// Print latency and token statistics.
    pub stats: bool,
}

impl Default for Output {
    /// Copy the answer, print no statistics.
    fn default() -> (o: Self)
        ensures
            o.copy,
            !o.stats,
    {
        Output { copy: true, stats: false }
    }
}

/// The system prompts.
#[derive(Debug)]
pub struct Prompt {
    /// For a query; `{os}` stands for the operating system's name.
    pub system: String,
    /// For a commit message.
    pub commit: String,
}

/// The value of `output.copy` when the file leaves it out.
pub fn default_true() -> (r: bool)
    ensures
        r,
{
    true
}

/// The value of `prompt.commit` when the file leaves it out.
pub fn default_commit_prompt() -> (r: String)
    ensures
        r@ == DEFAULT_SYSTEM_PROMPT@,
{
    DEFAULT_SYSTEM_PROMPT.to_owned()
}

// ---------------------------------------------------------------------------
// Where the configuration file is
// ---------------------------------------------------------------------------

/// `base` joined with the relative component `part`, as `Path::join` does on
/// Unix: a `/` is put between them unless `base` is empty or ends with one.
pub open spec fn join_path(base: Seq<u8>, part: Seq<u8>) -> Seq<u8> {
    if base.len() == 0 || base.last() == 0x2fu8 {
        base + part
    } else {
        base.push(0x2fu8) + part
    }
}

/// The directory holding the configuration: `$XDG_CONFIG_HOME` when set and
/// not empty, `$HOME/.config` otherwise, `None` when neither can be used.
pub open spec fn config_base(xdg_config_home: Option<Seq<u8>>, home: Option<Seq<u8>>) -> Option<
    Seq<u8>,
> {
    match xdg_config_home {
        Some(d) if d.len() > 0 => Some(d),
        _ => match home {
            Some(h) => Some(join_path(h, ".config"@.map_values(|c: char| c as u8))),
            None => None,
        },
    }
}

/// The file `pls/pls.toml` under the configuration directory.
pub open spec fn config_file(base: Seq<u8>) -> Seq<u8> {
    join_path(
        join_path(base, "pls"@.map_values(|c: char| c as u8)),
        "pls.toml"@.map_values(|c: char| c as u8),
    )
}

/// Neither `XDG_CONFIG_HOME` nor `HOME` is set.
#[derive(Debug, Clone, Copy, PartialEq, Eq, Structural)]
pub struct NoConfigHome;

impl NoConfigHome {
    /// The message shown to the user.
    pub fn message(&self) -> (r: &'static str)
        ensures
            r@ == "neither XDG_CONFIG_HOME nor HOME is set"@,
    {
        "neither XDG_CONFIG_HOME nor HOME is set"
    }
}

fn ascii_bytes(s: &str) -> (r: Vec<u8>)
    requires
        s.is_ascii(),
    ensures
        r@ == s@.map_values(|c: char| c as u8),
{
    broadcast use vstd::string::is_ascii_spec_bytes;

    let b = s.as_bytes();
    let mut r: Vec<u8> = Vec::new();
    let mut i: usize = 0;
    while i < b.len()
        invariant
            i <= b@.len(),
            b@ == s@.map_values(|c: char| c as u8),
            r@ == b@.take(i as int),
        decreases b@.len() - i,
    {
        r.push(b[i]);
        assert(b@.take(i as int).push(b@[i as int]) =~= b@.take(i + 1));
        i = i + 1;
    }
    assert(b@.take(b@.len() as int) =~= b@);
    r
}

fn join(base: &[u8], part: &[u8]) -> (r: Vec<u8>)
    ensures
        r@ == join_path(base@, part@),
{
    let mut r: Vec<u8> = Vec::new();
    let mut i: usize = 0;
    while i < base.len()
        invariant
            i <= base@.len(),
            r@ == base@.take(i as int),
        decreases base@.len() - i,
    {
        r.push(base[i]);
        assert(base@.take(i as int).push(base@[i as int]) =~= base@.take(i + 1));
        i = i + 1;
    }
    assert(base@.take(base@.len() as int) =~= base@);
    if base.len() > 0 && base[base.len() - 1] != 0x2fu8 {
        r.push(0x2fu8);
    }
    let ghost head = r@;
    let mut k: usize = 0;
    while k < part.len()
        invariant
            k <= part@.len(),
            r@ == head + part@.take(k as int),
        decreases part@.len() - k,
    {
        r.push(part[k]);
        assert(part@.take(k as int).push(part@[k as int]) =~= part@.take(k + 1));
        k = k + 1;
    }
    assert(part@.take(part@.len() as int) =~= part@);
    r
}

/// The configuration file's path (as bytes), from the values of
/// `XDG_CONFIG_HOME` and `HOME`.
pub fn config_path_from(xdg_config_home: Option<&[u8]>, home: Option<&[u8]>) -> (r: Result<
    Vec<u8>,
    NoConfigHome,
>)
    ensures
        match config_base(
            match xdg_config_home {
                Some(d) => Some(d@),
                None => None,
            },
            match home {
                Some(h) => Some(h@),
                None => None,
            },
        ) {
            Some(b) => r matches Ok(p) && p@ == config_file(b),
            None => r is Err,
        },
{
    proof {
        reveal_strlit(".config");
        reveal_strlit("pls");
        reveal_strlit("pls.toml");
    }
    let base: Vec<u8> = match xdg_config_home {
        Some(d) if d.len() > 0 => {
            let e: Vec<u8> = Vec::new();
            let v = join(e.as_slice(), d);
            assert(join_path(e@, d@) =~= d@);
            v
        },
        _ => match home {
            Some(h) => join(h, ascii_bytes(".config").as_slice()),
            None => return Err(NoConfigHome),
        },
    };
    let dir = join(base.as_slice(), ascii_bytes("pls").as_slice());
    Ok(join(dir.as_slice(), ascii_bytes("pls.toml").as_slice()))
}

} // verus!
