//! The request to the model: which adapter serves the provider, where it is
//! reached and with which key, the messages, and what is kept of the answer.
use crate::config::{non_empty_of, ModelConfig};
use crate::text::{append_str, ascii_lower, push_char, replace_all, replace_str, str_eq, to_ascii_lower, trim, trimmed};
use genai::adapter::AdapterKind;
use genai::chat::ReasoningEffort;
use vstd::prelude::*;

verus! {

#[verifier::external_type_specification]
#[verifier::external_body]
pub struct ExAdapterKind(AdapterKind);

#[verifier::external_type_specification]
#[verifier::external_body]
pub struct ExReasoningEffort(ReasoningEffort);

#[verifier::external_type_specification]
#[verifier::external_body]
pub struct ExGenaiError(genai::Error);

/// The adapter that `AdapterKind::from_lower_str` finds for the lower-case `name`.
pub uninterp spec fn adapter_named(name: Seq<char>) -> Option<AdapterKind>;

/// Calls `AdapterKind::from_lower_str`, a fixed table lookup: the result
/// depends on the name alone.
#[verifier::external_body]
fn adapter_from_lower_str(name: &str) -> (r: Option<AdapterKind>)
    ensures
        r == adapter_named(name@),
{
    AdapterKind::from_lower_str(name)
}

/// What `ReasoningEffort::from_str` makes of `text`.
pub uninterp spec fn reasoning_effort_parsed(text: Seq<char>) -> Result<ReasoningEffort, genai::Error>;

/// The keywords that name a reasoning effort.
pub open spec fn effort_keyword(t: Seq<char>) -> bool {
    t == "zero"@ || t == "none"@ || t == "low"@ || t == "medium"@ || t == "high"@ || t == "xhigh"@
        || t == "max"@ || t == "minimal"@
}

/// The value of the decimal digits `d`.
pub open spec fn digits_value(d: Seq<char>) -> nat
    decreases d.len(),
{
    if d.len() == 0 {
        0
    } else {
        digits_value(d.drop_last()) * 10 + ((d.last() as u32) - 48) as nat
    }
}

/// Whether `t` is a `u32` as `u32::from_str` reads one: an optional `+`, then
/// one or more decimal digits, of a value that fits.
pub open spec fn u32_text(t: Seq<char>) -> bool {
    let d = if t.len() > 0 && t[0] == '+' {
        t.drop_first()
    } else {
        t
    };
    &&& d.len() > 0
    &&& forall|i: int| 0 <= i < d.len() ==> '0' <= #[trigger] d[i] <= '9'
    &&& digits_value(d) <= u32::MAX
}

/// Calls `<ReasoningEffort as FromStr>::from_str`; the result depends on the
/// text alone, and it is a success exactly for a keyword (`zero`, `none`,
/// `low`, `medium`, `high`, `xhigh`, `max`, `minimal`) or a `u32` token budget.
#[verifier::external_body]
fn parse_reasoning_effort(text: &str) -> (r: Result<ReasoningEffort, genai::Error>)
    ensures
        r == reasoning_effort_parsed(text@),
        r is Ok <==> effort_keyword(text@) || u32_text(text@),
{
    text.parse::<ReasoningEffort>()
}

/// How statistics are printed after the answer.
#[derive(Clone, Copy, Debug, PartialEq, Eq, Structural)]
pub enum Stats {
    Off,
    /// One styled line for people.
    Human,
    /// A JSON record.
    Json,
}

impl Stats {
    /// Whether token usage must be asked of the provider.
    pub fn captures_usage(self) -> (r: bool)
        ensures
            r == (self != Stats::Off),
    {
        !matches!(self, Stats::Off)
    }
}

/// The two messages of a request.
pub struct Prompt<'a> {
    pub system: &'a str,
    pub user: &'a str,
}

/// A provider that no adapter serves.
#[derive(Debug)]
pub struct UnknownProvider {
    /// The provider's name, in lower case.
    pub provider: String,
}

impl UnknownProvider {
    /// The message shown to the user.
    pub fn message(&self) -> (r: String)
        ensures
            r@ == "unknown provider '"@ + self.provider@ + "'"@,
    {
        let mut m = "unknown provider '".to_owned();
        append_str(&mut m, self.provider.as_str());
        append_str(&mut m, "'");
        m
    }
}

/// The name under which the adapter of `provider` is looked up: the
/// provider's name in lower case, and `custom` (an OpenAI-compatible
/// endpoint) under the OpenAI adapter's name.
pub open spec fn adapter_lookup_name(provider: Seq<char>) -> Seq<char> {
    if ascii_lower(provider) == "custom"@ {
        "openai"@
    } else {
        ascii_lower(provider)
    }
}

/// The adapter that serves `provider`, whatever its case; `custom` is served
/// by the OpenAI adapter.
pub fn adapter_kind(provider: &str) -> (r: Result<AdapterKind, UnknownProvider>)
    ensures
        match adapter_named(adapter_lookup_name(provider@)) {
            Some(k) => r == Ok::<AdapterKind, UnknownProvider>(k),
            None => r matches Err(e) && e.provider@ == ascii_lower(provider@),
        },
        ascii_lower(provider@) != "custom"@ ==> match adapter_named(ascii_lower(provider@)) {
            Some(k) => r == Ok::<AdapterKind, UnknownProvider>(k),
            None => r is Err,
        },
        ascii_lower(provider@) == "custom"@ ==> match adapter_named("openai"@) {
            Some(k) => r == Ok::<AdapterKind, UnknownProvider>(k),
            None => r is Err,
        },
{
    let lower = to_ascii_lower(provider);
    if str_eq(lower.as_str(), "custom") {
        match adapter_from_lower_str("openai") {
            Some(k) => Ok(k),
            None => Err(UnknownProvider { provider: lower }),
        }
    } else {
        match adapter_from_lower_str(lower.as_str()) {
            Some(k) => Ok(k),
            None => Err(UnknownProvider { provider: lower }),
        }
    }
}

/// Every provider but `custom` is looked up under its own name in lower
/// case; only `custom` is looked up under another name, the OpenAI adapter's.
pub proof fn law_only_custom_is_renamed(provider: Seq<char>)
    ensures
        ascii_lower(provider) != "custom"@ ==> adapter_lookup_name(provider) == ascii_lower(
            provider,
        ),
        ascii_lower(provider) == "custom"@ ==> adapter_lookup_name(provider) == "openai"@,
        adapter_lookup_name(provider) == ascii_lower(provider) || adapter_lookup_name(provider)
            == "openai"@,
{
}

/// A provider's adapter does not depend on how its name is capitalized.
pub proof fn law_provider_case_is_ignored(a: Seq<char>, b: Seq<char>)
    requires
        ascii_lower(a) == ascii_lower(b),
    ensures
        adapter_lookup_name(a) == adapter_lookup_name(b),
{
}

/// A `reasoning_effort` setting that names no effort.
#[derive(Debug)]
pub struct InvalidReasoningEffort {
    /// The setting, as written.
    pub value: String,
}

impl InvalidReasoningEffort {
    /// The message shown to the user.
    pub fn message(&self) -> (r: String)
        ensures
            r@ == "invalid reasoning_effort '"@ + self.value@ + "'"@,
    {
        let mut m = "invalid reasoning_effort '".to_owned();
        append_str(&mut m, self.value.as_str());
        append_str(&mut m, "'");
        m
    }
}

/// The reasoning effort that the setting `effort` names.
pub fn reasoning_effort(effort: &str) -> (r: Result<ReasoningEffort, InvalidReasoningEffort>)
    ensures
        match reasoning_effort_parsed(effort@) {
            Ok(e) => r == Ok::<ReasoningEffort, InvalidReasoningEffort>(e),
            Err(_) => r matches Err(e) && e.value@ == effort@,
        },
        r is Ok <==> effort_keyword(effort@) || u32_text(effort@),
{
    match parse_reasoning_effort(effort) {
        Ok(e) => Ok(e),
        Err(_) => Err(InvalidReasoningEffort { value: effort.to_owned() }),
    }
}

/// The system message: the configured prompt with every `{os}` replaced by
/// the operating system's name.
pub fn system_message(system: &str, os: &str) -> (r: String)
    ensures
        r@ == replace_all(system@, "{os}"@, os@),
{
    proof {
        reveal_strlit("{os}");
    }
    replace_str(system, "{os}", os)
}

/// `url`, ending with exactly the `/` it had or one more.
pub open spec fn with_trailing_slash(url: Seq<char>) -> Seq<char> {
    if url.len() > 0 && url.last() == '/' {
        url
    } else {
        url.push('/')
    }
}

/// The endpoint the requests go to, when one is configured: the configured
/// base URL, trimmed and ending with `/`.
pub fn service_endpoint(model: &ModelConfig) -> (r: Option<String>)
    ensures
        match non_empty_of(model.base_url_setting()) {
            Some(u) => r matches Some(e) && e@ == with_trailing_slash(u),
            None => r is None,
        },
        match non_empty_of(model.base_url_setting()) {
            Some(u) => r matches Some(e) && {
                &&& e@.len() <= u.len() + 1
                &&& e@.take(u.len() as int) == u
                &&& e@.len() > 0 && e@.last() == '/'
                &&& (u.len() > 0 && u.last() == '/' ==> e@ == u)
            },
            None => r is None,
        },
{
    proof {
        match non_empty_of(model.base_url_setting()) {
            Some(u) => law_endpoint_adds_at_most_a_slash(u),
            None => {},
        }
    }
    match model.base_url() {
        Some(u) => {
            let v = crate::text::chars_of(u.as_str());
            if v.len() > 0 && v[v.len() - 1] == '/' {
                Some(u)
            } else {
                let mut e = u;
                push_char(&mut e, '/');
                Some(e)
            }
        },
        None => None,
    }
}

/// A configured endpoint always ends with `/`, and adding the slash twice
/// changes nothing.
pub proof fn law_endpoint_ends_with_slash(url: Seq<char>)
    ensures
        with_trailing_slash(url).last() == '/',
        with_trailing_slash(with_trailing_slash(url)) == with_trailing_slash(url),
{
}

/// The endpoint is the base URL itself, with nothing but a single `/` added
/// when it does not end with one: the URL is a prefix of it, it is at most one
/// character longer, and a URL that ends with `/` is kept as it is.
pub proof fn law_endpoint_adds_at_most_a_slash(url: Seq<char>)
    ensures
        with_trailing_slash(url).len() <= url.len() + 1,
        with_trailing_slash(url).take(url.len() as int) == url,
        url.len() > 0 && url.last() == '/' ==> with_trailing_slash(url) == url,
        !(url.len() > 0 && url.last() == '/') ==> with_trailing_slash(url) == url + seq!['/'],
{
    assert(url.push('/').take(url.len() as int) =~= url);
    assert(url.take(url.len() as int) =~= url);
    assert(url.push('/') =~= url + seq!['/']);
}

/// Where the API key comes from.
#[derive(Debug, Clone)]
pub enum Credentials {
    /// The key itself.
    Key(String),
    /// The environment variable holding it.
    FromEnv(String),
}

/// The credentials of the requests: the configured key when there is one,
/// else the configured variable; `None` leaves the adapter's default.
pub fn service_credentials(model: &ModelConfig) -> (r: Option<Credentials>)
    ensures
        match non_empty_of(model.api_key_setting()) {
            Some(k) => r matches Some(Credentials::Key(c)) && c@ == k,
            None => match non_empty_of(model.api_key_env_setting()) {
                Some(v) => r matches Some(Credentials::FromEnv(c)) && c@ == v,
                None => r is None,
            },
        },
{
    match model.api_key() {
        Some(k) => Some(Credentials::Key(k)),
        None => match model.api_key_env() {
            Some(v) => Some(Credentials::FromEnv(v)),
            None => None,
        },
    }
}

/// What is done for one streamed chunk.
#[derive(Clone, Copy, Debug, PartialEq, Eq, Structural)]
pub struct ChunkPlan {
    /// The chunk carries content: the profile records its arrival.
    pub nonempty: bool,
    /// It is the first chunk with content: its arrival is the time to first token.
    pub first: bool,
}

impl ChunkPlan {
    /// Whether the written chunk counts as flushed content for the profile:
    /// it carried content and writing and flushing it succeeded.
    pub fn flushed_content(self, written: bool) -> (r: bool)
        ensures
            r == (self.nonempty && written),
    {
        self.nonempty && written
    }
}

/// The answer as it streams in.
pub struct Transcript {
    text: String,
    seen_content: bool,
}

impl View for Transcript {
    type V = Seq<char>;

    closed spec fn view(&self) -> Seq<char> {
        self.text@
    }
}

impl Transcript {
    /// Whether a chunk with content has been received.
    pub closed spec fn has_content(&self) -> bool {
        self.seen_content
    }

    /// Nothing received yet.
    pub fn new() -> (t: Self)
        ensures
            t@ == Seq::<char>::empty(),
            !t.has_content(),
    {
        Transcript { text: String::new(), seen_content: false }
    }

    /// Takes a streamed chunk: appends it, and says what is done for it.
    pub fn receive(&mut self, content: &str) -> (p: ChunkPlan)
        ensures
            final(self)@ == old(self)@ + content@,
            p.nonempty == (content@.len() > 0),
            p.first == (content@.len() > 0 && !old(self).has_content()),
            final(self).has_content() == (old(self).has_content() || content@.len() > 0),
    {
        append_str(&mut self.text, content);
        let nonempty = !content.is_empty();
        let first = nonempty && !self.seen_content;
        if nonempty {
            self.seen_content = true;
        }
        ChunkPlan { nonempty, first }
    }

    /// The answer: everything received, without surrounding whitespace.
    pub fn answer(&self) -> (r: String)
        ensures
            r@ == trim(self@),
    {
        trimmed(self.text.as_str())
    }
}

} // verus!
