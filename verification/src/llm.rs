//! Decision logic around the LM providers: which provider serves which
//! task, validation of provider configuration, retry classification and
//! backoff, fence stripping of model output, the short-term session
//! memory, the model selection and the usage budget. The HTTP requests
//! themselves are issued outside the library.

use vstd::prelude::*;
use vstd::string::StringExecFns;

use crate::text::{
    contains_seq, lower_seq, spec_digits, spec_trimmed, starts_with, str_chars, str_contains,
    string_from_chars, to_lower_chars, trim_range, trimmed_chars, chars_eq_str, u64_string,
    space_char,
};
use crate::pty::ends_with;

verus! {

/// The LM providers the router knows.
#[derive(Clone, Copy, Debug, PartialEq, Eq, Structural)]
pub enum Provider {
    OpenAI,
    Anthropic,
    Groq,
    Local,
}

impl Provider {
    /// The environment-variable prefix of the provider's settings.
    pub fn env_prefix(&self) -> (r: &'static str)
        ensures
            *self == Provider::OpenAI ==> r@ == "OPENAI"@,
            *self == Provider::Anthropic ==> r@ == "ANTHROPIC"@,
            *self == Provider::Groq ==> r@ == "GROQ"@,
            *self == Provider::Local ==> r@ == "LOCAL"@,
    {
        match self {
            Provider::OpenAI => "OPENAI",
            Provider::Anthropic => "ANTHROPIC",
            Provider::Groq => "GROQ",
            Provider::Local => "LOCAL",
        }
    }
}

/// The provider a configuration name refers to, compared without regard
/// to ASCII case.
pub open spec fn spec_provider_from(s: Seq<char>) -> Option<Provider> {
    let l = lower_seq(s);
    if l == "openai"@ {
        Some(Provider::OpenAI)
    } else if l == "anthropic"@ {
        Some(Provider::Anthropic)
    } else if l == "groq"@ {
        Some(Provider::Groq)
    } else if l == "local"@ {
        Some(Provider::Local)
    } else {
        None
    }
}

/// Parse a provider name.
pub fn provider_from_str(s: &str) -> (r: Option<Provider>)
    ensures
        r == spec_provider_from(s@),
{
    let c = str_chars(s);
    let l = to_lower_chars(c.as_slice());
    if chars_eq_str(l.as_slice(), "openai") {
        Some(Provider::OpenAI)
    } else if chars_eq_str(l.as_slice(), "anthropic") {
        Some(Provider::Anthropic)
    } else if chars_eq_str(l.as_slice(), "groq") {
        Some(Provider::Groq)
    } else if chars_eq_str(l.as_slice(), "local") {
        Some(Provider::Local)
    } else {
        None
    }
}

/// Connection settings for one provider.
#[derive(Debug)]
pub struct ProviderConfig {
    pub base_url: String,
    pub api_key: String,
    pub model_id: String,
}

/// A provider configuration is invalid exactly when its API key is empty
/// or all whitespace.
#[derive(Clone, Copy, Debug, PartialEq, Eq, Structural)]
pub enum ConfigError {
    MissingApiKey,
}

impl ProviderConfig {
    /// Check that the configuration holds the minimal required data.
    pub fn validate(&self) -> (r: Result<(), ConfigError>)
        ensures
            r is Ok <==> spec_trimmed(self.api_key@).len() > 0,
            r is Err ==> (r matches Err(e) && e == ConfigError::MissingApiKey),
    {
        let c = str_chars(self.api_key.as_str());
        let t = trimmed_chars(c.as_slice());
        if t.len() == 0 {
            Err(ConfigError::MissingApiKey)
        } else {
            Ok(())
        }
    }
}

/// What kind of work a chat request is for; each kind can route to a
/// different provider order.
#[derive(Clone, Copy, Debug, PartialEq, Eq, Structural)]
pub enum TaskType {
    Code,
    Reasoning,
    Summary,
}

/// Per-task provider routing: the primary provider and optional
/// fallbacks, by name.
#[derive(Debug)]
pub struct TaskConfig {
    pub primary: String,
    pub fallbacks: Option<Vec<String>>,
}

/// The registry of configured providers.
#[derive(Debug)]
pub struct ClientRegistry {
    pub entries: Vec<(Provider, ProviderConfig)>,
}

/// The configuration stored for a provider: the first entry that carries
/// it.
pub open spec fn reg_lookup(entries: Seq<(Provider, ProviderConfig)>, p: Provider) -> Option<
    ProviderConfig,
>
    decreases entries.len(),
{
    if entries.len() == 0 {
        None
    } else if entries[0].0 == p {
        Some(entries[0].1)
    } else {
        reg_lookup(entries.skip(1), p)
    }
}

/// A provider is configured when the registry stores something for it.
pub open spec fn reg_has(entries: Seq<(Provider, ProviderConfig)>, p: Provider) -> bool {
    reg_lookup(entries, p) is Some
}

impl ClientRegistry {
    /// An empty registry.
    pub fn new() -> (r: ClientRegistry)
        ensures
            r.entries@.len() == 0,
    {
        ClientRegistry { entries: Vec::new() }
    }

    /// Store the configuration for a named provider. An unknown name or a
    /// configuration without an API key is ignored; otherwise the entry
    /// is appended and, for a provider not yet present, becomes its
    /// configuration.
    pub fn insert(&mut self, name: &str, cfg: ProviderConfig)
        ensures
            spec_provider_from(name@) is None || spec_trimmed(cfg.api_key@).len() == 0
                ==> final(self).entries@ == old(self).entries@,
            spec_provider_from(name@) matches Some(p) ==> (spec_trimmed(cfg.api_key@).len() > 0
                ==> final(self).entries@ == old(self).entries@.push((p, cfg))),
    {
        let p = provider_from_str(name);
        match p {
            Some(p) => {
                match cfg.validate() {
                    Ok(_) => {
                        self.entries.push((p, cfg));
                    },
                    Err(_) => {},
                }
            },
            None => {},
        }
    }

    /// The configuration of a provider, if one was stored.
    pub fn get(&self, provider: Provider) -> (r: Option<&ProviderConfig>)
        ensures
            r matches Some(c) ==> reg_lookup(self.entries@, provider) == Some(*c),
            r is None ==> reg_lookup(self.entries@, provider) is None,
    {
        let n = self.entries.len();
        let mut i: usize = 0;
        proof {
            assert(self.entries@.skip(0) =~= self.entries@);
        }
        while i < n
            invariant
                n == self.entries@.len(),
                i <= n,
                reg_lookup(self.entries@, provider) == reg_lookup(
                    self.entries@.skip(i as int),
                    provider,
                ),
            decreases n - i,
        {
            proof {
                assert(self.entries@.skip(i as int)[0] == self.entries@[i as int]);
                assert(self.entries@.skip(i as int).skip(1) =~= self.entries@.skip(i + 1));
            }
            if self.entries[i].0 == provider {
                return Some(&self.entries[i].1);
            }
            i += 1;
        }
        proof {
            assert(self.entries@.skip(n as int) =~= Seq::<(Provider, ProviderConfig)>::empty());
        }
        None
    }

    /// Whether a configuration was stored for the provider.
    pub fn has(&self, provider: Provider) -> (r: bool)
        ensures
            r == reg_has(self.entries@, provider),
    {
        match self.get(provider) {
            Some(_) => true,
            None => false,
        }
    }
}

/// The providers named by a task configuration, in order: the primary
/// first, then the fallbacks, keeping only names that parse and are
/// configured.
pub open spec fn spec_ordered(
    entries: Seq<(Provider, ProviderConfig)>,
    names: Seq<Seq<char>>,
) -> Seq<Provider>
    decreases names.len(),
{
    if names.len() == 0 {
        Seq::empty()
    } else {
        (match spec_provider_from(names[0]) {
            Some(p) => if reg_has(entries, p) {
                seq![p]
            } else {
                Seq::empty()
            },
            None => Seq::empty(),
        }) + spec_ordered(entries, names.skip(1))
    }
}

impl ClientRegistry {
    /// Resolve the provider order for one task configuration: the primary
    /// name then the fallback names, each kept when it parses and is
    /// configured. Without a task configuration no provider is offered.
    pub fn ordered_for(&self, task_cfg: Option<&TaskConfig>) -> (r: Vec<Provider>)
        ensures
            task_cfg is None ==> r@.len() == 0,
            task_cfg matches Some(cfg) ==> r@ == spec_ordered(
                self.entries@,
                seq![cfg.primary@] + (match cfg.fallbacks {
                    Some(fb) => fb.deep_view(),
                    None => Seq::empty(),
                }),
            ),
    {
        let mut r: Vec<Provider> = Vec::new();
        let cfg = match task_cfg {
            Some(c) => c,
            None => {
                return r;
            },
        };
        let ghost names = seq![cfg.primary@] + (match &cfg.fallbacks {
            Some(fb) => fb.deep_view(),
            None => Seq::<Seq<char>>::empty(),
        });
        match provider_from_str(cfg.primary.as_str()) {
            Some(p) => {
                if self.has(p) {
                    r.push(p);
                }
            },
            None => {},
        }
        proof {
            assert(names[0] == cfg.primary@);
            assert(names.skip(1) =~= (match &cfg.fallbacks {
                Some(fb) => fb.deep_view(),
                None => Seq::<Seq<char>>::empty(),
            }));
        }
        match &cfg.fallbacks {
            Some(fb) => {
                let n = fb.len();
                let mut i: usize = 0;
                proof {
                    assert(fb.deep_view().skip(0) =~= fb.deep_view());
                    assert(spec_ordered(self.entries@, names) =~= r@ + spec_ordered(
                        self.entries@,
                        names.skip(1),
                    ));
                }
                while i < n
                    invariant
                        n == fb@.len(),
                        i <= n,
                        spec_ordered(self.entries@, names) == r@ + spec_ordered(
                            self.entries@,
                            fb.deep_view().skip(i as int),
                        ),
                    decreases n - i,
                {
                    proof {
                        assert(fb.deep_view().skip(i as int)[0] == fb.deep_view()[i as int]);
                        assert(fb.deep_view().skip(i as int).skip(1) =~= fb.deep_view().skip(
                            i + 1,
                        ));
                    }
                    match provider_from_str(fb[i].as_str()) {
                        Some(p) => {
                            if self.has(p) {
                                r.push(p);
                            }
                        },
                        None => {},
                    }
                    proof {
                        assert(spec_ordered(self.entries@, names) =~= r@ + spec_ordered(
                            self.entries@,
                            fb.deep_view().skip(i + 1),
                        ));
                    }
                    i += 1;
                }
                proof {
                    assert(fb.deep_view().skip(n as int) =~= Seq::<Seq<char>>::empty());
                    assert(spec_ordered(self.entries@, fb.deep_view().skip(n as int))
                        =~= Seq::<Provider>::empty());
                    assert(r@ =~= r@ + Seq::<Provider>::empty());
                }
            },
            None => {
                proof {
                    assert(spec_ordered(self.entries@, names.skip(1))
                        =~= Seq::<Provider>::empty());
                    assert(r@ =~= spec_ordered(self.entries@, names));
                }
            },
        }
        r
    }
}

/// An error message counts as retryable when it reports a rate limit or
/// an authorization failure.
pub open spec fn spec_retryable(m: Seq<char>) -> bool {
    ||| contains_seq(m, "429"@)
    ||| contains_seq(m, "401"@)
    ||| contains_seq(m, "rate limit"@)
    ||| contains_seq(m, "unauthorized"@)
}

/// Classify an error message as retryable or not.
pub fn is_retryable_error(msg: &str) -> (r: bool)
    ensures
        r == spec_retryable(msg@),
{
    str_contains(msg, "429") || str_contains(msg, "401") || str_contains(msg, "rate limit")
        || str_contains(msg, "unauthorized")
}

/// Whether the router tries the same provider again: only for a
/// retryable error and while attempts remain of the three allowed.
pub fn should_retry_provider(attempt: usize, retryable: bool) -> (r: bool)
    ensures
        r == (retryable && attempt < 3),
{
    retryable && attempt < 3
}

/// The doubled backoff, saturating.
pub fn double_backoff(ms: u64) -> (r: u64)
    ensures
        ms <= u64::MAX / 2 ==> r == 2 * ms,
        ms > u64::MAX / 2 ==> r == u64::MAX,
{
    if ms > u64::MAX / 2 {
        u64::MAX
    } else {
        2 * ms
    }
}

/// Strip a surrounding triple-backtick fence (with an optional `json`
/// tag) and surrounding whitespace from model output. The result is a
/// contiguous part of the input with no fence left at either end, and
/// output without any backtick is simply trimmed.
pub fn strip_fences(s: &str) -> (r: String)
    ensures
        !starts_with(r@, "```"@),
        !ends_with(r@, "```"@),
        exists|a: int, b: int| 0 <= a <= b <= s@.len() && r@ == s@.subrange(a, b),
        (forall|k: int| 0 <= k < s@.len() ==> s@[k] != '`') ==> r@ == spec_trimmed(s@),
{
    let chars = str_chars(s);
    let (t0, t1) = trim_range(chars.as_slice());
    let mut a: usize = t0;
    let mut b: usize = t1;
    while b - a >= 3 && chars[a] == '`' && chars[a + 1] == '`' && chars[a + 2] == '`'
        invariant
            chars@ == s@,
            0 <= a <= b <= s@.len(),
            (forall|k: int| 0 <= k < s@.len() ==> s@[k] != '`') ==> (a == t0 && b == t1),
        decreases b - a,
    {
        proof {
            if forall|k: int| 0 <= k < s@.len() ==> s@[k] != '`' {
                assert(s@[a as int] != '`');
            }
        }
        a += 3;
        if b - a >= 4 && chars[a] == 'j' && chars[a + 1] == 's' && chars[a + 2] == 'o'
            && chars[a + 3] == 'n' {
            a += 4;
        }
        let ghost a_mark = a;
        let ghost b_mark = b;
        while a < b && space_char(chars[a])
            invariant
                chars@ == s@,
                a_mark <= a,
                b == b_mark,
                0 <= a <= b <= s@.len(),
            decreases b - a,
        {
            a += 1;
        }
    }
    let ghost after_lead_a = a;
    while b - a >= 3 && chars[b - 1] == '`' && chars[b - 2] == '`' && chars[b - 3] == '`'
        invariant
            chars@ == s@,
            a == after_lead_a,
            0 <= a <= b <= s@.len(),
            (forall|k: int| 0 <= k < s@.len() ==> s@[k] != '`') ==> (a == t0 && b == t1),
        decreases b - a,
    {
        proof {
            if forall|k: int| 0 <= k < s@.len() ==> s@[k] != '`' {
                assert(s@[b - 1] != '`');
            }
        }
        b -= 3;
        let ghost a_mark = a;
        let ghost b_mark = b;
        while b > a && space_char(chars[b - 1])
            invariant
                chars@ == s@,
                a == a_mark,
                b <= b_mark,
                0 <= a <= b <= s@.len(),
            decreases b,
        {
            b -= 1;
        }
    }
    let mut out: Vec<char> = Vec::new();
    let mut i: usize = a;
    while i < b
        invariant
            chars@ == s@,
            a <= i <= b <= s@.len(),
            out@ == s@.subrange(a as int, i as int),
        decreases b - i,
    {
        out.push(chars[i]);
        assert(out@ =~= s@.subrange(a as int, i + 1 as int));
        i += 1;
    }
    proof {
        reveal_strlit("```");
        assert("```"@ =~= seq!['`', '`', '`']);
        assert(out@ =~= s@.subrange(a as int, b as int));
        if starts_with(out@, "```"@) {
            assert(out@.subrange(0, 3) == "```"@);
            assert(out@[0] == '`' && out@[1] == '`' && out@[2] == '`');
            assert(b - a >= 3 && s@[a as int] == '`' && s@[a + 1] == '`' && s@[a + 2] == '`');
        }
        if ends_with(out@, "```"@) {
            let off = out@.len() - 3;
            assert(out@.subrange(off, out@.len() as int) == "```"@);
            assert(out@[off] == '`' && out@[off + 1] == '`' && out@[off + 2] == '`');
            assert(b - a >= 3 && s@[b - 1] == '`' && s@[b - 2] == '`' && s@[b - 3] == '`');
        }
        if forall|k: int| 0 <= k < s@.len() ==> s@[k] != '`' {
            let ab = choose|ab: (int, int)| crate::text::trim_bounds(s@, ab.0, ab.1);
            assert(crate::text::trim_bounds(s@, ab.0, ab.1)) by {
                assert(crate::text::trim_bounds(s@, t0 as int, t1 as int));
            }
            crate::text::lemma_trim_bounds_unique(s@, t0 as int, t1 as int, ab.0, ab.1);
            assert(out@ =~= spec_trimmed(s@));
        }
    }
    string_from_chars(out.as_slice())
}

/// One request to propose new content for a single file.
#[derive(Debug)]
pub struct EditReq {
    pub file_path: String,
    pub file_content: String,
    pub instruction: String,
    pub max_tokens: Option<u32>,
}

/// The corrective patch proposed from a failure log and the current
/// repository diff: the diff itself, unchanged.
pub fn propose_patch(log_content: &str, diff: &str) -> (r: Result<String, ConfigError>)
    ensures
        r matches Ok(p) && p@ == diff@,
{
    let _ = log_content;
    Ok(diff.to_owned())
}

/// Short-term session memory: the last ten exchanges, oldest out first.
#[derive(Debug)]
pub struct SessionMemory {
    pub messages: Vec<(String, String)>,
}

/// The capacity of the session memory.
pub open spec fn memory_capacity() -> int {
    10
}

impl SessionMemory {
    /// An empty memory.
    pub fn new() -> (r: SessionMemory)
        ensures
            r.messages@.len() == 0,
    {
        SessionMemory { messages: Vec::new() }
    }

    /// Remember one exchange; at capacity the oldest is dropped.
    pub fn push_memory(&mut self, role: String, content: String)
        requires
            old(self).messages@.len() <= memory_capacity(),
        ensures
            final(self).messages@ == if old(self).messages@.len() < memory_capacity() {
                old(self).messages@.push((role, content))
            } else {
                old(self).messages@.skip(1).push((role, content))
            },
            final(self).messages@.len() <= memory_capacity(),
    {
        if self.messages.len() >= 10 {
            self.messages.remove(0);
            proof {
                assert(self.messages@ =~= old(self).messages@.skip(1));
            }
        }
        self.messages.push((role, content));
    }

    /// The number of remembered exchanges.
    pub fn len(&self) -> (r: usize)
        ensures
            r == self.messages@.len(),
    {
        self.messages.len()
    }
}

/// One remembered exchange rendered as a line.
pub open spec fn memory_line(m: (Seq<char>, Seq<char>)) -> Seq<char> {
    m.0 + ": "@ + m.1 + "\n"@
}

/// The rendered memory block: nothing when empty, otherwise a header
/// followed by one line per exchange.
pub open spec fn spec_memory_text(msgs: Seq<(Seq<char>, Seq<char>)>) -> Seq<char> {
    if msgs.len() == 0 {
        Seq::empty()
    } else {
        "\n--- Recent Session Memory ---\n"@ + memory_lines(msgs)
    }
}

/// The rendered lines of the remembered exchanges.
pub open spec fn memory_lines(msgs: Seq<(Seq<char>, Seq<char>)>) -> Seq<char>
    decreases msgs.len(),
{
    if msgs.len() == 0 {
        Seq::empty()
    } else {
        memory_line(msgs[0]) + memory_lines(msgs.skip(1))
    }
}

/// The rendered view of a message vector.
pub open spec fn msgs_view(messages: Seq<(String, String)>) -> Seq<(Seq<char>, Seq<char>)> {
    messages.map_values(|m: (String, String)| (m.0@, m.1@))
}

impl SessionMemory {
    /// The recent-memory block appended to system prompts: empty when
    /// nothing is remembered, otherwise a header and one `role: content`
    /// line per exchange.
    pub fn recent_memory_formatted(&self) -> (r: String)
        ensures
            r@ == spec_memory_text(msgs_view(self.messages@)),
    {
        if self.messages.len() == 0 {
            return String::new();
        }
        let n = self.messages.len();
        let ghost all = msgs_view(self.messages@);
        let mut lines: String = String::new();
        let mut i: usize = 0;
        proof {
            assert(all.skip(0) =~= all);
        }
        while i < n
            invariant
                n == self.messages@.len(),
                i <= n,
                all == msgs_view(self.messages@),
                all.len() == n,
                memory_lines(all) == lines@ + memory_lines(all.skip(i as int)),
            decreases n - i,
        {
            proof {
                assert(all.skip(i as int)[0] == all[i as int]);
                assert(all.skip(i as int).skip(1) =~= all.skip(i + 1));
                assert(all[i as int] == (self.messages@[i as int].0@,
                self.messages@[i as int].1@));
            }
            let ghost before = lines@;
            lines.append(self.messages[i].0.as_str());
            lines.append(": ");
            lines.append(self.messages[i].1.as_str());
            lines.append("\n");
            proof {
                assert(lines@ =~= before + memory_line(all[i as int]));
                assert(memory_lines(all) =~= lines@ + memory_lines(all.skip(i + 1)));
            }
            i += 1;
        }
        proof {
            assert(all.skip(n as int) =~= Seq::<(Seq<char>, Seq<char>)>::empty());
            assert(memory_lines(all.skip(n as int)) =~= Seq::<char>::empty());
            assert(lines@ =~= memory_lines(all));
        }
        let mut out: String = "\n--- Recent Session Memory ---\n".to_owned();
        out.append(lines.as_str());
        out
    }
}

/// The recent-context block the planner adds to its prompt.
pub fn get_recent_context(memory: &SessionMemory) -> (r: String)
    ensures
        r@ == spec_memory_text(msgs_view(memory.messages@)),
{
    memory.recent_memory_formatted()
}

/// The in-session model selection, with its environment default.
#[derive(Debug)]
pub struct ModelSelection {
    pub model_id: String,
}

impl ModelSelection {
    /// The selection at startup: the environment's model when it is set
    /// and not blank, otherwise the stock default.
    pub fn new(env_model: Option<String>) -> (r: ModelSelection)
        ensures
            env_model matches Some(m) ==> (spec_trimmed(m@).len() > 0 ==> r.model_id@ == m@),
            env_model matches Some(m) ==> (spec_trimmed(m@).len() == 0 ==> r.model_id@
                == "gpt-4o-mini"@),
            env_model is None ==> r.model_id@ == "gpt-4o-mini"@,
    {
        match env_model {
            Some(m) => {
                let c = str_chars(m.as_str());
                let t = trimmed_chars(c.as_slice());
                if t.len() > 0 {
                    ModelSelection { model_id: m }
                } else {
                    ModelSelection { model_id: "gpt-4o-mini".to_owned() }
                }
            },
            None => ModelSelection { model_id: "gpt-4o-mini".to_owned() },
        }
    }

    /// The model in use.
    pub fn current_model_id(&self) -> (r: String)
        ensures
            r@ == self.model_id@,
    {
        self.model_id.clone()
    }

    /// Switch the model for this session.
    pub fn set_model_id(&mut self, new_id: &str)
        ensures
            final(self).model_id@ == new_id@,
    {
        self.model_id = new_id.to_owned();
    }
}

/// Running token and wall-clock totals across all LM calls.
#[derive(Clone, Copy, Debug)]
pub struct UsageBudget {
    pub tokens: u64,
    pub time_ms: u64,
}

impl UsageBudget {
    /// A fresh budget with nothing spent.
    pub fn new() -> (r: UsageBudget)
        ensures
            r.tokens == 0,
            r.time_ms == 0,
    {
        UsageBudget { tokens: 0, time_ms: 0 }
    }

    /// Count one call's estimated tokens and elapsed time, saturating.
    pub fn add_usage(&mut self, tokens: u64, time_ms: u64)
        ensures
            final(self).tokens == if old(self).tokens + tokens <= u64::MAX {
                old(self).tokens + tokens
            } else {
                u64::MAX as int
            },
            final(self).time_ms == if old(self).time_ms + time_ms <= u64::MAX {
                old(self).time_ms + time_ms
            } else {
                u64::MAX as int
            },
    {
        self.tokens = saturating_add(self.tokens, tokens);
        self.time_ms = saturating_add(self.time_ms, time_ms);
    }

    /// The budget line shown to the user.
    pub fn budget_report(&self) -> (r: String)
        ensures
            r@ == "Tokens used: "@ + spec_digits(self.tokens as int) + ", Time spent: "@
                + spec_digits(self.time_ms as int) + " ms"@,
    {
        let mut s: String = "Tokens used: ".to_owned();
        let t = u64_string(self.tokens);
        s.append(t.as_str());
        s.append(", Time spent: ");
        let m = u64_string(self.time_ms);
        s.append(m.as_str());
        s.append(" ms");
        assert(s@ =~= "Tokens used: "@ + spec_digits(self.tokens as int) + ", Time spent: "@
            + spec_digits(self.time_ms as int) + " ms"@);
        s
    }
}

/// Add without overflow, saturating at the maximum.
fn saturating_add(a: u64, b: u64) -> (r: u64)
    ensures
        r == if a + b <= u64::MAX {
            a + b
        } else {
            u64::MAX as int
        },
{
    if a <= u64::MAX - b {
        a + b
    } else {
        u64::MAX
    }
}

/// A summary used when every provider fails: the trimmed input, cut to
/// two hundred characters with an ellipsis when longer.
pub fn simple_fallback_summary(user: &str) -> (r: String)
    ensures
        spec_trimmed(user@).len() <= 200 ==> r@ == spec_trimmed(user@),
        spec_trimmed(user@).len() > 200 ==> r@ == spec_trimmed(user@).subrange(0, 200) + "..."@,
{
    let c = str_chars(user);
    let mut t = trimmed_chars(c.as_slice());
    if t.len() <= 200 {
        string_from_chars(t.as_slice())
    } else {
        t.truncate(200);
        let mut s = string_from_chars(t.as_slice());
        s.append("...");
        proof {
            assert(t@ =~= spec_trimmed(user@).subrange(0, 200));
        }
        s
    }
}

} // verus!
