//! Hierarchical configuration loading.
//!
//! Priority: project settings > user settings > environment variables >
//! defaults. Reading the files and the environment is the caller's part;
//! this module merges what was read.
use vstd::prelude::*;

use crate::profile::AppConfig;
use crate::text::{chars_of, owned, str_eq};

verus! {

/// The fields that a settings file sets; the others are left as they are.
#[derive(Debug, Clone, Default)]
pub struct ConfigOverrides {
    pub model_provider: Option<String>,
    pub model: Option<String>,
    pub max_tokens: Option<u64>,
    /// The temperature in thousandths.
    pub temperature_millis: Option<u32>,
    pub verbose: Option<bool>,
    pub debug_logging: Option<bool>,
}

/// The environment variables that override the configuration, as read:
/// `OPENDEV_MODEL_PROVIDER`, `OPENDEV_MODEL`, `OPENDEV_MAX_TOKENS` (text to
/// parse), `OPENDEV_TEMPERATURE` (already parsed, in thousandths),
/// `OPENDEV_VERBOSE` and `OPENDEV_DEBUG`.
#[derive(Debug, Clone, Default)]
pub struct EnvOverrides {
    pub model_provider: Option<String>,
    pub model: Option<String>,
    pub max_tokens: Option<String>,
    pub temperature_millis: Option<u32>,
    pub verbose: Option<String>,
    pub debug: Option<String>,
}

/// Mathematical model of an [`AppConfig`].
pub struct AppConfigView {
    pub model_provider: Seq<char>,
    pub model: Seq<char>,
    pub max_tokens: u64,
    pub temperature_millis: u32,
    pub verbose: bool,
    pub debug_logging: bool,
}

/// The model of a configuration.
pub open spec fn config_view(c: AppConfig) -> AppConfigView {
    AppConfigView {
        model_provider: c.model_provider@,
        model: c.model@,
        max_tokens: c.max_tokens,
        temperature_millis: c.temperature_millis,
        verbose: c.verbose,
        debug_logging: c.debug_logging,
    }
}

/// The configuration with the fields that `o` sets replaced.
pub open spec fn merged(c: AppConfigView, o: ConfigOverrides) -> AppConfigView {
    AppConfigView {
        model_provider: match o.model_provider {
            Some(v) => v@,
            None => c.model_provider,
        },
        model: match o.model {
            Some(v) => v@,
            None => c.model,
        },
        max_tokens: match o.max_tokens {
            Some(v) => v,
            None => c.max_tokens,
        },
        temperature_millis: match o.temperature_millis {
            Some(v) => v,
            None => c.temperature_millis,
        },
        verbose: match o.verbose {
            Some(v) => v,
            None => c.verbose,
        },
        debug_logging: match o.debug_logging {
            Some(v) => v,
            None => c.debug_logging,
        },
    }
}

/// The value of a sequence of decimal digits.
pub open spec fn digits_value(ds: Seq<char>) -> nat
    decreases ds.len(),
{
    if ds.len() == 0 {
        0
    } else {
        digits_value(ds.drop_last()) * 10 + (ds.last() as nat - '0' as nat) as nat
    }
}

/// Whether every character is an ASCII digit.
pub open spec fn all_digits(ds: Seq<char>) -> bool {
    forall|i: int| 0 <= i < ds.len() ==> '0' <= #[trigger] ds[i] && ds[i] <= '9'
}

/// What `str::parse::<u64>` gives: an optional `+`, then one or more
/// digits whose value fits.
pub open spec fn parsed_u64(s: Seq<char>) -> Option<u64> {
    let ds = if s.len() > 0 && s[0] == '+' {
        s.skip(1)
    } else {
        s
    };
    if ds.len() > 0 && all_digits(ds) && digits_value(ds) <= u64::MAX {
        Some(digits_value(ds) as u64)
    } else {
        None
    }
}

proof fn lemma_digits_value_grows(ds: Seq<char>, k: int)
    requires
        0 <= k <= ds.len(),
        all_digits(ds),
    ensures
        digits_value(ds.take(k)) <= digits_value(ds),
    decreases ds.len(),
{
    if k < ds.len() {
        assert(ds.drop_last().take(k) =~= ds.take(k));
        lemma_digits_value_grows(ds.drop_last(), k);
    } else {
        assert(ds.take(k) =~= ds);
    }
}

/// Parses an unsigned 64-bit integer as `str::parse::<u64>` does.
pub fn parse_u64(s: &str) -> (r: Option<u64>)
    ensures
        r == parsed_u64(s@),
{
    let cs = chars_of(s);
    let start: usize = if cs.len() > 0 && cs[0] == '+' {
        1
    } else {
        0
    };
    let ghost ds = if s@.len() > 0 && s@[0] == '+' {
        s@.skip(1)
    } else {
        s@
    };
    proof {
        assert(ds =~= cs@.skip(start as int));
    }
    if start >= cs.len() {
        return None;
    }
    let mut value: u128 = 0;
    let mut k = start;
    while k < cs.len()
        invariant
            start <= k <= cs@.len(),
            cs@ == s@,
            ds == cs@.skip(start as int),
            ds == (if s@.len() > 0 && s@[0] == '+' {
                s@.skip(1)
            } else {
                s@
            }),
            ds.len() > 0,
            all_digits(ds.take(k - start)),
            value == digits_value(ds.take(k - start)),
            value <= u64::MAX,
        decreases cs@.len() - k,
    {
        let c = cs[k];
        proof {
            assert(ds.take(k + 1 - start).drop_last() =~= ds.take(k - start));
            assert(ds.take(k + 1 - start).last() == c);
        }
        if c < '0' || c > '9' {
            proof {
                assert(ds[k - start] == c);
            }
            return None;
        }
        let d = (c as u32 - '0' as u32) as u128;
        proof {
            crate::text::lemma_char_range(c);
            assert(value * 10 <= u64::MAX * 10) by (nonlinear_arith)
                requires
                    value <= u64::MAX,
            ;
        }
        value = value * 10 + d;
        proof {
            assert(ds.take(k + 1 - start)[k - start] == c);
            assert(d == c as nat - '0' as nat);
            assert(value == digits_value(ds.take(k + 1 - start)));
        }
        if value > u64::MAX as u128 {
            proof {
                assert(all_digits(ds.take(k + 1 - start)));
                if all_digits(ds) {
                    lemma_digits_value_grows(ds, k + 1 - start);
                }
            }
            return None;
        }
        k = k + 1;
    }
    proof {
        assert(ds.take(k - start) =~= ds);
    }
    Some(value as u64)
}

/// Whether an environment flag is on: `1`, or `true` in any ASCII case.
pub open spec fn flag_on(s: Seq<char>) -> bool {
    s == "1"@ || (s.len() == 4 && (s[0] == 't' || s[0] == 'T') && (s[1] == 'r' || s[1] == 'R')
        && (s[2] == 'u' || s[2] == 'U') && (s[3] == 'e' || s[3] == 'E'))
}

/// Whether an environment flag is on: `1`, or `true` in any ASCII case.
pub fn is_flag_on(s: &str) -> (r: bool)
    ensures
        r == flag_on(s@),
{
    if str_eq(s, "1") {
        return true;
    }
    let cs = chars_of(s);
    cs.len() == 4 && (cs[0] == 't' || cs[0] == 'T') && (cs[1] == 'r' || cs[1] == 'R') && (cs[2]
        == 'u' || cs[2] == 'U') && (cs[3] == 'e' || cs[3] == 'E')
}

/// The configuration after the environment's overrides: texts replace
/// fields, a token limit that parses replaces it, and the flags are set
/// from their text.
pub open spec fn env_applied(c: AppConfigView, e: EnvOverrides) -> AppConfigView {
    AppConfigView {
        model_provider: match e.model_provider {
            Some(v) => v@,
            None => c.model_provider,
        },
        model: match e.model {
            Some(v) => v@,
            None => c.model,
        },
        max_tokens: match e.max_tokens {
            Some(v) => match parsed_u64(v@) {
                Some(n) => n,
                None => c.max_tokens,
            },
            None => c.max_tokens,
        },
        temperature_millis: match e.temperature_millis {
            Some(t) => t,
            None => c.temperature_millis,
        },
        verbose: match e.verbose {
            Some(v) => flag_on(v@),
            None => c.verbose,
        },
        debug_logging: match e.debug {
            Some(v) => flag_on(v@),
            None => c.debug_logging,
        },
    }
}

/// The default configuration's model.
pub open spec fn default_config() -> AppConfigView {
    AppConfigView {
        model_provider: "fireworks"@,
        model: Seq::empty(),
        max_tokens: 16384,
        temperature_millis: 600,
        verbose: false,
        debug_logging: false,
    }
}

/// Loads and merges configuration from its sources.
pub struct ConfigLoader {}

impl ConfigLoader {
    /// Merges the fields that a settings file sets onto a configuration.
    pub fn merge(base: AppConfig, overrides: &ConfigOverrides) -> (r: AppConfig)
        ensures
            config_view(r) == merged(config_view(base), *overrides),
    {
        let mut c = base;
        if let Some(v) = &overrides.model_provider {
            c.model_provider = v.clone();
        }
        if let Some(v) = &overrides.model {
            c.model = v.clone();
        }
        if let Some(v) = overrides.max_tokens {
            c.max_tokens = v;
        }
        if let Some(v) = overrides.temperature_millis {
            c.temperature_millis = v;
        }
        if let Some(v) = overrides.verbose {
            c.verbose = v;
        }
        if let Some(v) = overrides.debug_logging {
            c.debug_logging = v;
        }
        c
    }

    /// Applies the environment variables' overrides.
    pub fn apply_env_overrides(config: &mut AppConfig, env: &EnvOverrides)
        ensures
            config_view(*final(config)) == env_applied(config_view(*old(config)), *env),
    {
        if let Some(v) = &env.model_provider {
            config.model_provider = v.clone();
        }
        if let Some(v) = &env.model {
            config.model = v.clone();
        }
        if let Some(v) = &env.max_tokens {
            if let Some(n) = parse_u64(v.as_str()) {
                config.max_tokens = n;
            }
        }
        if let Some(t) = env.temperature_millis {
            config.temperature_millis = t;
        }
        if let Some(v) = &env.verbose {
            config.verbose = is_flag_on(v.as_str());
        }
        if let Some(v) = &env.debug {
            config.debug_logging = is_flag_on(v.as_str());
        }
    }

    /// The configuration from the defaults, then the environment, then the
    /// user's settings (where read), then the project's settings (where
    /// read): project over user over environment over defaults.
    pub fn load(
        global: Option<&ConfigOverrides>,
        project: Option<&ConfigOverrides>,
        env: &EnvOverrides,
    ) -> (r: AppConfig)
        ensures
            config_view(r) == loaded_config(
                match global {
                    Some(g) => Some(*g),
                    None => None,
                },
                match project {
                    Some(p) => Some(*p),
                    None => None,
                },
                *env,
            ),
    {
        let mut config = AppConfig::default();
        assert(config_view(config) == default_config());
        Self::apply_env_overrides(&mut config, env);
        if let Some(g) = global {
            config = Self::merge(config, g);
        }
        if let Some(p) = project {
            config = Self::merge(config, p);
        }
        config
    }
}

/// Settings merged onto `c`, where they were read.
pub open spec fn merged_opt(c: AppConfigView, o: Option<ConfigOverrides>) -> AppConfigView {
    match o {
        Some(s) => merged(c, s),
        None => c,
    }
}

/// The configuration loaded from the defaults, the environment, the user's
/// settings and the project's settings, each later one taking priority.
pub open spec fn loaded_config(
    global: Option<ConfigOverrides>,
    project: Option<ConfigOverrides>,
    env: EnvOverrides,
) -> AppConfigView {
    merged_opt(merged_opt(env_applied(default_config(), env), global), project)
}

/// Priority: project settings over user settings over the environment over
/// the defaults. A model set by the project wins; else one set by the user;
/// else one set in the environment; else the default.
pub proof fn law_settings_priority(global: Option<ConfigOverrides>, project: Option<ConfigOverrides>, env: EnvOverrides)
    ensures
        loaded_config(global, project, env).model == if project is Some && project->0.model is Some {
            project->0.model->0@
        } else if global is Some && global->0.model is Some {
            global->0.model->0@
        } else if env.model is Some {
            env.model->0@
        } else {
            default_config().model
        },
        loaded_config(global, project, env).model_provider == if project is Some
            && project->0.model_provider is Some {
            project->0.model_provider->0@
        } else if global is Some && global->0.model_provider is Some {
            global->0.model_provider->0@
        } else if env.model_provider is Some {
            env.model_provider->0@
        } else {
            default_config().model_provider
        },
{
}

/// Later sources win: settings merged onto a configuration, and then other
/// settings merged, give each field from the last source that sets it.
pub proof fn law_later_settings_win(c: AppConfigView, a: ConfigOverrides, b: ConfigOverrides)
    ensures
        merged(merged(c, a), b).model == match b.model {
            Some(v) => v@,
            None => match a.model {
                Some(v) => v@,
                None => c.model,
            },
        },
        merged(merged(c, a), b).model_provider == match b.model_provider {
            Some(v) => v@,
            None => match a.model_provider {
                Some(v) => v@,
                None => c.model_provider,
            },
        },
        merged(merged(c, a), b).max_tokens == match b.max_tokens {
            Some(v) => v,
            None => match a.max_tokens {
                Some(v) => v,
                None => c.max_tokens,
            },
        },
{
}

/// Merging settings applies exactly the fields they set: each field a
/// settings file sets takes the file's value, and each field it leaves out
/// keeps the configuration's value.
pub proof fn law_merge_applies_set_fields(c: AppConfigView, o: ConfigOverrides)
    ensures
        o.model_provider matches Some(v) ==> merged(c, o).model_provider == v@,
        o.model_provider is None ==> merged(c, o).model_provider == c.model_provider,
        o.model matches Some(v) ==> merged(c, o).model == v@,
        o.model is None ==> merged(c, o).model == c.model,
        o.max_tokens matches Some(v) ==> merged(c, o).max_tokens == v,
        o.max_tokens is None ==> merged(c, o).max_tokens == c.max_tokens,
        o.temperature_millis matches Some(v) ==> merged(c, o).temperature_millis == v,
        o.temperature_millis is None ==> merged(c, o).temperature_millis == c.temperature_millis,
        o.verbose matches Some(v) ==> merged(c, o).verbose == v,
        o.verbose is None ==> merged(c, o).verbose == c.verbose,
        o.debug_logging matches Some(v) ==> merged(c, o).debug_logging == v,
        o.debug_logging is None ==> merged(c, o).debug_logging == c.debug_logging,
{
}

/// Merging the same settings twice is the same as merging them once, and
/// merging settings that set nothing changes nothing.
pub proof fn law_merge_idempotent(c: AppConfigView, o: ConfigOverrides)
    ensures
        merged(merged(c, o), o) == merged(c, o),
        (o.model_provider is None && o.model is None && o.max_tokens is None && o.temperature_millis is None
            && o.verbose is None && o.debug_logging is None) ==> merged(c, o) == c,
{
}

/// The environment overrides exactly the fields whose variables are set:
/// provider and model as given, the token limit where its text parses as
/// an unsigned integer, the temperature, and the two flags as "on" for `1`
/// or `true` in any case; every other field keeps its value.
pub proof fn law_env_applies_set_variables(c: AppConfigView, e: EnvOverrides)
    ensures
        e.model_provider matches Some(v) ==> env_applied(c, e).model_provider == v@,
        e.model_provider is None ==> env_applied(c, e).model_provider == c.model_provider,
        e.model matches Some(v) ==> env_applied(c, e).model == v@,
        e.model is None ==> env_applied(c, e).model == c.model,
        (e.max_tokens is Some && parsed_u64(e.max_tokens->0@) is Some) ==> env_applied(c, e).max_tokens
            == parsed_u64(e.max_tokens->0@)->0,
        (e.max_tokens is None || parsed_u64(e.max_tokens->0@) is None) ==> env_applied(c, e).max_tokens
            == c.max_tokens,
        e.temperature_millis matches Some(t) ==> env_applied(c, e).temperature_millis == t,
        e.temperature_millis is None ==> env_applied(c, e).temperature_millis == c.temperature_millis,
        e.verbose matches Some(v) ==> env_applied(c, e).verbose == flag_on(v@),
        e.debug matches Some(v) ==> env_applied(c, e).debug_logging == flag_on(v@),
        e.verbose is None ==> env_applied(c, e).verbose == c.verbose,
        e.debug is None ==> env_applied(c, e).debug_logging == c.debug_logging,
{
}

/// With no settings file and no environment variable, the configuration is
/// the defaults: provider `fireworks`, no model, 16384 tokens, temperature
/// 0.6, quiet, no debug logging.
pub proof fn law_defaults(e: EnvOverrides)
    requires
        e.model_provider is None,
        e.model is None,
        e.max_tokens is None,
        e.temperature_millis is None,
        e.verbose is None,
        e.debug is None,
    ensures
        loaded_config(None, None, e).model_provider == "fireworks"@,
        loaded_config(None, None, e).model.len() == 0,
        loaded_config(None, None, e).max_tokens == 16384,
        loaded_config(None, None, e).temperature_millis == 600,
        !loaded_config(None, None, e).verbose,
        !loaded_config(None, None, e).debug_logging,
{
}

/// The priority order holds for the temperature and the token limit too:
/// a value set by the project wins, else the user's, else the
/// environment's, else the default.
pub proof fn law_settings_priority_numbers(
    global: Option<ConfigOverrides>,
    project: Option<ConfigOverrides>,
    env: EnvOverrides,
)
    ensures
        loaded_config(global, project, env).temperature_millis == if project is Some
            && project->0.temperature_millis is Some {
            project->0.temperature_millis->0
        } else if global is Some && global->0.temperature_millis is Some {
            global->0.temperature_millis->0
        } else if env.temperature_millis is Some {
            env.temperature_millis->0
        } else {
            600u32
        },
        loaded_config(global, project, env).max_tokens == if project is Some && project->0.max_tokens is Some {
            project->0.max_tokens->0
        } else if global is Some && global->0.max_tokens is Some {
            global->0.max_tokens->0
        } else if env.max_tokens is Some && parsed_u64(env.max_tokens->0@) is Some {
            parsed_u64(env.max_tokens->0@)->0
        } else {
            16384u64
        },
        loaded_config(global, project, env).verbose == if project is Some && project->0.verbose is Some {
            project->0.verbose->0
        } else if global is Some && global->0.verbose is Some {
            global->0.verbose->0
        } else if env.verbose is Some {
            flag_on(env.verbose->0@)
        } else {
            false
        },
        loaded_config(global, project, env).debug_logging == if project is Some
            && project->0.debug_logging is Some {
            project->0.debug_logging->0
        } else if global is Some && global->0.debug_logging is Some {
            global->0.debug_logging->0
        } else if env.debug is Some {
            flag_on(env.debug->0@)
        } else {
            false
        },
{
}

/// An environment flag is on exactly when it is `1`, or `true` in any
/// ASCII case.
pub proof fn law_flag_on(s: Seq<char>)
    ensures
        flag_on(s) == (s == "1"@ || s.map_values(|c: char| crate::text::ascii_lower(c)) == "true"@),
{
    reveal_strlit("1");
    reveal_strlit("true");
    let l = s.map_values(|c: char| crate::text::ascii_lower(c));
    if s.len() == 4 {
        if l =~= "true"@ {
            assert(l[0] == 't' && l[1] == 'r' && l[2] == 'u' && l[3] == 'e');
        }
        if flag_on(s) && s != "1"@ {
            assert(l =~= "true"@);
        }
    } else {
        if l == "true"@ {
            assert(l.len() == 4);
        }
    }
}

} // verus!
