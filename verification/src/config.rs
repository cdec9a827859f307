//! Configuration of output and behaviour.
use crate::events::EventEmitter;
use crate::reporter::Reporter;
use crate::text::{lowercase_of, to_lowercase};
use vstd::prelude::*;
use vstd::string::*;

verus! {

/// Configuration for the output and behaviour of the engine.
#[derive(Debug)]
pub struct Config {
    /// Colored output
    pub use_colors: bool,
    /// Unicode symbols in the output
    pub use_unicode_symbols: bool,
    /// Details for successful tests
    pub show_success_details: bool,
    /// Enhanced test output (fluent assertions instead of standard output)
    pub enhanced_output: bool,
}

/// Whether a text in lower case is one of the values that switch a setting
/// on: "true", "1" or "yes".
pub open spec fn is_truthy(lowered: Seq<char>) -> bool {
    lowered == "true"@ || lowered == "1"@ || lowered == "yes"@
}

/// What the environment asks for: enhanced output when the variable is set
/// to a truthy value, in any case of letters; standard output otherwise.
pub open spec fn enhanced_from_env(value: Option<Seq<char>>) -> bool {
    match value {
        Some(v) => is_truthy(lowercase_of(v)),
        None => false,
    }
}

/// The defaults: colors, symbols and success details on.
pub open spec fn defaults(enhanced_output: bool) -> Config {
    Config {
        use_colors: true,
        use_unicode_symbols: true,
        show_success_details: true,
        enhanced_output,
    }
}

/// Whether a text in lower case is one of the values that switch a setting
/// on.
pub fn truthy(lowered: &str) -> (r: bool)
    ensures
        r == is_truthy(lowered@),
{
    lowered.eq("true") || lowered.eq("1") || lowered.eq("yes")
}

impl Clone for Config {
    fn clone(&self) -> (r: Self)
        ensures
            r == *self,
    {
        Config {
            use_colors: self.use_colors,
            use_unicode_symbols: self.use_unicode_symbols,
            show_success_details: self.show_success_details,
            enhanced_output: self.enhanced_output,
        }
    }
}

impl Default for Config {
    fn default() -> (r: Self)
        ensures
            r == defaults(false),
    {
        Config::new(None)
    }
}

impl Config {
    /// Creates a new configuration with default settings. `env_value` is
    /// what the environment holds for the enhanced-output variable, if it is
    /// set.
    pub fn new(env_value: Option<&str>) -> (r: Self)
        ensures
            r == defaults(
                enhanced_from_env(
                    match env_value {
                        Some(v) => Some(v@),
                        None => None,
                    },
                ),
            ),
    {
        let enhanced_from_env = match env_value {
            Some(value) => truthy(to_lowercase(value).as_str()),
            None => false,
        };
        Config {
            use_colors: true,
            use_unicode_symbols: true,
            show_success_details: true,
            enhanced_output: enhanced_from_env,
        }
    }

    /// Enable or disable colored output.
    pub fn use_colors(self, enable: bool) -> (r: Self)
        ensures
            r == (Config { use_colors: enable, ..self }),
    {
        let mut config = self;
        config.use_colors = enable;
        config
    }

    /// Enable or disable Unicode symbols.
    pub fn use_unicode_symbols(self, enable: bool) -> (r: Self)
        ensures
            r == (Config { use_unicode_symbols: enable, ..self }),
    {
        let mut config = self;
        config.use_unicode_symbols = enable;
        config
    }

    /// Control whether to show details for successful tests.
    pub fn show_success_details(self, enable: bool) -> (r: Self)
        ensures
            r == (Config { show_success_details: enable, ..self }),
    {
        let mut config = self;
        config.show_success_details = enable;
        config
    }

    /// Enable or disable enhanced output (fluent assertions).
    pub fn enhanced_output(self, enable: bool) -> (r: Self)
        ensures
            r == (Config { enhanced_output: enable, ..self }),
    {
        let mut config = self;
        config.enhanced_output = enable;
        config
    }

    /// Apply the configuration: it takes the place of the shared one. Where
    /// it asks for enhanced output the event system is started and a fresh
    /// reporter handed back.
    pub fn apply(self, shared: &mut Config, emitter: &mut EventEmitter) -> (r: Option<Reporter>)
        ensures
            *final(shared) == self,
            started(old(emitter)@, final(emitter)@, r, self.enhanced_output),
    {
        let config = self.clone();
        *shared = self;
        initialize(&config, emitter)
    }
}

/// What starting the engine under a configuration comes to: with enhanced
/// output the event system is initialized and there is a reporter in its
/// initial state; without, nothing changes and there is none.
pub open spec fn started(
    before: crate::events::EmitterView,
    after: crate::events::EmitterView,
    reporter: Option<Reporter>,
    enhanced_output: bool,
) -> bool {
    if enhanced_output {
        &&& after == (crate::events::EmitterView { initialized: true, ..before })
        &&& reporter matches Some(r) && r.well_formed() && r@ == crate::reporter::initial()
    } else {
        after == before && reporter is None
    }
}

/// Initialize the engine: with enhanced output enabled in the configuration
/// the event system is initialized and a reporter made.
pub fn initialize(config: &Config, emitter: &mut EventEmitter) -> (r: Option<Reporter>)
    ensures
        started(old(emitter)@, final(emitter)@, r, config.enhanced_output),
{
    if config.enhanced_output {
        emitter.init();
        Some(Reporter::init())
    } else {
        None
    }
}

/// Check if enhanced output is enabled in the configuration.
pub fn is_enhanced_output_enabled(config: &Config) -> (r: bool)
    ensures
        r == config.enhanced_output,
{
    config.enhanced_output
}

/// Creates a new test configuration from what the environment holds.
pub fn config(env_value: Option<&str>) -> (r: Config)
    ensures
        r == defaults(
            enhanced_from_env(
                match env_value {
                    Some(v) => Some(v@),
                    None => None,
                },
            ),
        ),
{
    Config::new(env_value)
}

/// Initialization for tests: the configuration that the environment asks
/// for is applied where it enables enhanced output; otherwise nothing
/// changes.
pub fn auto_initialize_for_tests(
    env_value: Option<&str>,
    shared: &mut Config,
    emitter: &mut EventEmitter,
) -> (r: Option<Reporter>)
    ensures
        ({
            let enhanced = enhanced_from_env(
                match env_value {
                    Some(v) => Some(v@),
                    None => None,
                },
            );
            &&& *final(shared) == if enhanced {
                defaults(true)
            } else {
                *old(shared)
            }
            &&& started(old(emitter)@, final(emitter)@, r, enhanced)
        }),
{
    let config = Config::new(env_value);
    if config.enhanced_output {
        config.apply(shared, emitter)
    } else {
        None
    }
}

} // verus!
