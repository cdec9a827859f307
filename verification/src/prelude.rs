//! Everything a test needs to write assertions: the assertion itself, the
//! matchers and the modifiers.
pub use crate::assertion::Assertion;
pub use crate::config::{config, initialize, Config};
pub use crate::matchers::{
    BooleanMatchers, CollectionExtensions, CollectionMatchers, EqualityMatchers, HashMapMatchers,
    NumericMatchers, OptionMatchers, ResultMatchers, StringMatchers,
};
pub use crate::modifiers::{AndModifier, NotModifier, OrModifier};
pub use crate::reporter::Reporter;
