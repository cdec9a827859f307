//! The matchers: each supplies an outcome and a sentence, and appends them
//! to the chain as one step.
pub mod boolean;
pub mod collection;
pub mod common;
pub mod equality;
pub mod hashmap;
pub mod numeric;
pub mod option;
pub mod result;
pub mod string;

pub use boolean::BooleanMatchers;
pub use collection::{CollectionExtensions, CollectionMatchers};
pub use equality::EqualityMatchers;
pub use hashmap::HashMapMatchers;
pub use numeric::NumericMatchers;
pub use option::OptionMatchers;
pub use result::ResultMatchers;
pub use string::{StringExt, StringMatchers};
