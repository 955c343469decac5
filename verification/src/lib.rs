use vstd::prelude::*;

pub mod error;
pub mod format;
pub mod parse;
pub mod path;
pub mod resolve;
pub mod settings;
pub mod traverse;
pub mod value;

pub use error::{TomlPathError, TraverseError};
pub use path::{Index, Op, TomlPath};
pub use settings::Settings;
pub use value::Value;

use error::ErrV;
use format::spec_format;
use traverse::{spec_traverse, traverse};
use value::Val;

verus! {

/// Get the value(s) a path selects from a document tree, rendered
/// under the given settings: the path's operations are applied to the
/// tree and the selected subtree is rendered as text.
pub fn get(toml: &Value, path: &TomlPath, settings: &Settings) -> (r: Result<
    String,
    TraverseError,
>)
    requires
        path.parts@.len() >= 1,
    ensures
        match r {
            Ok(s) => spec_traverse(toml@, path@) matches Ok(v) && s@ == spec_format(
                v,
                *settings,
                0,
            ),
            Err(e) => spec_traverse(toml@, path@) == Err::<Val, ErrV>(e@),
        },
{
    match traverse(toml, path.parts()) {
        Ok(value) => Ok(format::format_value(&value, settings)),
        Err(e) => Err(e),
    }
}

} // verus!
