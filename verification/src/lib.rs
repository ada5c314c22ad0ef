use vstd::prelude::*;

pub mod input;
pub mod text;
pub mod remainer;
pub mod str_cutter;
pub mod demangle_config;
pub mod demangle_error;
pub mod dem;
pub mod dem_arg;
pub mod dem_arg_list;
pub mod dem_namespace;
pub mod dem_template;
pub mod demangler;
pub mod settings;

pub use demangle_config::DemangleConfig;
pub use demangle_error::DemangleError;
pub use demangler::{demangle, demangle_line, demangle_or_echo};
pub use settings::{DemanglingStyle, LabelPosition};

verus! {
} // verus!
