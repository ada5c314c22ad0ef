//! Settings that tweak how a symbol is demangled.
use vstd::prelude::*;

verus! {

/// Tweak how a symbol should be demangled.
#[derive(Debug, Clone, Copy, PartialEq, Eq, PartialOrd, Ord, Hash)]
#[non_exhaustive]
pub struct DemangleConfig {
    /// Recreate a c++filt bug where it won't emit the
    /// "global constructors keyed to " prefix for a namespaced function.
    ///
    /// With it set, `_GLOBAL_$I$__Q210Scenegraph10Scenegraph` demangles to
    /// `Scenegraph::Scenegraph::Scenegraph(void)`; without it, to
    /// `global constructors keyed to Scenegraph::Scenegraph::Scenegraph(void)`.
    pub preserve_namespaced_global_constructor_bug: bool,
    /// g++ subtracts 1 from the length of array arguments and c++filt shows
    /// that length as-is; this setting adds the 1 back.
    ///
    /// With it unset, `simpler_array__FPA41_A24_Ci` demangles to
    /// `simpler_array(int const (*)[41][24])`; with it set, to
    /// `simpler_array(int const (*)[42][25])`.
    pub fix_array_length_arg: bool,
    /// Recognize and demangle symbols prefixed by `_GLOBAL_$F$`, which
    /// c++filt does not recognize, as "global frames keyed to" the rest.
    ///
    /// With it unset, `_GLOBAL_$F$__7istreamiP9streambufP7ostream` demangles
    /// to `istream::_GLOBAL_$F$(int, streambuf *, ostream *)`; with it set,
    /// to `global frames keyed to istream::istream(int, streambuf *, ostream *)`.
    pub demangle_global_keyed_frames: bool,
    /// Emit a space between a comma and an ellipsis (`...`) in the argument
    /// list.
    ///
    /// With it unset, `Printf__7ConsolePce` demangles to
    /// `Console::Printf(char *,...)`; with it set, to
    /// `Console::Printf(char *, ...)`.
    pub ellipsis_emit_space_after_comma: bool,
    /// Emit `__int128_t` and `__uint128_t`, which g++ accepts, instead of
    /// c++filt's `int128_t` and `unsigned int128_t`.
    pub fix_extension_int: bool,
    /// Emit proper C++ syntax for arrays as return types of templated
    /// functions.
    ///
    /// With it unset, `an_array__H1Zi_X01_PA3_f` demangles to
    /// `float (*)[3] an_array<int>(int)`; with it set, to
    /// `float (*an_array<int>(int))[3]`.
    pub fix_array_in_return_position: bool,
}

impl DemangleConfig {
    /// The settings that mimic c++filt's behavior, its bugs included.
    pub open spec fn cfilt() -> DemangleConfig {
        DemangleConfig {
            preserve_namespaced_global_constructor_bug: true,
            fix_array_length_arg: false,
            demangle_global_keyed_frames: false,
            ellipsis_emit_space_after_comma: false,
            fix_extension_int: false,
            fix_array_in_return_position: false,
        }
    }

    /// The settings that avoid every c++filt fault.
    pub open spec fn no_cfilt_mimics() -> DemangleConfig {
        DemangleConfig {
            preserve_namespaced_global_constructor_bug: false,
            fix_array_length_arg: true,
            demangle_global_keyed_frames: true,
            ellipsis_emit_space_after_comma: true,
            fix_extension_int: true,
            fix_array_in_return_position: true,
        }
    }

    /// The default config mimics the default (rather questionable) c++filt's
    /// behavior, including what may be considered c++filt bugs.
    ///
    /// Note this default may change in a future version.
    pub fn new() -> (c: Self)
        ensures
            c == Self::cfilt(),
    {
        Self::new_mimic_cfilt()
    }

    /// The config that mimics the default (rather questionable) c++filt's
    /// behavior, including what may be considered c++filt bugs.
    pub fn new_mimic_cfilt() -> (c: Self)
        ensures
            c == Self::cfilt(),
    {
        Self {
            preserve_namespaced_global_constructor_bug: true,
            fix_array_length_arg: false,
            demangle_global_keyed_frames: false,
            ellipsis_emit_space_after_comma: false,
            fix_extension_int: false,
            fix_array_in_return_position: false,
        }
    }

    /// Avoid using any option that mimics c++filt faults.
    pub fn new_no_cfilt_mimics() -> (c: Self)
        ensures
            c == Self::no_cfilt_mimics(),
    {
        Self {
            preserve_namespaced_global_constructor_bug: false,
            fix_array_length_arg: true,
            demangle_global_keyed_frames: true,
            ellipsis_emit_space_after_comma: true,
            fix_extension_int: true,
            fix_array_in_return_position: true,
        }
    }
}

impl Default for DemangleConfig {
    fn default() -> (c: Self)
        ensures
            c == DemangleConfig::cfilt(),
    {
        Self::new()
    }
}

} // verus!
