use vstd::prelude::*;

verus! {

/// The resolved style options consumed by the formatter.
///
/// A `Configuration` is built once and read throughout a formatting call;
/// the formatter never mutates it.
#[derive(Debug, Clone, Copy, PartialEq, Eq, Structural)]
pub struct Configuration {
    /// count of spaces added per nesting level
    pub indent_width: u8,
    /// pad dictionary and keyword-argument keys to a common width
    pub align_colon: bool,
    /// put a space between a key and its `:`
    pub space_before_colon: bool,
    /// pad the interior of single-line brackets with one space
    pub space_inner_bracket: bool,
    /// place the closing delimiter of a multiline list on its own line,
    /// keeping the trailing comma of the last item
    pub wrap_close_brace: bool,
    /// keep a recognized call's first positional argument on the header line
    /// even when the argument list is rendered multiline
    pub nowrap_before_name: bool,
}

impl Configuration {
    /// The default style: two-space indent, no alignment or extra padding,
    /// wrapped closing braces, and the first argument of a recognized call
    /// kept on the header line.
    pub open spec fn spec_default() -> Configuration {
        Configuration {
            indent_width: 2,
            align_colon: false,
            space_before_colon: false,
            space_inner_bracket: false,
            wrap_close_brace: true,
            nowrap_before_name: true,
        }
    }
}

impl Default for Configuration {
    fn default() -> (c: Configuration)
        ensures
            c == Configuration::spec_default(),
    {
        Configuration {
            indent_width: 2,
            align_colon: false,
            space_before_colon: false,
            space_inner_bracket: false,
            wrap_close_brace: true,
            nowrap_before_name: true,
        }
    }
}

} // verus!
