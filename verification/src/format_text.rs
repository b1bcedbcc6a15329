use vstd::prelude::*;

use crate::configuration::Configuration;
use crate::model::{len_ok, spec_format, ErrModel};
use crate::parser::ParseError;
use crate::text::chars_of;

verus! {

/// Re-render one source text into the canonical layout chosen by `config`.
///
/// The result is exactly what the model says: `spec_format` applied to the
/// text's characters, either the formatted text or the first error, with no
/// partial output and never an internal `FmtError`. The length bound keeps
/// every indent computation inside `usize`; it admits any text shorter than
/// about 2^56 characters.
pub fn format_text(file_text: &str, config: &Configuration) -> (r: Result<String, ParseError>)
    requires
        len_ok(file_text@),
    ensures
        ({
            let m = spec_format(file_text@, *config);
            match r {
                Ok(out) => m == Ok::<Seq<char>, ErrModel>(out@),
                Err(e) => m == Err::<Seq<char>, ErrModel>(e@) && !(e is FmtError),
            }
        }),
{
    let chars = chars_of(file_text);
    let mut formatted = String::new();
    match crate::parser::parse(config, &chars, &mut formatted) {
        Ok(()) => {
            proof {
                let m = spec_format(file_text@, *config);
                assert(Seq::<char>::empty() + m->Ok_0 =~= m->Ok_0);
            }
            Ok(formatted)
        },
        Err(e) => Err(e),
    }
}

} // verus!
