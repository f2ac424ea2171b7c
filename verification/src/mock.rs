//! The compiler pipeline: tokenize, parse, generate.

use vstd::prelude::*;
use crate::gen::{gen_err, gen_text, generate};
use crate::ir::{GenErr, MockSpec, Tok, tv};
use crate::lex::{lex, lex_of};
use crate::parse::{parse_outcome, parse_spec, print_spec, spec_wf};

verus! {

/// Compiles a mock specification to the generated source text.
///
/// The result is tied to the input's token sequence `lex_of(input@)`
/// through a tokenization witness: success is owed whenever the tokens
/// conform to the grammar (`parse_outcome` is `Ok`) and generation accepts
/// every construct, and then there is a well-formed representation that
/// prints back to exactly those tokens and whose generated text is the
/// result.  A failure is exactly the parsing stage's diagnostic on those
/// tokens, or a generation error that rejects some such representation.
/// No output is produced on any failure.
pub fn do_mock(input: &str) -> (r: Result<String, GenErr>)
    ensures
        r is Ok ==> exists|ts: Seq<Tok>|
            #[trigger] tv(ts) == lex_of(input@) && parse_outcome(ts) is Ok,
        r matches Ok(s) ==> exists|m: MockSpec|
            #[trigger] print_spec(m) == lex_of(input@) && spec_wf(m) && gen_err(m) is None && s@
                == gen_text(m),
        r matches Err(e) ==> (exists|ts: Seq<Tok>|
            #[trigger] tv(ts) == lex_of(input@) && parse_outcome(ts) == Result::<(), GenErr>::Err(
                e)) || exists|m: MockSpec|
            #[trigger] print_spec(m) == lex_of(input@) && spec_wf(m) && gen_err(m)
                == Option::Some(e),
{
    let toks = lex(input);
    let m = match parse_spec(&toks) {
        Result::Ok(m) => m,
        Result::Err(e) => {
            proof {
                assert(tv(toks@) == lex_of(input@) && parse_outcome(toks@)
                    == Result::<(), GenErr>::Err(e));
            }
            return Result::Err(e);
        },
    };
    match generate(&m) {
        Result::Ok(s) => {
            proof {
                assert(tv(toks@) == lex_of(input@) && parse_outcome(toks@) is Ok);
                assert(print_spec(m) == lex_of(input@) && spec_wf(m) && gen_err(m) is None && s@
                    == gen_text(m));
            }
            Result::Ok(s)
        },
        Result::Err(e) => {
            proof {
                assert(print_spec(m) == lex_of(input@) && spec_wf(m) && gen_err(m)
                    == Option::Some(e));
            }
            Result::Err(e)
        },
    }
}

} // verus!
