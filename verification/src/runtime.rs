//! The runtime handle and its builder. A handle owns the engine state for
//! its whole lifetime: construction validates the argument list before
//! anything crosses the engine boundary and fails fast with
//! `RuntimeCreationFailed` on a list the engine would reject, and teardown
//! happens exactly once, when the single owner goes out of scope. The
//! handle is move-only, so no second live instance can be conjured from an
//! existing one.

use vstd::prelude::*;
use vstd::string::StringSliceAdditionalSpecFns;

use crate::error::RayforceError;
use crate::eval::{error_obj, eval_bytes, eval_obj_spec, eval_spec, is_literal};
use crate::value::{lemma_deep_index, RayObj, RayVal};

verus! {

/// The engine version this runtime reports; always positive.
pub const ENGINE_VERSION: u8 = 1;

/// The program token that must lead every argument list: `rayforce`.
pub open spec fn program_token() -> Seq<u8> {
    seq![114u8, 97u8, 121u8, 102u8, 111u8, 114u8, 99u8, 101u8]
}

/// The one recognized flag, `-r`, selecting the run mode; it takes a
/// decimal value argument.
pub open spec fn repl_flag() -> Seq<u8> {
    seq![45u8, 114u8]
}

/// No zero byte: each token crosses the engine boundary as a
/// zero-terminated string, so an interior zero would truncate it.
pub open spec fn nul_free(s: Seq<u8>) -> bool {
    forall|i: int| 0 <= i < s.len() ==> s[i] != 0
}

pub open spec fn all_nul_free(args: Seq<Seq<u8>>) -> bool {
    forall|i: int| 0 <= i < args.len() ==> nul_free(#[trigger] args[i])
}

/// An argument list the engine initializer accepts: the program token
/// first, every token free of zero bytes, and then either nothing or the
/// run-mode flag with a decimal value.
pub open spec fn valid_args(args: Seq<Seq<u8>>) -> bool {
    &&& args.len() >= 1
    &&& args[0] == program_token()
    &&& all_nul_free(args)
    &&& (args.len() == 1 || (args.len() == 3 && args[1] == repl_flag() && is_literal(args[2])))
}

/// Builds the ordered argument list consumed by `Rayforce`: the program
/// token, then each appended token in order.
pub struct RayforceBuilder {
    args: Vec<Vec<u8>>,
}

impl View for RayforceBuilder {
    type V = Seq<Seq<u8>>;

    closed spec fn view(&self) -> Seq<Seq<u8>> {
        self.args.deep_view()
    }
}

/// The engine state owned by a live handle.
pub struct RuntimeState {
    pub version: u8,
    pub args: Vec<Vec<u8>>,
}

/// A live runtime handle: the process-wide owner of the engine state.
/// Move-only; dropping it tears the engine state down exactly once.
pub struct Rayforce {
    state: RuntimeState,
}

fn program_token_vec() -> (r: Vec<u8>)
    ensures
        r@ == program_token(),
{
    let mut v: Vec<u8> = Vec::new();
    v.push(114u8);
    v.push(97u8);
    v.push(121u8);
    v.push(102u8);
    v.push(111u8);
    v.push(114u8);
    v.push(99u8);
    v.push(101u8);
    proof {
        assert(v@ =~= program_token());
    }
    v
}

fn repl_flag_vec() -> (r: Vec<u8>)
    ensures
        r@ == repl_flag(),
{
    let mut v: Vec<u8> = Vec::new();
    v.push(45u8);
    v.push(114u8);
    proof {
        assert(v@ =~= repl_flag());
    }
    v
}

/// Whether two byte vectors hold the same bytes.
fn eq_bytes(a: &Vec<u8>, b: &Vec<u8>) -> (r: bool)
    ensures
        r == (a@ == b@),
{
    if a.len() != b.len() {
        return false;
    }
    let mut i: usize = 0;
    while i < a.len()
        invariant
            i <= a.len(),
            a.len() == b.len(),
            forall|j: int| 0 <= j < i ==> a@[j] == b@[j],
        decreases a.len() - i,
    {
        if a[i] != b[i] {
            return false;
        }
        i = i + 1;
    }
    proof {
        assert(a@ =~= b@);
    }
    true
}

fn args_valid_exec(args: &Vec<Vec<u8>>) -> (r: bool)
    ensures
        r == valid_args(args.deep_view()),
{
    let ghost model = args.deep_view();
    if args.len() == 0 {
        return false;
    }
    proof {
        lemma_deep_index(*args, 0);
    }
    if !eq_bytes(&args[0], &program_token_vec()) {
        return false;
    }
    let mut i: usize = 0;
    while i < args.len()
        invariant
            i <= args.len(),
            model == args.deep_view(),
            model.len() == args@.len(),
            forall|k: int| 0 <= k < i ==> nul_free(#[trigger] model[k]),
        decreases args.len() - i,
    {
        proof {
            lemma_deep_index(*args, i as int);
        }
        let a = &args[i];
        let mut j: usize = 0;
        while j < a.len()
            invariant
                j <= a.len(),
                i < model.len(),
                model == args.deep_view(),
                a@ == model[i as int],
                forall|l: int| 0 <= l < j ==> a@[l] != 0,
            decreases a.len() - j,
        {
            if a[j] == 0 {
                proof {
                    assert(!nul_free(model[i as int]));
                    assert(!all_nul_free(model));
                }
                return false;
            }
            j = j + 1;
        }
        assert(nul_free(model[i as int]));
        i = i + 1;
    }
    assert(all_nul_free(model));
    if args.len() == 1 {
        return true;
    }
    if args.len() != 3 {
        return false;
    }
    proof {
        lemma_deep_index(*args, 1);
        lemma_deep_index(*args, 2);
    }
    if !eq_bytes(&args[1], &repl_flag_vec()) {
        return false;
    }
    let value_len = args[2].len();
    if value_len < 1 || value_len > 18 {
        proof {
            assert(!is_literal(model[2]));
        }
        return false;
    }
    let v = &args[2];
    let mut j: usize = 0;
    while j < v.len()
        invariant
            j <= v.len(),
            model.len() == 3,
            model == args.deep_view(),
            v@ == model[2],
            forall|l: int| 0 <= l < j ==> crate::eval::is_digit(#[trigger] v@[l]),
        decreases v.len() - j,
    {
        if v[j] < 48 || v[j] > 57 {
            proof {
                assert(!crate::eval::is_digit(model[2][j as int]));
                assert(!crate::eval::all_digits(model[2]));
                assert(!is_literal(model[2]));
            }
            return false;
        }
        j = j + 1;
    }
    proof {
        assert(crate::eval::all_digits(model[2]));
        assert(is_literal(model[2]));
        assert(valid_args(model));
    }
    true
}

impl RayforceBuilder {
    /// A builder holding only the program token.
    pub fn new() -> (r: Self)
        ensures
            r@ == seq![program_token()],
    {
        let mut args: Vec<Vec<u8>> = Vec::new();
        args.push(program_token_vec());
        proof {
            lemma_deep_index(args, 0);
            assert(args.deep_view() =~= seq![program_token()]);
        }
        RayforceBuilder { args }
    }

    /// Append one positional argument token.
    pub fn with_arg(self, arg: &str) -> (r: Self)
        ensures
            r@ == self@.push(arg.spec_bytes()),
    {
        let mut args = self.args;
        let bytes = arg.as_bytes();
        let mut tok: Vec<u8> = Vec::new();
        let mut i: usize = 0;
        while i < bytes.len()
            invariant
                i <= bytes.len(),
                tok@ == bytes@.take(i as int),
            decreases bytes.len() - i,
        {
            tok.push(bytes[i]);
            i = i + 1;
            proof {
                assert(tok@ =~= bytes@.take(i as int));
            }
        }
        proof {
            assert(tok@ =~= bytes@);
        }
        let ghost prior = args;
        args.push(tok);
        proof {
            assert forall|k: int| 0 <= k < args.deep_view().len() implies #[trigger] args.deep_view()[k]
                == prior.deep_view().push(arg.spec_bytes())[k] by {
                if k < prior@.len() {
                    assert(args@[k] == prior@[k]);
                } else {
                    assert(args@[k] == tok);
                    assert(args.deep_view()[k] =~= tok@);
                }
            }
            assert(args.deep_view() =~= prior.deep_view().push(arg.spec_bytes()));
        }
        RayforceBuilder { args }
    }

    /// Validate the argument list and check the runtime out. Fails with
    /// `RuntimeCreationFailed` exactly when the engine initializer would
    /// reject the list.
    pub fn build(self) -> (r: Result<Rayforce, RayforceError>)
        ensures
            valid_args(self@) ==> (r matches Ok(h) && h.version_spec() == ENGINE_VERSION
                && h.args_spec() == self@),
            !valid_args(self@) ==> (r matches Err(e) && e
                == RayforceError::RuntimeCreationFailed),
    {
        if !args_valid_exec(&self.args) {
            return Err(RayforceError::RuntimeCreationFailed);
        }
        Ok(Rayforce { state: RuntimeState { version: ENGINE_VERSION, args: self.args } })
    }
}

impl Rayforce {
    /// The version the live engine reports.
    pub closed spec fn version_spec(self) -> u8 {
        self.state.version
    }

    /// The argument list the engine was created from.
    pub closed spec fn args_spec(self) -> Seq<Seq<u8>> {
        self.state.args.deep_view()
    }

    /// A runtime in the embedded run mode: the program token followed by
    /// the run-mode flag with value `0`.
    pub fn new() -> (r: Result<Self, RayforceError>)
        ensures
            r matches Ok(h) && h.version_spec() == ENGINE_VERSION && h.args_spec() == seq![
                program_token(),
                repl_flag(),
                seq![48u8],
            ],
    {
        let b = RayforceBuilder::new().with_arg("-r").with_arg("0");
        proof {
            reveal_strlit("-r");
            reveal_strlit("0");
            assert(("-r")@ =~= seq!['-', 'r']);
            assert(("0")@ =~= seq!['0']);
            assert(vstd::utf8::is_ascii_chars(("-r")@));
            assert(vstd::utf8::is_ascii_chars(("0")@));
            vstd::utf8::is_ascii_chars_encode_utf8(("-r")@);
            vstd::utf8::is_ascii_chars_encode_utf8(("0")@);
            assert(("-r").spec_bytes() =~= repl_flag());
            assert(("0").spec_bytes() =~= seq![48u8]);
            assert(b@ =~= seq![program_token(), repl_flag(), seq![48u8]]);
            assert(valid_args(b@)) by {
                assert(b@[0] == program_token());
                assert(forall|i: int| 0 <= i < 8 ==> program_token()[i] != 0);
                assert(forall|i: int| 0 <= i < 2 ==> repl_flag()[i] != 0);
                assert(nul_free(b@[0]));
                assert(nul_free(b@[1]));
                assert(nul_free(b@[2]));
                assert(crate::eval::is_digit(seq![48u8][0]));
                assert(crate::eval::all_digits(b@[2]));
            }
        }
        b.build()
    }

    /// The engine's reported version; positive for every live handle.
    pub fn get_version(&self) -> (r: u8)
        ensures
            r == self.version_spec(),
    {
        self.state.version
    }

    /// The raw underlying runtime state.
    pub fn as_ptr(&self) -> (r: &RuntimeState)
        ensures
            r.version == self.version_spec(),
            r.args.deep_view() == self.args_spec(),
    {
        &self.state
    }

    /// Evaluate one request line.
    pub fn eval_str(&self, code: &[u8]) -> (r: RayObj)
        ensures
            r@ == eval_spec(code@),
    {
        eval_bytes(code)
    }

    /// Evaluate a code value. The context name identifies this runtime in
    /// the engine's diagnostics only; the result does not depend on it. A
    /// non-text code value is rejected with the error value.
    pub fn eval_obj_str(&self, code: &RayObj, _name: &RayObj) -> (r: RayObj)
        ensures
            r@ == eval_obj_spec(code@),
    {
        match code.as_bytes() {
            Ok(b) => eval_bytes(b.as_slice()),
            Err(_) => error_obj(),
        }
    }
}

} // verus!
