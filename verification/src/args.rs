//! The signature model: an ordered parameter list, rendered three ways.
//!
//! A parameter list renders as a native declaration (`<type> arg<i>, ...`),
//! as a foreign declaration (`arg<i>: <type>, ...`), and as a native
//! forwarding call (`arg<i>` with one dereference for reference parameters).
//! All three iterate the parameters in their declared order.

use vstd::prelude::*;

use crate::proto::basic_cpp;
use crate::proto::basic_rs;
use crate::proto::spec_is_ref;
use crate::proto::BasicType;
use crate::proto::BasicTypeView;
use crate::text::dec_str;
use crate::text::emit;
use crate::text::lemma_take_all;
use crate::text::lemma_take_snoc;
use crate::text::push_dec;

verus! {

/// An ordered parameter list.  The studied native surfaces never need more
/// than three parameters, but nothing here depends on a bound.
pub struct FunctionArgs {
    pub args: Vec<BasicType>,
}

impl View for FunctionArgs {
    type V = Seq<BasicTypeView>;

    open spec fn view(&self) -> Seq<BasicTypeView> {
        self.args@.map(|i: int, b: BasicType| b@)
    }
}

/// A full function signature: a return type and a parameter list.
pub struct Function {
    pub ret: BasicType,
    pub args: FunctionArgs,
}

/// Mathematical image of a `Function`.
pub struct FunctionView {
    pub ret: BasicTypeView,
    pub args: Seq<BasicTypeView>,
}

impl View for Function {
    type V = FunctionView;

    open spec fn view(&self) -> FunctionView {
        FunctionView { ret: self.ret@, args: self.args@ }
    }
}

/// A method: a signature plus its constness flag.
pub struct Method {
    pub func: Function,
    pub is_const: bool,
}

/// Mathematical image of a `Method`.
pub struct MethodView {
    pub func: FunctionView,
    pub is_const: bool,
}

impl View for Method {
    type V = MethodView;

    open spec fn view(&self) -> MethodView {
        MethodView { func: self.func@, is_const: self.is_const }
    }
}

/// Packs a signature and a constness flag into a `Method`.
pub fn method(func: Function, is_const: bool) -> (r: Method)
    ensures
        r@ == (MethodView { func: func@, is_const: is_const }),
{
    Method { func: func, is_const: is_const }
}

/// The positional name of parameter `i`.
pub open spec fn arg_name(i: nat) -> Seq<char> {
    "arg"@ + dec_str(i)
}

/// One parameter of the native declaration rendering.
pub open spec fn cpp_decl_piece(t: BasicTypeView, i: nat) -> Seq<char> {
    basic_cpp(t) + " "@ + arg_name(i)
}

/// The dereference operator of the forwarding rendering: reference
/// parameters were declared as pointers, so the call site dereferences
/// exactly them, exactly once.
pub open spec fn deref_op(t: BasicTypeView) -> Seq<char> {
    if spec_is_ref(t) {
        "*"@
    } else {
        Seq::empty()
    }
}

/// One parameter of the native forwarding rendering.
pub open spec fn apply_piece(t: BasicTypeView, i: nat) -> Seq<char> {
    " "@ + deref_op(t) + arg_name(i)
}

/// One parameter of the foreign declaration rendering.
pub open spec fn rs_decl_piece(t: BasicTypeView, i: nat) -> Seq<char> {
    arg_name(i) + ": "@ + basic_rs(t)
}

/// Joins rendered pieces with a `", "` separator.
pub open spec fn join_comma(pieces: Seq<Seq<char>>) -> Seq<char>
    decreases pieces.len(),
{
    if pieces.len() == 0 {
        Seq::empty()
    } else if pieces.len() == 1 {
        pieces[0]
    } else {
        join_comma(pieces.drop_last()) + ", "@ + pieces.last()
    }
}

/// Unrolls `join_comma` over a prefix by one piece.
pub proof fn lemma_join_comma_snoc(pieces: Seq<Seq<char>>, i: int)
    requires
        0 <= i < pieces.len(),
    ensures
        i == 0 ==> join_comma(pieces.take(1)) == pieces[0],
        i > 0 ==> join_comma(pieces.take(i + 1)) == join_comma(pieces.take(i)) + ", "@
            + pieces[i],
{
    lemma_take_snoc(pieces, i);
    if i == 0 {
        assert(pieces.take(1)[0] == pieces[0]);
    }
}

/// The native declaration rendering of a whole parameter list.
pub open spec fn proto_cpp_text(args: Seq<BasicTypeView>) -> Seq<char> {
    join_comma(Seq::new(args.len(), |i: int| cpp_decl_piece(args[i], i as nat)))
}

/// The native forwarding rendering of a whole parameter list.
pub open spec fn apply_cpp_text(args: Seq<BasicTypeView>) -> Seq<char> {
    join_comma(Seq::new(args.len(), |i: int| apply_piece(args[i], i as nat)))
}

/// The foreign declaration rendering of a whole parameter list.
pub open spec fn proto_rs_text(args: Seq<BasicTypeView>) -> Seq<char> {
    join_comma(Seq::new(args.len(), |i: int| rs_decl_piece(args[i], i as nat)))
}

impl FunctionArgs {
    /// The parameters as a slice, `None` when the list is empty.
    pub fn as_slice(&self) -> (r: Option<&[BasicType]>)
        ensures
            match r {
                Option::None => self@.len() == 0,
                Option::Some(s) => s@.len() == self@.len() && forall|i: int|
                    0 <= i < s@.len() ==> s@[i]@ == self@[i],
            },
    {
        if self.args.len() == 0 {
            Option::None
        } else {
            Option::Some(self.args.as_slice())
        }
    }

    /// The number of parameters.
    pub fn len(&self) -> (r: usize)
        ensures
            r == self@.len(),
    {
        self.args.len()
    }

    /// Writes the native declaration rendering of this parameter list.
    pub fn generate_proto_cpp(&self, out_stream: &mut String)
        ensures
            final(out_stream)@ == old(out_stream)@ + proto_cpp_text(self@),
    {
        let ghost pieces = Seq::new(self@.len(), |i: int| cpp_decl_piece(self@[i], i as nat));
        let n = self.args.len();
        let mut i: usize = 0;
        proof {
            assert(out_stream@ =~= out_stream@ + join_comma(pieces.take(0)));
        }
        while i < n
            invariant
                i <= n,
                n == self@.len(),
                pieces.len() == n,
                forall|j: int| 0 <= j < n ==> pieces[j] == cpp_decl_piece(self@[j], j as nat),
                out_stream@ == old(out_stream)@ + join_comma(pieces.take(i as int)),
            decreases n - i,
        {
            if i > 0 {
                emit(out_stream, ", ");
            }
            self.args[i].generate_cpp(out_stream);
            emit(out_stream, " ");
            emit(out_stream, "arg");
            push_dec(out_stream, i);
            proof {
                assert(self@[i as int] == self.args@[i as int]@);
                lemma_join_comma_snoc(pieces, i as int);
                assert(out_stream@ =~= old(out_stream)@ + join_comma(pieces.take(i as int + 1)));
            }
            i = i + 1;
        }
        proof {
            lemma_take_all(pieces);
        }
    }

    /// Writes the native forwarding rendering of this parameter list.
    pub fn generate_apply_cpp(&self, out_stream: &mut String)
        ensures
            final(out_stream)@ == old(out_stream)@ + apply_cpp_text(self@),
    {
        let ghost pieces = Seq::new(self@.len(), |i: int| apply_piece(self@[i], i as nat));
        let n = self.args.len();
        let mut i: usize = 0;
        proof {
            assert(out_stream@ =~= out_stream@ + join_comma(pieces.take(0)));
        }
        while i < n
            invariant
                i <= n,
                n == self@.len(),
                pieces.len() == n,
                forall|j: int| 0 <= j < n ==> pieces[j] == apply_piece(self@[j], j as nat),
                out_stream@ == old(out_stream)@ + join_comma(pieces.take(i as int)),
            decreases n - i,
        {
            if i > 0 {
                emit(out_stream, ", ");
            }
            emit(out_stream, " ");
            if self.args[i].is_ref() {
                emit(out_stream, "*");
            }
            emit(out_stream, "arg");
            push_dec(out_stream, i);
            proof {
                assert(self@[i as int] == self.args@[i as int]@);
                lemma_join_comma_snoc(pieces, i as int);
                assert(out_stream@ =~= old(out_stream)@ + join_comma(pieces.take(i as int + 1)));
            }
            i = i + 1;
        }
        proof {
            lemma_take_all(pieces);
        }
    }

    /// Writes the foreign declaration rendering of this parameter list.
    pub fn generate_proto_rs(&self, out_stream: &mut String)
        ensures
            final(out_stream)@ == old(out_stream)@ + proto_rs_text(self@),
    {
        let ghost pieces = Seq::new(self@.len(), |i: int| rs_decl_piece(self@[i], i as nat));
        let n = self.args.len();
        let mut i: usize = 0;
        proof {
            assert(out_stream@ =~= out_stream@ + join_comma(pieces.take(0)));
        }
        while i < n
            invariant
                i <= n,
                n == self@.len(),
                pieces.len() == n,
                forall|j: int| 0 <= j < n ==> pieces[j] == rs_decl_piece(self@[j], j as nat),
                out_stream@ == old(out_stream)@ + join_comma(pieces.take(i as int)),
            decreases n - i,
        {
            if i > 0 {
                emit(out_stream, ", ");
            }
            emit(out_stream, "arg");
            push_dec(out_stream, i);
            emit(out_stream, ": ");
            self.args[i].generate_rs(out_stream);
            proof {
                assert(self@[i as int] == self.args@[i as int]@);
                lemma_join_comma_snoc(pieces, i as int);
                assert(out_stream@ =~= old(out_stream)@ + join_comma(pieces.take(i as int + 1)));
            }
            i = i + 1;
        }
        proof {
            lemma_take_all(pieces);
        }
    }
}

} // verus!
