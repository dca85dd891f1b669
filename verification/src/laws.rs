//! The guarantees that hold across the two emitted artifacts, stated and
//! proved once and for all:
//!
//! * both declaration renderings agree on parameter count, names and order;
//! * reference parameters are declared as pointers and dereferenced exactly
//!   once when forwarded;
//! * the constness of a method reaches the instance pointer on both sides;
//! * a `void` return type suppresses the `return` keyword and the foreign
//!   return clause, and nothing else;
//! * a class emits byte-identical artifacts however its contents were built.

use vstd::prelude::*;

use crate::args::apply_cpp_text;
use crate::args::apply_piece;
use crate::args::arg_name;
use crate::args::cpp_decl_piece;
use crate::args::deref_op;
use crate::args::join_comma;
use crate::args::proto_cpp_text;
use crate::args::proto_rs_text;
use crate::args::rs_decl_piece;
use crate::args::FunctionView;
use crate::args::MethodView;
use crate::class::class_cpp_text;
use crate::class::class_rs_text;
use crate::class::const_qual_cpp;
use crate::class::cpp_linkage;
use crate::class::ctx_qual_rs;
use crate::class::lemma_sorted_ctors_determined;
use crate::class::lemma_sorted_methods_determined;
use crate::class::method_cpp_text;
use crate::class::method_rs_text;
use crate::class::more_params_cpp;
use crate::class::more_params_rs;
use crate::class::ret_clause_rs;
use crate::class::ret_kw_cpp;
use crate::class::Class;
use crate::proto::basic_cpp;
use crate::proto::basic_rs;
use crate::proto::spec_is_ref;
use crate::proto::spec_is_void;
use crate::proto::BasicTypeView;
use crate::proto::CTypeView;
use crate::symbols::c_path_text;
use crate::symbols::cpp_path_text;
use crate::text::dec_digit;
use crate::text::dec_str;

verus! {

/// Both declaration renderings of one parameter list are joins of exactly
/// one piece per parameter, in declared order, and piece `i` carries the
/// positional name `arg<i>` on both sides: the native piece ends with
/// `<type> arg<i>`, the foreign piece starts with `arg<i>: `.
pub proof fn lemma_round_trip_arity(args: Seq<BasicTypeView>)
    ensures
        proto_cpp_text(args) == join_comma(
            Seq::new(args.len(), |i: int| basic_cpp(args[i]) + " "@ + arg_name(i as nat)),
        ),
        proto_rs_text(args) == join_comma(
            Seq::new(args.len(), |i: int| arg_name(i as nat) + ": "@ + basic_rs(args[i])),
        ),
        forall|i: int|
            0 <= i < args.len() ==> #[trigger] cpp_decl_piece(args[i], i as nat) == basic_cpp(
                args[i],
            ) + " "@ + arg_name(i as nat),
        forall|i: int|
            0 <= i < args.len() ==> #[trigger] rs_decl_piece(args[i], i as nat) == arg_name(
                i as nat,
            ) + ": "@ + basic_rs(args[i]),
{
    assert(Seq::new(args.len(), |i: int| cpp_decl_piece(args[i], i as nat)) =~= Seq::new(
        args.len(),
        |i: int| basic_cpp(args[i]) + " "@ + arg_name(i as nat),
    ));
    assert(Seq::new(args.len(), |i: int| rs_decl_piece(args[i], i as nat)) =~= Seq::new(
        args.len(),
        |i: int| arg_name(i as nat) + ": "@ + basic_rs(args[i]),
    ));
}

/// Forwarding dereferences exactly the reference parameters, each exactly
/// once, while the declaration rendering spells a reference parameter as a
/// pointer, identically to the corresponding pointer qualifier.
pub proof fn lemma_reference_forwarding(args: Seq<BasicTypeView>)
    ensures
        apply_cpp_text(args) == join_comma(
            Seq::new(
                args.len(),
                |i: int| " "@ + (if spec_is_ref(args[i]) {
                    "*"@
                } else {
                    Seq::<char>::empty()
                }) + arg_name(i as nat),
            ),
        ),
        forall|c: CTypeView| #[trigger] basic_cpp(BasicTypeView::MutRef(c)) == basic_cpp(
            BasicTypeView::MutPointer(c),
        ),
        forall|c: CTypeView| #[trigger] basic_cpp(BasicTypeView::ConstRef(c)) == basic_cpp(
            BasicTypeView::ConstPointer(c),
        ),
{
    assert(Seq::new(
        args.len(),
        |i: int| apply_piece(args[i], i as nat),
    ) =~= Seq::new(
        args.len(),
        |i: int| " "@ + (if spec_is_ref(args[i]) {
            "*"@
        } else {
            Seq::<char>::empty()
        }) + arg_name(i as nat),
    ));
}

/// How many dereference operators a text holds.
pub open spec fn star_count(s: Seq<char>) -> nat
    decreases s.len(),
{
    if s.len() == 0 {
        0
    } else {
        star_count(s.drop_last()) + (if s.last() == '*' {
            1nat
        } else {
            0
        })
    }
}

/// How many reference parameters a parameter list holds.
pub open spec fn ref_count(args: Seq<BasicTypeView>) -> nat
    decreases args.len(),
{
    if args.len() == 0 {
        0
    } else {
        ref_count(args.drop_last()) + (if spec_is_ref(args.last()) {
            1nat
        } else {
            0
        })
    }
}

/// The count distributes over concatenation.
proof fn lemma_star_count_add(a: Seq<char>, b: Seq<char>)
    ensures
        star_count(a + b) == star_count(a) + star_count(b),
    decreases b.len(),
{
    if b.len() == 0 {
        assert(a + b =~= a);
    } else {
        assert((a + b).drop_last() =~= a + b.drop_last());
        assert((a + b).last() == b.last());
        lemma_star_count_add(a, b.drop_last());
    }
}

/// Decimal renderings hold no dereference operator.
proof fn lemma_star_count_dec(n: nat)
    ensures
        star_count(dec_str(n)) == 0,
    decreases n,
{
    assert(star_count(Seq::<char>::empty()) == 0);
    if n < 10 {
        assert(dec_str(n) =~= seq![dec_digit(n)]);
        assert(seq![dec_digit(n)].drop_last() =~= Seq::<char>::empty());
        assert(dec_digit(n) != '*');
        assert(star_count(seq![dec_digit(n)]) == 0);
    } else {
        lemma_star_count_dec(n / 10);
        assert(seq![dec_digit(n % 10)].drop_last() =~= Seq::<char>::empty());
        assert(dec_digit(n % 10) != '*');
        assert(star_count(seq![dec_digit(n % 10)]) == 0);
        lemma_star_count_add(dec_str(n / 10), seq![dec_digit(n % 10)]);
    }
}

/// Positional names hold no dereference operator.
proof fn lemma_star_count_arg_name(i: nat)
    ensures
        star_count(arg_name(i)) == 0,
{
    reveal_strlit("arg");
    let a = "arg"@;
    assert(a.len() == 3 && a[0] == 'a' && a[1] == 'r' && a[2] == 'g');
    assert(star_count(Seq::<char>::empty()) == 0);
    assert(seq!['a'].drop_last() =~= Seq::<char>::empty());
    assert(star_count(seq!['a']) == 0);
    assert(seq!['a', 'r'].drop_last() =~= seq!['a']);
    assert(star_count(seq!['a', 'r']) == 0);
    assert(a.drop_last() =~= seq!['a', 'r']);
    assert(star_count(a) == 0);
    lemma_star_count_dec(i);
    lemma_star_count_add(a, dec_str(i));
}

/// One forwarded parameter holds exactly one dereference operator when it is
/// a reference parameter, and none otherwise.
proof fn lemma_star_count_piece(t: BasicTypeView, i: nat)
    ensures
        star_count(apply_piece(t, i)) == (if spec_is_ref(t) {
            1nat
        } else {
            0
        }),
{
    reveal_strlit(" ");
    reveal_strlit("*");
    assert(star_count(Seq::<char>::empty()) == 0);
    let sp = " "@;
    assert(sp.len() == 1 && sp[0] == ' ');
    assert(sp.drop_last() =~= Seq::<char>::empty());
    assert(star_count(sp) == 0);
    let st = "*"@;
    assert(st.len() == 1 && st[0] == '*');
    assert(st.drop_last() =~= Seq::<char>::empty());
    assert(star_count(st) == 1);
    lemma_star_count_arg_name(i);
    lemma_star_count_add(sp, deref_op(t));
    lemma_star_count_add(sp + deref_op(t), arg_name(i));
}

/// The whole forwarding rendering dereferences exactly as many times as the
/// parameter list holds reference parameters: every reference parameter once
/// and nothing else.
pub proof fn lemma_forwarding_star_count(args: Seq<BasicTypeView>)
    ensures
        star_count(apply_cpp_text(args)) == ref_count(args),
    decreases args.len(),
{
    let p = Seq::new(args.len(), |i: int| apply_piece(args[i], i as nat));
    if args.len() == 0 {
        assert(star_count(join_comma(p)) == 0);
    } else {
        let front = args.drop_last();
        let q = Seq::new(front.len(), |i: int| apply_piece(front[i], i as nat));
        assert(p.drop_last() =~= q);
        lemma_forwarding_star_count(front);
        lemma_star_count_piece(args.last(), (args.len() - 1) as nat);
        assert(p.last() == apply_piece(args.last(), (args.len() - 1) as nat));
        if args.len() == 1 {
            assert(join_comma(p) == p[0]);
        } else {
            reveal_strlit(", ");
            let sep = ", "@;
            assert(sep.len() == 2 && sep[0] == ',' && sep[1] == ' ');
            assert(star_count(Seq::<char>::empty()) == 0);
            assert(seq![','].drop_last() =~= Seq::<char>::empty());
            assert(star_count(seq![',']) == 0);
            assert(sep.drop_last() =~= seq![',']);
            assert(star_count(sep) == 0);
            assert(join_comma(p) == join_comma(p.drop_last()) + sep + p.last());
            lemma_star_count_add(join_comma(p.drop_last()), sep);
            lemma_star_count_add(join_comma(p.drop_last()) + sep, p.last());
        }
    }
}

/// The native method text up to the spot where the instance pointer's
/// `const` qualifier goes; independent of the constness flag.
pub open spec fn cpp_method_before_qual(
    ns: Seq<Seq<char>>,
    cls: Seq<char>,
    mname: Seq<char>,
    f: FunctionView,
) -> Seq<char> {
    cpp_linkage() + basic_cpp(f.ret) + " mth_"@ + c_path_text(ns, cls) + "_"@ + mname + "("@
        + cpp_path_text(ns, cls)
}

/// The native method text after that spot; independent of the constness
/// flag.
pub open spec fn cpp_method_after_qual(
    ns: Seq<Seq<char>>,
    cls: Seq<char>,
    mname: Seq<char>,
    f: FunctionView,
) -> Seq<char> {
    "*"@ + " ctx"@ + more_params_cpp(f.args) + ")"@ + " {\n  "@ + ret_kw_cpp(f.ret) + "ctx->"@
        + mname + "("@ + apply_cpp_text(f.args) + ");\n"@ + "}"@ + "\n\n"@
}

/// The foreign method text up to the mutability of the instance pointer.
pub open spec fn rs_method_before_qual(
    ns: Seq<Seq<char>>,
    cls: Seq<char>,
    mname: Seq<char>,
) -> Seq<char> {
    "  pub fn mth_"@ + c_path_text(ns, cls) + "_"@ + mname + "("@ + "ctx: *"@
}

/// The foreign method text after the mutability of the instance pointer;
/// independent of the constness flag.
pub open spec fn rs_method_after_qual(
    ns: Seq<Seq<char>>,
    cls: Seq<char>,
    mname: Seq<char>,
    f: FunctionView,
) -> Seq<char> {
    "c_void"@ + more_params_rs(f.args) + ")"@ + ret_clause_rs(f.ret) + ";\n"@
}

/// Constness reaches the instance pointer on both sides, for every method,
/// whatever its return type or arity: a const method qualifies the native
/// instance pointer with ` const` and declares the foreign one `*const`,
/// a mutable method leaves the native pointer bare and declares `*mut`.
/// Nothing else in either text depends on the flag.
#[verifier::rlimit(80)]
pub proof fn lemma_constness_propagation(
    ns: Seq<Seq<char>>,
    cls: Seq<char>,
    mname: Seq<char>,
    m: MethodView,
)
    ensures
        m.is_const ==> method_cpp_text(ns, cls, mname, m) == cpp_method_before_qual(
            ns,
            cls,
            mname,
            m.func,
        ) + " const"@ + cpp_method_after_qual(ns, cls, mname, m.func),
        !m.is_const ==> method_cpp_text(ns, cls, mname, m) == cpp_method_before_qual(
            ns,
            cls,
            mname,
            m.func,
        ) + cpp_method_after_qual(ns, cls, mname, m.func),
        m.is_const ==> method_rs_text(ns, cls, mname, m) == rs_method_before_qual(ns, cls, mname)
            + "const "@ + rs_method_after_qual(ns, cls, mname, m.func),
        !m.is_const ==> method_rs_text(ns, cls, mname, m) == rs_method_before_qual(ns, cls, mname)
            + "mut "@ + rs_method_after_qual(ns, cls, mname, m.func),
{
    if m.is_const {
        assert(method_cpp_text(ns, cls, mname, m) =~= cpp_method_before_qual(ns, cls, mname, m.func)
            + " const"@ + cpp_method_after_qual(ns, cls, mname, m.func));
        assert(method_rs_text(ns, cls, mname, m) =~= rs_method_before_qual(ns, cls, mname)
            + "const "@ + rs_method_after_qual(ns, cls, mname, m.func));
    } else {
        assert(method_cpp_text(ns, cls, mname, m) =~= cpp_method_before_qual(ns, cls, mname, m.func)
            + cpp_method_after_qual(ns, cls, mname, m.func));
        assert(method_rs_text(ns, cls, mname, m) =~= rs_method_before_qual(ns, cls, mname) + "mut "@
            + rs_method_after_qual(ns, cls, mname, m.func));
    }
}

/// The native method text up to the spot where the `return` keyword goes.
pub open spec fn cpp_method_before_ret(
    ns: Seq<Seq<char>>,
    cls: Seq<char>,
    mname: Seq<char>,
    m: MethodView,
) -> Seq<char> {
    cpp_linkage() + basic_cpp(m.func.ret) + " mth_"@ + c_path_text(ns, cls) + "_"@ + mname + "("@
        + cpp_path_text(ns, cls) + const_qual_cpp(m.is_const) + "*"@ + " ctx"@ + more_params_cpp(
        m.func.args,
    ) + ")"@ + " {\n  "@
}

/// The native method body after that spot.
pub open spec fn cpp_method_after_ret(
    ns: Seq<Seq<char>>,
    cls: Seq<char>,
    mname: Seq<char>,
    m: MethodView,
) -> Seq<char> {
    "ctx->"@ + mname + "("@ + apply_cpp_text(m.func.args) + ");\n"@ + "}"@ + "\n\n"@
}

/// The foreign method declaration up to its closing parenthesis.
pub open spec fn rs_method_before_ret(
    ns: Seq<Seq<char>>,
    cls: Seq<char>,
    mname: Seq<char>,
    m: MethodView,
) -> Seq<char> {
    "  pub fn mth_"@ + c_path_text(ns, cls) + "_"@ + mname + "("@ + "ctx: *"@ + ctx_qual_rs(
        m.is_const,
    ) + "c_void"@ + more_params_rs(m.func.args) + ")"@
}

/// A `void` method emits no `return` keyword in its trampoline body and no
/// return clause in its foreign declaration; any other return type emits
/// both, and nothing else in either text depends on the distinction.
#[verifier::rlimit(80)]
pub proof fn lemma_void_suppression(
    ns: Seq<Seq<char>>,
    cls: Seq<char>,
    mname: Seq<char>,
    m: MethodView,
)
    ensures
        spec_is_void(m.func.ret) ==> method_cpp_text(ns, cls, mname, m) == cpp_method_before_ret(
            ns,
            cls,
            mname,
            m,
        ) + cpp_method_after_ret(ns, cls, mname, m),
        !spec_is_void(m.func.ret) ==> method_cpp_text(ns, cls, mname, m) == cpp_method_before_ret(
            ns,
            cls,
            mname,
            m,
        ) + "return "@ + cpp_method_after_ret(ns, cls, mname, m),
        spec_is_void(m.func.ret) ==> method_rs_text(ns, cls, mname, m) == rs_method_before_ret(
            ns,
            cls,
            mname,
            m,
        ) + ";\n"@,
        !spec_is_void(m.func.ret) ==> method_rs_text(ns, cls, mname, m) == rs_method_before_ret(
            ns,
            cls,
            mname,
            m,
        ) + " -> "@ + basic_rs(m.func.ret) + ";\n"@,
{
    if spec_is_void(m.func.ret) {
        assert(method_cpp_text(ns, cls, mname, m) =~= cpp_method_before_ret(ns, cls, mname, m)
            + cpp_method_after_ret(ns, cls, mname, m));
        assert(method_rs_text(ns, cls, mname, m) =~= rs_method_before_ret(ns, cls, mname, m)
            + ";\n"@);
    } else {
        assert(method_cpp_text(ns, cls, mname, m) =~= cpp_method_before_ret(ns, cls, mname, m)
            + "return "@ + cpp_method_after_ret(ns, cls, mname, m));
        assert(method_rs_text(ns, cls, mname, m) =~= rs_method_before_ret(ns, cls, mname, m)
            + " -> "@ + basic_rs(m.func.ret) + ";\n"@);
    }
}

/// Two well-formed classes with the same contents emit byte-identical
/// artifacts on both sides, however their members were registered: the
/// emitted text is a function of the name-keyed contents alone.
pub proof fn lemma_deterministic_emission(
    c1: Class,
    c2: Class,
    ns: Seq<Seq<char>>,
    cls: Seq<char>,
)
    requires
        c1.wf(),
        c2.wf(),
        c1@ == c2@,
    ensures
        class_cpp_text(c1.method_entries(), c1.ctor_entries(), ns, cls) == class_cpp_text(
            c2.method_entries(),
            c2.ctor_entries(),
            ns,
            cls,
        ),
        class_rs_text(c1.method_entries(), c1.ctor_entries(), ns, cls) == class_rs_text(
            c2.method_entries(),
            c2.ctor_entries(),
            ns,
            cls,
        ),
{
    assert(c1@.methods == c2@.methods);
    assert(c1@.ctors == c2@.ctors);
    lemma_sorted_methods_determined(c1.method_entries(), c2.method_entries());
    lemma_sorted_ctors_determined(c1.ctor_entries(), c2.ctor_entries());
}

} // verus!
