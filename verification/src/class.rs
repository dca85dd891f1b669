//! The class model and the dual emitter.
//!
//! A `Class` collects named constructor variants and named methods.  The
//! emitter walks one class and writes, member by member, a C-linkage
//! trampoline definition into the native sink and a matching declaration
//! into the foreign sink.  Members are kept sorted by name, so the same
//! contents always emit the same bytes, whatever order they were added in.

use vstd::prelude::*;

use crate::args::apply_cpp_text;
use crate::args::proto_cpp_text;
use crate::args::proto_rs_text;
use crate::args::Function;
use crate::args::FunctionArgs;
use crate::args::Method;
use crate::args::MethodView;
use crate::proto::basic_cpp;
use crate::proto::basic_rs;
use crate::proto::spec_is_void;
use crate::proto::BasicType;
use crate::proto::BasicTypeView;
use crate::symbols::c_path_text;
use crate::symbols::cpp_path_text;
use crate::symbols::generate_c_path;
use crate::symbols::generate_cpp_path;
use crate::text::emit;
use crate::text::lemma_cat_assoc;
use crate::text::lemma_lex_lt_asym;
use crate::text::lemma_lex_lt_connected;
use crate::text::lemma_lex_lt_irrefl;
use crate::text::lemma_lex_lt_trans;
use crate::text::lemma_take_all;
use crate::text::lemma_take_snoc;
use crate::text::lex_lt;
use crate::text::str_eq;
use crate::text::str_lt;

verus! {

// ---------------------------------------------------------------------------
// The model.
// ---------------------------------------------------------------------------

/// One registered method: its name and its description.
pub struct MethodEntry {
    pub name: String,
    pub desc: Method,
}

/// Mathematical image of a `MethodEntry`.
#[verifier::ext_equal]
pub struct MethodEntryView {
    pub name: Seq<char>,
    pub desc: MethodView,
}

impl View for MethodEntry {
    type V = MethodEntryView;

    open spec fn view(&self) -> MethodEntryView {
        MethodEntryView { name: self.name@, desc: self.desc@ }
    }
}

/// One registered constructor variant: its variant name (empty for the
/// default constructor) and its parameter list.
pub struct CtorEntry {
    pub name: String,
    pub args: FunctionArgs,
}

/// Mathematical image of a `CtorEntry`.
#[verifier::ext_equal]
pub struct CtorEntryView {
    pub name: Seq<char>,
    pub args: Seq<BasicTypeView>,
}

impl View for CtorEntry {
    type V = CtorEntryView;

    open spec fn view(&self) -> CtorEntryView {
        CtorEntryView { name: self.name@, args: self.args@ }
    }
}

/// A class: methods and constructor variants, each keyed by name.  The
/// entries are kept strictly sorted by name (see `wf`), which makes the
/// name-keyed mappings below faithful and the emitted artifacts reproducible.
pub struct Class {
    pub methods: Vec<MethodEntry>,
    pub ctors: Vec<CtorEntry>,
}

/// Mathematical image of a `Class`: two name-keyed mappings.
pub struct ClassView {
    pub methods: Map<Seq<char>, MethodView>,
    pub ctors: Map<Seq<char>, Seq<BasicTypeView>>,
}

/// Folds method entries into a name-keyed mapping; a later entry with the
/// same name would win, though well-formed classes never hold duplicates.
pub open spec fn methods_to_map(s: Seq<MethodEntryView>) -> Map<Seq<char>, MethodView>
    decreases s.len(),
{
    if s.len() == 0 {
        Map::empty()
    } else {
        methods_to_map(s.drop_last()).insert(s.last().name, s.last().desc)
    }
}

/// Folds constructor entries into a name-keyed mapping.
pub open spec fn ctors_to_map(s: Seq<CtorEntryView>) -> Map<Seq<char>, Seq<BasicTypeView>>
    decreases s.len(),
{
    if s.len() == 0 {
        Map::empty()
    } else {
        ctors_to_map(s.drop_last()).insert(s.last().name, s.last().args)
    }
}

/// Entry names strictly ascend.
pub open spec fn method_names_sorted(s: Seq<MethodEntryView>) -> bool {
    forall|i: int, j: int|
        0 <= i < j < s.len() ==> lex_lt(#[trigger] s[i].name, #[trigger] s[j].name)
}

/// Entry names strictly ascend.
pub open spec fn ctor_names_sorted(s: Seq<CtorEntryView>) -> bool {
    forall|i: int, j: int|
        0 <= i < j < s.len() ==> lex_lt(#[trigger] s[i].name, #[trigger] s[j].name)
}

impl Class {
    /// The method entries as they stand, in emission order.
    pub open spec fn method_entries(&self) -> Seq<MethodEntryView> {
        self.methods@.map(|i: int, e: MethodEntry| e@)
    }

    /// The constructor entries as they stand, in emission order.
    pub open spec fn ctor_entries(&self) -> Seq<CtorEntryView> {
        self.ctors@.map(|i: int, e: CtorEntry| e@)
    }

    /// Well-formed: both entry lists strictly sorted by name, so every name
    /// occurs at most once and emission order is determined by contents.
    pub open spec fn wf(&self) -> bool {
        method_names_sorted(self.method_entries()) && ctor_names_sorted(self.ctor_entries())
    }
}

impl View for Class {
    type V = ClassView;

    open spec fn view(&self) -> ClassView {
        ClassView {
            methods: methods_to_map(self.method_entries()),
            ctors: ctors_to_map(self.ctor_entries()),
        }
    }
}

/// A fresh, empty class.
pub fn class() -> (r: Class)
    ensures
        r.wf(),
        r@.methods == Map::<Seq<char>, MethodView>::empty(),
        r@.ctors == Map::<Seq<char>, Seq<BasicTypeView>>::empty(),
        r.method_entries() == Seq::<MethodEntryView>::empty(),
        r.ctor_entries() == Seq::<CtorEntryView>::empty(),
{
    let r = Class { methods: Vec::new(), ctors: Vec::new() };
    proof {
        assert(r.method_entries() =~= Seq::<MethodEntryView>::empty());
        assert(r.ctor_entries() =~= Seq::<CtorEntryView>::empty());
    }
    r
}

// ---------------------------------------------------------------------------
// The emitted text, member by member.
// ---------------------------------------------------------------------------

/// The storage-class line that gives a native definition C linkage.
pub open spec fn cpp_linkage() -> Seq<char> {
    "ext"@ + "ern"@ + " \"C\"\n"@
}

/// The opening of the foreign declaration block.
pub open spec fn rs_block_open() -> Seq<char> {
    "ext"@ + "ern"@ + " {\n"@
}

/// The variant prefix of a constructor symbol: empty for the default
/// constructor, `<variant>_` for a named one.
pub open spec fn variant_prefix(cname: Seq<char>) -> Seq<char> {
    if cname.len() > 0 {
        cname + "_"@
    } else {
        Seq::empty()
    }
}

/// The `const` qualifier of the native instance pointer, present exactly for
/// const methods.
pub open spec fn const_qual_cpp(is_const: bool) -> Seq<char> {
    if is_const {
        " const"@
    } else {
        Seq::empty()
    }
}

/// The mutability of the foreign instance pointer.
pub open spec fn ctx_qual_rs(is_const: bool) -> Seq<char> {
    if is_const {
        "const "@
    } else {
        "mut "@
    }
}

/// The `return` keyword of a trampoline body, present exactly for non-void
/// return types.
pub open spec fn ret_kw_cpp(ret: BasicTypeView) -> Seq<char> {
    if spec_is_void(ret) {
        Seq::empty()
    } else {
        "return "@
    }
}

/// The return clause of a foreign declaration, present exactly for non-void
/// return types.
pub open spec fn ret_clause_rs(ret: BasicTypeView) -> Seq<char> {
    if spec_is_void(ret) {
        Seq::empty()
    } else {
        " -> "@ + basic_rs(ret)
    }
}

/// The parameter list of a native trampoline after the instance pointer:
/// nothing for arity zero, otherwise a comma and the declaration rendering.
pub open spec fn more_params_cpp(args: Seq<BasicTypeView>) -> Seq<char> {
    if args.len() > 0 {
        ", "@ + proto_cpp_text(args)
    } else {
        Seq::empty()
    }
}

/// The parameter list of a foreign declaration after the instance pointer.
pub open spec fn more_params_rs(args: Seq<BasicTypeView>) -> Seq<char> {
    if args.len() > 0 {
        ", "@ + proto_rs_text(args)
    } else {
        Seq::empty()
    }
}

/// The native trampoline for one constructor variant.
pub open spec fn ctor_cpp_text(
    ns: Seq<Seq<char>>,
    cls: Seq<char>,
    cname: Seq<char>,
    args: Seq<BasicTypeView>,
) -> Seq<char> {
    cpp_linkage() + cpp_path_text(ns, cls) + " *"@ + " new_"@ + variant_prefix(cname)
        + c_path_text(ns, cls) + "("@ + proto_cpp_text(args) + ")"@ + " {\n  "@ + "return new "@
        + cpp_path_text(ns, cls) + "("@ + apply_cpp_text(args) + ");\n"@ + "}"@ + "\n\n"@
}

/// The native trampoline that releases an instance.
pub open spec fn dtor_cpp_text(ns: Seq<Seq<char>>, cls: Seq<char>) -> Seq<char> {
    cpp_linkage() + "void del_"@ + c_path_text(ns, cls) + "("@ + cpp_path_text(ns, cls) + "*"@
        + " ctx"@ + ")"@ + " {\n  delete ctx;\n}\n\n"@
}

/// The native trampoline for one method.
pub open spec fn method_cpp_text(
    ns: Seq<Seq<char>>,
    cls: Seq<char>,
    mname: Seq<char>,
    m: MethodView,
) -> Seq<char> {
    cpp_linkage() + basic_cpp(m.func.ret) + " mth_"@ + c_path_text(ns, cls) + "_"@ + mname + "("@
        + cpp_path_text(ns, cls) + const_qual_cpp(m.is_const) + "*"@ + " ctx"@ + more_params_cpp(
        m.func.args,
    ) + ")"@ + " {\n  "@ + ret_kw_cpp(m.func.ret) + "ctx->"@ + mname + "("@ + apply_cpp_text(
        m.func.args,
    ) + ");\n"@ + "}"@ + "\n\n"@
}

/// The foreign declaration for one constructor variant.
pub open spec fn ctor_rs_text(
    ns: Seq<Seq<char>>,
    cls: Seq<char>,
    cname: Seq<char>,
    args: Seq<BasicTypeView>,
) -> Seq<char> {
    "  pub fn new_"@ + variant_prefix(cname) + c_path_text(ns, cls) + "("@ + proto_rs_text(args)
        + ")"@ + " -> *mut c_void"@ + ";\n"@
}

/// The foreign declaration of the destructor.
pub open spec fn dtor_rs_text(ns: Seq<Seq<char>>, cls: Seq<char>) -> Seq<char> {
    "  pub fn del_"@ + c_path_text(ns, cls) + "(ctx: *mut c_void);\n"@
}

/// The foreign declaration for one method.
pub open spec fn method_rs_text(
    ns: Seq<Seq<char>>,
    cls: Seq<char>,
    mname: Seq<char>,
    m: MethodView,
) -> Seq<char> {
    "  pub fn mth_"@ + c_path_text(ns, cls) + "_"@ + mname + "("@ + "ctx: *"@ + ctx_qual_rs(
        m.is_const,
    ) + "c_void"@ + more_params_rs(m.func.args) + ")"@ + ret_clause_rs(m.func.ret) + ";\n"@
}

/// All constructor trampolines, in entry order.
pub open spec fn ctors_cpp_text(
    entries: Seq<CtorEntryView>,
    ns: Seq<Seq<char>>,
    cls: Seq<char>,
) -> Seq<char>
    decreases entries.len(),
{
    if entries.len() == 0 {
        Seq::empty()
    } else {
        ctors_cpp_text(entries.drop_last(), ns, cls) + ctor_cpp_text(
            ns,
            cls,
            entries.last().name,
            entries.last().args,
        )
    }
}

/// All method trampolines, in entry order.
pub open spec fn methods_cpp_text(
    entries: Seq<MethodEntryView>,
    ns: Seq<Seq<char>>,
    cls: Seq<char>,
) -> Seq<char>
    decreases entries.len(),
{
    if entries.len() == 0 {
        Seq::empty()
    } else {
        methods_cpp_text(entries.drop_last(), ns, cls) + method_cpp_text(
            ns,
            cls,
            entries.last().name,
            entries.last().desc,
        )
    }
}

/// All constructor declarations, in entry order.
pub open spec fn ctors_rs_text(
    entries: Seq<CtorEntryView>,
    ns: Seq<Seq<char>>,
    cls: Seq<char>,
) -> Seq<char>
    decreases entries.len(),
{
    if entries.len() == 0 {
        Seq::empty()
    } else {
        ctors_rs_text(entries.drop_last(), ns, cls) + ctor_rs_text(
            ns,
            cls,
            entries.last().name,
            entries.last().args,
        )
    }
}

/// All method declarations, in entry order.
pub open spec fn methods_rs_text(
    entries: Seq<MethodEntryView>,
    ns: Seq<Seq<char>>,
    cls: Seq<char>,
) -> Seq<char>
    decreases entries.len(),
{
    if entries.len() == 0 {
        Seq::empty()
    } else {
        methods_rs_text(entries.drop_last(), ns, cls) + method_rs_text(
            ns,
            cls,
            entries.last().name,
            entries.last().desc,
        )
    }
}

/// The whole native artifact for one class: constructor trampolines, the
/// destructor, then method trampolines.
pub open spec fn class_cpp_text(
    methods: Seq<MethodEntryView>,
    ctors: Seq<CtorEntryView>,
    ns: Seq<Seq<char>>,
    cls: Seq<char>,
) -> Seq<char> {
    ctors_cpp_text(ctors, ns, cls) + dtor_cpp_text(ns, cls) + methods_cpp_text(methods, ns, cls)
}

/// The whole foreign artifact for one class: one declaration block holding
/// method declarations, constructor declarations, and the destructor.
pub open spec fn class_rs_text(
    methods: Seq<MethodEntryView>,
    ctors: Seq<CtorEntryView>,
    ns: Seq<Seq<char>>,
    cls: Seq<char>,
) -> Seq<char> {
    rs_block_open() + methods_rs_text(methods, ns, cls) + ctors_rs_text(ctors, ns, cls)
        + dtor_rs_text(ns, cls) + "}\n"@
}

// ---------------------------------------------------------------------------
// The emitter.
// ---------------------------------------------------------------------------

/// Writes the C-linkage storage-class line.
fn emit_linkage(out: &mut String)
    ensures
        final(out)@ == old(out)@ + cpp_linkage(),
{
    emit(out, "ext");
    emit(out, "ern");
    emit(out, " \"C\"\n");
    proof {
        assert(out@ =~= old(out)@ + cpp_linkage());
    }
}

/// Writes the opening of the foreign declaration block.
fn emit_rs_block_open(out: &mut String)
    ensures
        final(out)@ == old(out)@ + rs_block_open(),
{
    emit(out, "ext");
    emit(out, "ern");
    emit(out, " {\n");
    proof {
        assert(out@ =~= old(out)@ + rs_block_open());
    }
}

/// Writes one constructor trampoline.
fn emit_ctor_cpp(
    namespace: &Vec<String>,
    name: &str,
    ctor_name: &str,
    ctor_args: &FunctionArgs,
    out: &mut String,
)
    ensures
        final(out)@ == old(out)@ + ctor_cpp_text(
            namespace.deep_view(),
            name@,
            ctor_name@,
            ctor_args@,
        ),
{
    let ghost o = out@;
    let ghost ns = namespace.deep_view();
    let ghost mut t: Seq<char> = Seq::empty();
    emit_linkage(out);
    proof {
        t = cpp_linkage();
        assert(out@ == o + t);
    }
    generate_cpp_path(namespace, name, out);
    proof {
        lemma_cat_assoc(o, t, cpp_path_text(ns, name@));
        t = t + cpp_path_text(ns, name@);
        assert(out@ == o + t);
    }
    emit(out, " *");
    proof {
        lemma_cat_assoc(o, t, " *"@);
        t = t + " *"@;
        assert(out@ == o + t);
    }
    emit(out, " new_");
    proof {
        lemma_cat_assoc(o, t, " new_"@);
        t = t + " new_"@;
        assert(out@ == o + t);
    }
    emit_variant_prefix(ctor_name, out);
    proof {
        lemma_cat_assoc(o, t, variant_prefix(ctor_name@));
        t = t + variant_prefix(ctor_name@);
        assert(out@ == o + t);
    }
    generate_c_path(namespace, name, out);
    proof {
        lemma_cat_assoc(o, t, c_path_text(ns, name@));
        t = t + c_path_text(ns, name@);
        assert(out@ == o + t);
    }
    emit(out, "(");
    proof {
        lemma_cat_assoc(o, t, "("@);
        t = t + "("@;
        assert(out@ == o + t);
    }
    ctor_args.generate_proto_cpp(out);
    proof {
        lemma_cat_assoc(o, t, proto_cpp_text(ctor_args@));
        t = t + proto_cpp_text(ctor_args@);
        assert(out@ == o + t);
    }
    emit(out, ")");
    proof {
        lemma_cat_assoc(o, t, ")"@);
        t = t + ")"@;
        assert(out@ == o + t);
    }
    emit(out, " {\n  ");
    proof {
        lemma_cat_assoc(o, t, " {\n  "@);
        t = t + " {\n  "@;
        assert(out@ == o + t);
    }
    emit(out, "return new ");
    proof {
        lemma_cat_assoc(o, t, "return new "@);
        t = t + "return new "@;
        assert(out@ == o + t);
    }
    generate_cpp_path(namespace, name, out);
    proof {
        lemma_cat_assoc(o, t, cpp_path_text(ns, name@));
        t = t + cpp_path_text(ns, name@);
        assert(out@ == o + t);
    }
    emit(out, "(");
    proof {
        lemma_cat_assoc(o, t, "("@);
        t = t + "("@;
        assert(out@ == o + t);
    }
    ctor_args.generate_apply_cpp(out);
    proof {
        lemma_cat_assoc(o, t, apply_cpp_text(ctor_args@));
        t = t + apply_cpp_text(ctor_args@);
        assert(out@ == o + t);
    }
    emit(out, ");\n");
    proof {
        lemma_cat_assoc(o, t, ");\n"@);
        t = t + ");\n"@;
        assert(out@ == o + t);
    }
    emit(out, "}");
    proof {
        lemma_cat_assoc(o, t, "}"@);
        t = t + "}"@;
        assert(out@ == o + t);
    }
    emit(out, "\n\n");
    proof {
        lemma_cat_assoc(o, t, "\n\n"@);
        t = t + "\n\n"@;
        assert(out@ == o + t);
        assert(t == ctor_cpp_text(ns, name@, ctor_name@, ctor_args@));
    }
}

/// Writes the variant prefix of a constructor symbol.
fn emit_variant_prefix(ctor_name: &str, out: &mut String)
    ensures
        final(out)@ == old(out)@ + variant_prefix(ctor_name@),
{
    if ctor_name.unicode_len() > 0 {
        emit(out, ctor_name);
        emit(out, "_");
        proof {
            assert(out@ =~= old(out)@ + variant_prefix(ctor_name@));
        }
    } else {
        proof {
            assert(out@ =~= out@ + variant_prefix(ctor_name@));
        }
    }
}

/// Writes the destructor trampoline.
fn emit_dtor_cpp(namespace: &Vec<String>, name: &str, out: &mut String)
    ensures
        final(out)@ == old(out)@ + dtor_cpp_text(namespace.deep_view(), name@),
{
    emit_linkage(out);
    emit(out, "void del_");
    generate_c_path(namespace, name, out);
    emit(out, "(");
    generate_cpp_path(namespace, name, out);
    emit(out, "*");
    emit(out, " ctx");
    emit(out, ")");
    emit(out, " {\n  delete ctx;\n}\n\n");
    proof {
        assert(out@ =~= old(out)@ + dtor_cpp_text(namespace.deep_view(), name@));
    }
}

/// Writes one method trampoline.
fn emit_method_cpp(
    namespace: &Vec<String>,
    name: &str,
    method_name: &str,
    desc: &Method,
    out: &mut String,
)
    ensures
        final(out)@ == old(out)@ + method_cpp_text(
            namespace.deep_view(),
            name@,
            method_name@,
            desc@,
        ),
{
    let ghost o = out@;
    let ghost ns = namespace.deep_view();
    let ghost mut t: Seq<char> = Seq::empty();
    emit_linkage(out);
    proof {
        t = cpp_linkage();
        assert(out@ == o + t);
    }
    desc.func.ret.generate_cpp(out);
    proof {
        lemma_cat_assoc(o, t, basic_cpp(desc.func.ret@));
        t = t + basic_cpp(desc.func.ret@);
        assert(out@ == o + t);
    }
    emit(out, " mth_");
    proof {
        lemma_cat_assoc(o, t, " mth_"@);
        t = t + " mth_"@;
        assert(out@ == o + t);
    }
    generate_c_path(namespace, name, out);
    proof {
        lemma_cat_assoc(o, t, c_path_text(ns, name@));
        t = t + c_path_text(ns, name@);
        assert(out@ == o + t);
    }
    emit(out, "_");
    proof {
        lemma_cat_assoc(o, t, "_"@);
        t = t + "_"@;
        assert(out@ == o + t);
    }
    emit(out, method_name);
    proof {
        lemma_cat_assoc(o, t, method_name@);
        t = t + method_name@;
        assert(out@ == o + t);
    }
    emit(out, "(");
    proof {
        lemma_cat_assoc(o, t, "("@);
        t = t + "("@;
        assert(out@ == o + t);
    }
    generate_cpp_path(namespace, name, out);
    proof {
        lemma_cat_assoc(o, t, cpp_path_text(ns, name@));
        t = t + cpp_path_text(ns, name@);
        assert(out@ == o + t);
    }
    emit_const_qual_cpp(desc.is_const, out);
    proof {
        lemma_cat_assoc(o, t, const_qual_cpp(desc.is_const));
        t = t + const_qual_cpp(desc.is_const);
        assert(out@ == o + t);
    }
    emit(out, "*");
    proof {
        lemma_cat_assoc(o, t, "*"@);
        t = t + "*"@;
        assert(out@ == o + t);
    }
    emit(out, " ctx");
    proof {
        lemma_cat_assoc(o, t, " ctx"@);
        t = t + " ctx"@;
        assert(out@ == o + t);
    }
    emit_more_params_cpp(&desc.func.args, out);
    proof {
        lemma_cat_assoc(o, t, more_params_cpp(desc.func.args@));
        t = t + more_params_cpp(desc.func.args@);
        assert(out@ == o + t);
    }
    emit(out, ")");
    proof {
        lemma_cat_assoc(o, t, ")"@);
        t = t + ")"@;
        assert(out@ == o + t);
    }
    emit(out, " {\n  ");
    proof {
        lemma_cat_assoc(o, t, " {\n  "@);
        t = t + " {\n  "@;
        assert(out@ == o + t);
    }
    emit_ret_kw_cpp(&desc.func.ret, out);
    proof {
        lemma_cat_assoc(o, t, ret_kw_cpp(desc.func.ret@));
        t = t + ret_kw_cpp(desc.func.ret@);
        assert(out@ == o + t);
    }
    emit(out, "ctx->");
    proof {
        lemma_cat_assoc(o, t, "ctx->"@);
        t = t + "ctx->"@;
        assert(out@ == o + t);
    }
    emit(out, method_name);
    proof {
        lemma_cat_assoc(o, t, method_name@);
        t = t + method_name@;
        assert(out@ == o + t);
    }
    emit(out, "(");
    proof {
        lemma_cat_assoc(o, t, "("@);
        t = t + "("@;
        assert(out@ == o + t);
    }
    desc.func.args.generate_apply_cpp(out);
    proof {
        lemma_cat_assoc(o, t, apply_cpp_text(desc.func.args@));
        t = t + apply_cpp_text(desc.func.args@);
        assert(out@ == o + t);
    }
    emit(out, ");\n");
    proof {
        lemma_cat_assoc(o, t, ");\n"@);
        t = t + ");\n"@;
        assert(out@ == o + t);
    }
    emit(out, "}");
    proof {
        lemma_cat_assoc(o, t, "}"@);
        t = t + "}"@;
        assert(out@ == o + t);
    }
    emit(out, "\n\n");
    proof {
        lemma_cat_assoc(o, t, "\n\n"@);
        t = t + "\n\n"@;
        assert(out@ == o + t);
        assert(t == method_cpp_text(ns, name@, method_name@, desc@));
    }
}

/// Writes the `const` qualifier of the native instance pointer, if any.
fn emit_const_qual_cpp(is_const: bool, out: &mut String)
    ensures
        final(out)@ == old(out)@ + const_qual_cpp(is_const),
{
    if is_const {
        emit(out, " const");
    } else {
        proof {
            assert(out@ =~= out@ + const_qual_cpp(is_const));
        }
    }
}

/// Writes the trailing parameters of a native trampoline, if any.
fn emit_more_params_cpp(args: &FunctionArgs, out: &mut String)
    ensures
        final(out)@ == old(out)@ + more_params_cpp(args@),
{
    if args.len() > 0 {
        emit(out, ", ");
        args.generate_proto_cpp(out);
        proof {
            assert(out@ =~= old(out)@ + more_params_cpp(args@));
        }
    } else {
        proof {
            assert(out@ =~= out@ + more_params_cpp(args@));
        }
    }
}

/// Writes the `return` keyword of a trampoline body, if any.
fn emit_ret_kw_cpp(ret: &BasicType, out: &mut String)
    ensures
        final(out)@ == old(out)@ + ret_kw_cpp(ret@),
{
    if !ret.is_void() {
        emit(out, "return ");
    } else {
        proof {
            assert(out@ =~= out@ + ret_kw_cpp(ret@));
        }
    }
}

/// Writes one constructor declaration.
fn emit_ctor_rs(
    namespace: &Vec<String>,
    name: &str,
    ctor_name: &str,
    ctor_args: &FunctionArgs,
    out: &mut String,
)
    ensures
        final(out)@ == old(out)@ + ctor_rs_text(
            namespace.deep_view(),
            name@,
            ctor_name@,
            ctor_args@,
        ),
{
    emit(out, "  pub fn new_");
    if ctor_name.unicode_len() > 0 {
        emit(out, ctor_name);
        emit(out, "_");
    }
    generate_c_path(namespace, name, out);
    emit(out, "(");
    if ctor_args.len() > 0 {
        ctor_args.generate_proto_rs(out);
    }
    emit(out, ")");
    emit(out, " -> *mut c_void");
    emit(out, ";\n");
    proof {
        assert(out@ =~= old(out)@ + ctor_rs_text(
            namespace.deep_view(),
            name@,
            ctor_name@,
            ctor_args@,
        ));
    }
}

/// Writes the destructor declaration.
fn emit_dtor_rs(namespace: &Vec<String>, name: &str, out: &mut String)
    ensures
        final(out)@ == old(out)@ + dtor_rs_text(namespace.deep_view(), name@),
{
    emit(out, "  pub fn del_");
    generate_c_path(namespace, name, out);
    emit(out, "(ctx: *mut c_void);\n");
    proof {
        assert(out@ =~= old(out)@ + dtor_rs_text(namespace.deep_view(), name@));
    }
}

/// Writes one method declaration.
fn emit_method_rs(
    namespace: &Vec<String>,
    name: &str,
    method_name: &str,
    desc: &Method,
    out: &mut String,
)
    ensures
        final(out)@ == old(out)@ + method_rs_text(
            namespace.deep_view(),
            name@,
            method_name@,
            desc@,
        ),
{
    let ghost o = out@;
    let ghost ns = namespace.deep_view();
    let ghost mut t: Seq<char> = Seq::empty();
    emit(out, "  pub fn mth_");
    proof {
        t = "  pub fn mth_"@;
        assert(out@ == o + t);
    }
    generate_c_path(namespace, name, out);
    proof {
        lemma_cat_assoc(o, t, c_path_text(ns, name@));
        t = t + c_path_text(ns, name@);
        assert(out@ == o + t);
    }
    emit(out, "_");
    proof {
        lemma_cat_assoc(o, t, "_"@);
        t = t + "_"@;
        assert(out@ == o + t);
    }
    emit(out, method_name);
    proof {
        lemma_cat_assoc(o, t, method_name@);
        t = t + method_name@;
        assert(out@ == o + t);
    }
    emit(out, "(");
    proof {
        lemma_cat_assoc(o, t, "("@);
        t = t + "("@;
        assert(out@ == o + t);
    }
    emit(out, "ctx: *");
    proof {
        lemma_cat_assoc(o, t, "ctx: *"@);
        t = t + "ctx: *"@;
        assert(out@ == o + t);
    }
    emit_ctx_qual_rs(desc.is_const, out);
    proof {
        lemma_cat_assoc(o, t, ctx_qual_rs(desc.is_const));
        t = t + ctx_qual_rs(desc.is_const);
        assert(out@ == o + t);
    }
    emit(out, "c_void");
    proof {
        lemma_cat_assoc(o, t, "c_void"@);
        t = t + "c_void"@;
        assert(out@ == o + t);
    }
    emit_more_params_rs(&desc.func.args, out);
    proof {
        lemma_cat_assoc(o, t, more_params_rs(desc.func.args@));
        t = t + more_params_rs(desc.func.args@);
        assert(out@ == o + t);
    }
    emit(out, ")");
    proof {
        lemma_cat_assoc(o, t, ")"@);
        t = t + ")"@;
        assert(out@ == o + t);
    }
    emit_ret_clause_rs(&desc.func.ret, out);
    proof {
        lemma_cat_assoc(o, t, ret_clause_rs(desc.func.ret@));
        t = t + ret_clause_rs(desc.func.ret@);
        assert(out@ == o + t);
    }
    emit(out, ";\n");
    proof {
        lemma_cat_assoc(o, t, ";\n"@);
        t = t + ";\n"@;
        assert(out@ == o + t);
        assert(t == method_rs_text(ns, name@, method_name@, desc@));
    }
}

/// Writes the mutability of the foreign instance pointer.
fn emit_ctx_qual_rs(is_const: bool, out: &mut String)
    ensures
        final(out)@ == old(out)@ + ctx_qual_rs(is_const),
{
    if is_const {
        emit(out, "const ");
    } else {
        emit(out, "mut ");
    }
}

/// Writes the trailing parameters of a foreign declaration, if any.
fn emit_more_params_rs(args: &FunctionArgs, out: &mut String)
    ensures
        final(out)@ == old(out)@ + more_params_rs(args@),
{
    if args.len() > 0 {
        emit(out, ", ");
        args.generate_proto_rs(out);
        proof {
            assert(out@ =~= old(out)@ + more_params_rs(args@));
        }
    } else {
        proof {
            assert(out@ =~= out@ + more_params_rs(args@));
        }
    }
}

/// Writes the return clause of a foreign declaration, if any.
fn emit_ret_clause_rs(ret: &BasicType, out: &mut String)
    ensures
        final(out)@ == old(out)@ + ret_clause_rs(ret@),
{
    if !ret.is_void() {
        emit(out, " -> ");
        ret.generate_rs(out);
        proof {
            assert(out@ =~= old(out)@ + ret_clause_rs(ret@));
        }
    } else {
        proof {
            assert(out@ =~= out@ + ret_clause_rs(ret@));
        }
    }
}

impl Class {
    /// Writes the whole native artifact for this class.
    pub fn generate_cpp(&self, namespace: &Vec<String>, name: &str, out_stream: &mut String)
        ensures
            final(out_stream)@ == old(out_stream)@ + class_cpp_text(
                self.method_entries(),
                self.ctor_entries(),
                namespace.deep_view(),
                name@,
            ),
    {
        self.generate_cpp_ctors(namespace, name, out_stream);
        self.generate_cpp_methods(namespace, name, out_stream);
        proof {
            assert(out_stream@ =~= old(out_stream)@ + class_cpp_text(
                self.method_entries(),
                self.ctor_entries(),
                namespace.deep_view(),
                name@,
            ));
        }
    }

    /// Writes every constructor trampoline and the destructor trampoline.
    fn generate_cpp_ctors(&self, namespace: &Vec<String>, name: &str, out_stream: &mut String)
        ensures
            final(out_stream)@ == old(out_stream)@ + ctors_cpp_text(
                self.ctor_entries(),
                namespace.deep_view(),
                name@,
            ) + dtor_cpp_text(namespace.deep_view(), name@),
    {
        let ghost entries = self.ctor_entries();
        let ghost ns = namespace.deep_view();
        let n = self.ctors.len();
        let mut i: usize = 0;
        proof {
            assert(entries.take(0).len() == 0);
            assert(out_stream@ =~= out_stream@ + ctors_cpp_text(entries.take(0), ns, name@));
        }
        while i < n
            invariant
                i <= n,
                n == self.ctors@.len(),
                entries == self.ctor_entries(),
                ns == namespace.deep_view(),
                entries.len() == n,
                out_stream@ == old(out_stream)@ + ctors_cpp_text(entries.take(i as int), ns, name@),
            decreases n - i,
        {
            let e = &self.ctors[i];
            emit_ctor_cpp(namespace, name, e.name.as_str(), &e.args, out_stream);
            proof {
                assert(entries[i as int] == self.ctors@[i as int]@);
                lemma_take_snoc(entries, i as int);
                assert(out_stream@ =~= old(out_stream)@ + ctors_cpp_text(
                    entries.take(i as int + 1),
                    ns,
                    name@,
                ));
            }
            i = i + 1;
        }
        emit_dtor_cpp(namespace, name, out_stream);
        proof {
            lemma_take_all(entries);
        }
    }

    /// Writes every method trampoline.
    fn generate_cpp_methods(&self, namespace: &Vec<String>, name: &str, out_stream: &mut String)
        ensures
            final(out_stream)@ == old(out_stream)@ + methods_cpp_text(
                self.method_entries(),
                namespace.deep_view(),
                name@,
            ),
    {
        let ghost entries = self.method_entries();
        let ghost ns = namespace.deep_view();
        let n = self.methods.len();
        let mut i: usize = 0;
        proof {
            assert(entries.take(0).len() == 0);
            assert(out_stream@ =~= out_stream@ + methods_cpp_text(entries.take(0), ns, name@));
        }
        while i < n
            invariant
                i <= n,
                n == self.methods@.len(),
                entries == self.method_entries(),
                ns == namespace.deep_view(),
                entries.len() == n,
                out_stream@ == old(out_stream)@ + methods_cpp_text(
                    entries.take(i as int),
                    ns,
                    name@,
                ),
            decreases n - i,
        {
            let e = &self.methods[i];
            emit_method_cpp(namespace, name, e.name.as_str(), &e.desc, out_stream);
            proof {
                assert(entries[i as int] == self.methods@[i as int]@);
                lemma_take_snoc(entries, i as int);
                assert(out_stream@ =~= old(out_stream)@ + methods_cpp_text(
                    entries.take(i as int + 1),
                    ns,
                    name@,
                ));
            }
            i = i + 1;
        }
        proof {
            lemma_take_all(entries);
        }
    }

    /// Writes the whole foreign artifact for this class.
    pub fn generate_rs(&self, namespace: &Vec<String>, name: &str, out_stream: &mut String)
        ensures
            final(out_stream)@ == old(out_stream)@ + class_rs_text(
                self.method_entries(),
                self.ctor_entries(),
                namespace.deep_view(),
                name@,
            ),
    {
        emit_rs_block_open(out_stream);
        self.generate_rs_methods(namespace, name, out_stream);
        self.generate_rs_ctors(namespace, name, out_stream);
        emit(out_stream, "}\n");
        proof {
            assert(out_stream@ =~= old(out_stream)@ + class_rs_text(
                self.method_entries(),
                self.ctor_entries(),
                namespace.deep_view(),
                name@,
            ));
        }
    }

    /// Writes every constructor declaration and the destructor declaration.
    fn generate_rs_ctors(&self, namespace: &Vec<String>, name: &str, out_stream: &mut String)
        ensures
            final(out_stream)@ == old(out_stream)@ + ctors_rs_text(
                self.ctor_entries(),
                namespace.deep_view(),
                name@,
            ) + dtor_rs_text(namespace.deep_view(), name@),
    {
        let ghost entries = self.ctor_entries();
        let ghost ns = namespace.deep_view();
        let n = self.ctors.len();
        let mut i: usize = 0;
        proof {
            assert(entries.take(0).len() == 0);
            assert(out_stream@ =~= out_stream@ + ctors_rs_text(entries.take(0), ns, name@));
        }
        while i < n
            invariant
                i <= n,
                n == self.ctors@.len(),
                entries == self.ctor_entries(),
                ns == namespace.deep_view(),
                entries.len() == n,
                out_stream@ == old(out_stream)@ + ctors_rs_text(entries.take(i as int), ns, name@),
            decreases n - i,
        {
            let e = &self.ctors[i];
            emit_ctor_rs(namespace, name, e.name.as_str(), &e.args, out_stream);
            proof {
                assert(entries[i as int] == self.ctors@[i as int]@);
                lemma_take_snoc(entries, i as int);
                assert(out_stream@ =~= old(out_stream)@ + ctors_rs_text(
                    entries.take(i as int + 1),
                    ns,
                    name@,
                ));
            }
            i = i + 1;
        }
        emit_dtor_rs(namespace, name, out_stream);
        proof {
            lemma_take_all(entries);
        }
    }

    /// Writes every method declaration.
    fn generate_rs_methods(&self, namespace: &Vec<String>, name: &str, out_stream: &mut String)
        ensures
            final(out_stream)@ == old(out_stream)@ + methods_rs_text(
                self.method_entries(),
                namespace.deep_view(),
                name@,
            ),
    {
        let ghost entries = self.method_entries();
        let ghost ns = namespace.deep_view();
        let n = self.methods.len();
        let mut i: usize = 0;
        proof {
            assert(entries.take(0).len() == 0);
            assert(out_stream@ =~= out_stream@ + methods_rs_text(entries.take(0), ns, name@));
        }
        while i < n
            invariant
                i <= n,
                n == self.methods@.len(),
                entries == self.method_entries(),
                ns == namespace.deep_view(),
                entries.len() == n,
                out_stream@ == old(out_stream)@ + methods_rs_text(
                    entries.take(i as int),
                    ns,
                    name@,
                ),
            decreases n - i,
        {
            let e = &self.methods[i];
            emit_method_rs(namespace, name, e.name.as_str(), &e.desc, out_stream);
            proof {
                assert(entries[i as int] == self.methods@[i as int]@);
                lemma_take_snoc(entries, i as int);
                assert(out_stream@ =~= old(out_stream)@ + methods_rs_text(
                    entries.take(i as int + 1),
                    ns,
                    name@,
                ));
            }
            i = i + 1;
        }
        proof {
            lemma_take_all(entries);
        }
    }

    /// Writes both artifacts for this class.
    pub fn generate(
        &self,
        namespace: &Vec<String>,
        name: &str,
        cpp_stream: &mut String,
        rs_stream: &mut String,
    )
        ensures
            final(cpp_stream)@ == old(cpp_stream)@ + class_cpp_text(
                self.method_entries(),
                self.ctor_entries(),
                namespace.deep_view(),
                name@,
            ),
            final(rs_stream)@ == old(rs_stream)@ + class_rs_text(
                self.method_entries(),
                self.ctor_entries(),
                namespace.deep_view(),
                name@,
            ),
    {
        self.generate_cpp(namespace, name, cpp_stream);
        self.generate_rs(namespace, name, rs_stream);
    }
}

// ---------------------------------------------------------------------------
// The builder.
// ---------------------------------------------------------------------------

/// Finds the insertion point for `name` among the sorted method entries.
fn method_lower_bound(v: &Vec<MethodEntry>, name: &str) -> (idx: usize)
    ensures
        idx <= v@.len(),
        forall|j: int| 0 <= j < idx ==> lex_lt((#[trigger] v@[j])@.name, name@),
        idx < v@.len() ==> !lex_lt(v@[idx as int]@.name, name@),
{
    let mut idx: usize = 0;
    while idx < v.len()
        invariant
            idx <= v@.len(),
            forall|j: int| 0 <= j < idx ==> lex_lt((#[trigger] v@[j])@.name, name@),
        decreases v@.len() - idx,
    {
        if !str_lt(v[idx].name.as_str(), name) {
            return idx;
        }
        idx = idx + 1;
    }
    idx
}

/// Finds the insertion point for `name` among the sorted constructor entries.
fn ctor_lower_bound(v: &Vec<CtorEntry>, name: &str) -> (idx: usize)
    ensures
        idx <= v@.len(),
        forall|j: int| 0 <= j < idx ==> lex_lt((#[trigger] v@[j])@.name, name@),
        idx < v@.len() ==> !lex_lt(v@[idx as int]@.name, name@),
{
    let mut idx: usize = 0;
    while idx < v.len()
        invariant
            idx <= v@.len(),
            forall|j: int| 0 <= j < idx ==> lex_lt((#[trigger] v@[j])@.name, name@),
        decreases v@.len() - idx,
    {
        if !str_lt(v[idx].name.as_str(), name) {
            return idx;
        }
        idx = idx + 1;
    }
    idx
}

/// Inserting an entry whose name occurs nowhere at or after the insertion
/// point folds to a plain mapping insertion.
proof fn lemma_methods_map_insert(s: Seq<MethodEntryView>, idx: int, e: MethodEntryView)
    requires
        0 <= idx <= s.len(),
        forall|j: int| idx <= j < s.len() ==> (#[trigger] s[j]).name != e.name,
    ensures
        methods_to_map(s.insert(idx, e)) == methods_to_map(s).insert(e.name, e.desc),
    decreases s.len(),
{
    let t = s.insert(idx, e);
    if idx == s.len() {
        assert(t.drop_last() =~= s);
        assert(t.last() == e);
    } else {
        s.insert_ensures(idx, e);
        assert(t.last() == s.last());
        assert(t.drop_last() =~= s.drop_last().insert(idx, e));
        assert forall|j: int| idx <= j < s.drop_last().len() implies (#[trigger] s.drop_last()[j]).name
            != e.name by {
            assert(s.drop_last()[j] == s[j]);
        }
        lemma_methods_map_insert(s.drop_last(), idx, e);
        assert(s[s.len() - 1].name != e.name);
        assert(methods_to_map(s.drop_last()).insert(e.name, e.desc).insert(
            s.last().name,
            s.last().desc,
        ) =~= methods_to_map(s.drop_last()).insert(s.last().name, s.last().desc).insert(
            e.name,
            e.desc,
        ));
    }
}

/// Overwriting the one entry that carries a name folds to a plain mapping
/// insertion.
proof fn lemma_methods_map_update(s: Seq<MethodEntryView>, idx: int, e: MethodEntryView)
    requires
        0 <= idx < s.len(),
        s[idx].name == e.name,
        forall|j: int| idx < j < s.len() ==> (#[trigger] s[j]).name != e.name,
    ensures
        methods_to_map(s.update(idx, e)) == methods_to_map(s).insert(e.name, e.desc),
    decreases s.len(),
{
    let t = s.update(idx, e);
    assert(t.len() == s.len());
    if idx == s.len() - 1 {
        assert(t.drop_last() =~= s.drop_last());
        assert(t.last() == e);
        assert(methods_to_map(s.drop_last()).insert(s.last().name, s.last().desc).insert(
            e.name,
            e.desc,
        ) =~= methods_to_map(s.drop_last()).insert(e.name, e.desc));
    } else {
        assert(t.last() == s.last());
        assert(t.drop_last() =~= s.drop_last().update(idx, e));
        assert forall|j: int| idx < j < s.drop_last().len() implies (#[trigger] s.drop_last()[j]).name
            != e.name by {
            assert(s.drop_last()[j] == s[j]);
        }
        assert(s.drop_last()[idx] == s[idx]);
        lemma_methods_map_update(s.drop_last(), idx, e);
        assert(s[s.len() - 1].name != e.name);
        assert(methods_to_map(s.drop_last()).insert(e.name, e.desc).insert(
            s.last().name,
            s.last().desc,
        ) =~= methods_to_map(s.drop_last()).insert(s.last().name, s.last().desc).insert(
            e.name,
            e.desc,
        ));
    }
}

/// As `lemma_methods_map_insert`, for constructor entries.
proof fn lemma_ctors_map_insert(s: Seq<CtorEntryView>, idx: int, e: CtorEntryView)
    requires
        0 <= idx <= s.len(),
        forall|j: int| idx <= j < s.len() ==> (#[trigger] s[j]).name != e.name,
    ensures
        ctors_to_map(s.insert(idx, e)) == ctors_to_map(s).insert(e.name, e.args),
    decreases s.len(),
{
    let t = s.insert(idx, e);
    if idx == s.len() {
        assert(t.drop_last() =~= s);
        assert(t.last() == e);
    } else {
        s.insert_ensures(idx, e);
        assert(t.last() == s.last());
        assert(t.drop_last() =~= s.drop_last().insert(idx, e));
        assert forall|j: int| idx <= j < s.drop_last().len() implies (#[trigger] s.drop_last()[j]).name
            != e.name by {
            assert(s.drop_last()[j] == s[j]);
        }
        lemma_ctors_map_insert(s.drop_last(), idx, e);
        assert(s[s.len() - 1].name != e.name);
        assert(ctors_to_map(s.drop_last()).insert(e.name, e.args).insert(
            s.last().name,
            s.last().args,
        ) =~= ctors_to_map(s.drop_last()).insert(s.last().name, s.last().args).insert(
            e.name,
            e.args,
        ));
    }
}

/// As `lemma_methods_map_update`, for constructor entries.
proof fn lemma_ctors_map_update(s: Seq<CtorEntryView>, idx: int, e: CtorEntryView)
    requires
        0 <= idx < s.len(),
        s[idx].name == e.name,
        forall|j: int| idx < j < s.len() ==> (#[trigger] s[j]).name != e.name,
    ensures
        ctors_to_map(s.update(idx, e)) == ctors_to_map(s).insert(e.name, e.args),
    decreases s.len(),
{
    let t = s.update(idx, e);
    assert(t.len() == s.len());
    if idx == s.len() - 1 {
        assert(t.drop_last() =~= s.drop_last());
        assert(t.last() == e);
        assert(ctors_to_map(s.drop_last()).insert(s.last().name, s.last().args).insert(
            e.name,
            e.args,
        ) =~= ctors_to_map(s.drop_last()).insert(e.name, e.args));
    } else {
        assert(t.last() == s.last());
        assert(t.drop_last() =~= s.drop_last().update(idx, e));
        assert forall|j: int| idx < j < s.drop_last().len() implies (#[trigger] s.drop_last()[j]).name
            != e.name by {
            assert(s.drop_last()[j] == s[j]);
        }
        assert(s.drop_last()[idx] == s[idx]);
        lemma_ctors_map_update(s.drop_last(), idx, e);
        assert(s[s.len() - 1].name != e.name);
        assert(ctors_to_map(s.drop_last()).insert(e.name, e.args).insert(
            s.last().name,
            s.last().args,
        ) =~= ctors_to_map(s.drop_last()).insert(s.last().name, s.last().args).insert(
            e.name,
            e.args,
        ));
    }
}

impl Class {
    /// Registers a method under `name`.  Registering a name twice replaces
    /// the earlier method: the class is a name-keyed mapping and the last
    /// write wins.
    pub fn add_method(&mut self, name: &str, is_const: bool, function: Function)
        requires
            old(self).wf(),
        ensures
            final(self).wf(),
            final(self)@.methods == old(self)@.methods.insert(
                name@,
                (MethodView { func: function@, is_const: is_const }),
            ),
            final(self)@.ctors == old(self)@.ctors,
    {
        let ghost s = old(self).method_entries();
        let entry = MethodEntry {
            name: name.to_owned(),
            desc: Method { func: function, is_const: is_const },
        };
        let ghost ev = entry@;
        let n = self.methods.len();
        let idx = method_lower_bound(&self.methods, name);
        proof {
            if idx < s.len() && s[idx as int].name != name@ {
                lemma_lex_lt_connected(name@, s[idx as int].name);
            }
            assert forall|j: int| idx < j < s.len() implies lex_lt(
                name@,
                (#[trigger] s[j]).name,
            ) by {
                if s[idx as int].name == name@ {
                    assert(lex_lt(s[idx as int].name, s[j].name));
                } else {
                    assert(lex_lt(name@, s[idx as int].name));
                    assert(lex_lt(s[idx as int].name, s[j].name));
                    lemma_lex_lt_trans(name@, s[idx as int].name, s[j].name);
                }
            }
            assert forall|j: int| idx < j < s.len() implies (#[trigger] s[j]).name != name@ by {
                if s[j].name == name@ {
                    lemma_lex_lt_irrefl(name@);
                }
            }
        }
        let mut replace = false;
        if idx < n {
            if str_eq(self.methods[idx].name.as_str(), name) {
                replace = true;
            }
        }
        if replace {
            let _ = self.methods.remove(idx);
            self.methods.insert(idx, entry);
            proof {
                assert(self.methods@ =~= old(self).methods@.update(idx as int, entry));
                assert(self.method_entries() =~= s.update(idx as int, ev));
                lemma_methods_map_update(s, idx as int, ev);
                let t = s.update(idx as int, ev);
                assert forall|i: int, j: int| 0 <= i < j < t.len() implies lex_lt(
                    (#[trigger] t[i]).name,
                    (#[trigger] t[j]).name,
                ) by {
                    assert(t[i].name == s[i].name);
                    assert(t[j].name == s[j].name);
                    assert(lex_lt(s[i].name, s[j].name));
                }
                assert(self.ctor_entries() =~= old(self).ctor_entries());
            }
        } else {
            proof {
                if idx < s.len() {
                    lemma_lex_lt_connected(name@, s[idx as int].name);
                }
                assert forall|j: int| idx <= j < s.len() implies lex_lt(
                    name@,
                    (#[trigger] s[j]).name,
                ) by {
                    assert(lex_lt(name@, s[idx as int].name));
                    if j > idx {
                        assert(lex_lt(s[idx as int].name, s[j].name));
                        lemma_lex_lt_trans(name@, s[idx as int].name, s[j].name);
                    }
                }
                assert forall|j: int| idx <= j < s.len() implies (#[trigger] s[j]).name
                    != name@ by {
                    if s[j].name == name@ {
                        lemma_lex_lt_irrefl(name@);
                    }
                }
            }
            self.methods.insert(idx, entry);
            proof {
                assert(self.method_entries() =~= s.insert(idx as int, ev));
                lemma_methods_map_insert(s, idx as int, ev);
                let t = s.insert(idx as int, ev);
                s.insert_ensures(idx as int, ev);
                assert forall|i: int, j: int| 0 <= i < j < t.len() implies lex_lt(
                    (#[trigger] t[i]).name,
                    (#[trigger] t[j]).name,
                ) by {
                    if j < idx {
                        assert(t[i] == s[i] && t[j] == s[j]);
                    } else if j == idx {
                        assert(t[i] == s[i] && t[j] == ev);
                    } else if i < idx {
                        assert(t[i] == s[i] && t[j] == s[j - 1]);
                        assert(i < j - 1 || j - 1 == idx);
                        if j - 1 == idx {
                            if i == j - 1 {
                                assert(false);
                            } else {
                                assert(lex_lt(s[i].name, name@) || lex_lt(
                                    s[i].name,
                                    s[j - 1].name,
                                ));
                                if i < idx {
                                    assert(lex_lt(s[i].name, name@));
                                    assert(lex_lt(name@, s[j - 1].name));
                                    lemma_lex_lt_trans(s[i].name, name@, s[j - 1].name);
                                }
                            }
                        }
                    } else if i == idx {
                        assert(t[i] == ev && t[j] == s[j - 1]);
                        assert(lex_lt(name@, s[j - 1].name));
                    } else {
                        assert(t[i] == s[i - 1] && t[j] == s[j - 1]);
                    }
                }
                assert(self.ctor_entries() =~= old(self).ctor_entries());
            }
        }
    }

    /// Registers a constructor variant under `name`; the empty name is the
    /// default constructor.  Registering a name twice replaces the earlier
    /// parameter list.
    pub fn add_constructor(&mut self, name: &str, args: FunctionArgs)
        requires
            old(self).wf(),
        ensures
            final(self).wf(),
            final(self)@.ctors == old(self)@.ctors.insert(name@, args@),
            final(self)@.methods == old(self)@.methods,
    {
        let ghost s = old(self).ctor_entries();
        let entry = CtorEntry { name: name.to_owned(), args: args };
        let ghost ev = entry@;
        let n = self.ctors.len();
        let idx = ctor_lower_bound(&self.ctors, name);
        proof {
            if idx < s.len() && s[idx as int].name != name@ {
                lemma_lex_lt_connected(name@, s[idx as int].name);
            }
            assert forall|j: int| idx < j < s.len() implies (#[trigger] s[j]).name != name@ by {
                if s[idx as int].name == name@ {
                    assert(lex_lt(s[idx as int].name, s[j].name));
                    if s[j].name == name@ {
                        lemma_lex_lt_irrefl(name@);
                    }
                } else {
                    assert(lex_lt(name@, s[idx as int].name));
                    assert(lex_lt(s[idx as int].name, s[j].name));
                    lemma_lex_lt_trans(name@, s[idx as int].name, s[j].name);
                    if s[j].name == name@ {
                        lemma_lex_lt_irrefl(name@);
                    }
                }
            }
        }
        let mut replace = false;
        if idx < n {
            if str_eq(self.ctors[idx].name.as_str(), name) {
                replace = true;
            }
        }
        if replace {
            let _ = self.ctors.remove(idx);
            self.ctors.insert(idx, entry);
            proof {
                assert(self.ctors@ =~= old(self).ctors@.update(idx as int, entry));
                assert(self.ctor_entries() =~= s.update(idx as int, ev));
                lemma_ctors_map_update(s, idx as int, ev);
                let t = s.update(idx as int, ev);
                assert forall|i: int, j: int| 0 <= i < j < t.len() implies lex_lt(
                    (#[trigger] t[i]).name,
                    (#[trigger] t[j]).name,
                ) by {
                    assert(t[i].name == s[i].name);
                    assert(t[j].name == s[j].name);
                    assert(lex_lt(s[i].name, s[j].name));
                }
                assert(self.method_entries() =~= old(self).method_entries());
            }
        } else {
            proof {
                if idx < s.len() {
                    lemma_lex_lt_connected(name@, s[idx as int].name);
                }
                assert forall|j: int| idx <= j < s.len() implies lex_lt(
                    name@,
                    (#[trigger] s[j]).name,
                ) by {
                    assert(lex_lt(name@, s[idx as int].name));
                    if j > idx {
                        assert(lex_lt(s[idx as int].name, s[j].name));
                        lemma_lex_lt_trans(name@, s[idx as int].name, s[j].name);
                    }
                }
                assert forall|j: int| idx <= j < s.len() implies (#[trigger] s[j]).name
                    != name@ by {
                    if s[j].name == name@ {
                        lemma_lex_lt_irrefl(name@);
                    }
                }
            }
            self.ctors.insert(idx, entry);
            proof {
                assert(self.ctor_entries() =~= s.insert(idx as int, ev));
                lemma_ctors_map_insert(s, idx as int, ev);
                let t = s.insert(idx as int, ev);
                s.insert_ensures(idx as int, ev);
                assert forall|i: int, j: int| 0 <= i < j < t.len() implies lex_lt(
                    (#[trigger] t[i]).name,
                    (#[trigger] t[j]).name,
                ) by {
                    if j < idx {
                        assert(t[i] == s[i] && t[j] == s[j]);
                    } else if j == idx {
                        assert(t[i] == s[i] && t[j] == ev);
                    } else if i < idx {
                        assert(t[i] == s[i] && t[j] == s[j - 1]);
                        if j - 1 == idx {
                            assert(lex_lt(s[i].name, name@));
                            assert(lex_lt(name@, s[j - 1].name));
                            lemma_lex_lt_trans(s[i].name, name@, s[j - 1].name);
                        }
                    } else if i == idx {
                        assert(t[i] == ev && t[j] == s[j - 1]);
                        assert(lex_lt(name@, s[j - 1].name));
                    } else {
                        assert(t[i] == s[i - 1] && t[j] == s[j - 1]);
                    }
                }
                assert(self.method_entries() =~= old(self).method_entries());
            }
        }
    }
}

// ---------------------------------------------------------------------------
// A sorted entry list is determined by the mapping it folds to.
// ---------------------------------------------------------------------------

/// A name is in the folded mapping exactly when some entry carries it.
proof fn lemma_methods_map_contains(s: Seq<MethodEntryView>, k: Seq<char>)
    ensures
        methods_to_map(s).contains_key(k) <==> exists|i: int|
            0 <= i < s.len() && (#[trigger] s[i]).name == k,
    decreases s.len(),
{
    if s.len() > 0 {
        lemma_methods_map_contains(s.drop_last(), k);
        if s.last().name == k {
            assert(s[s.len() - 1].name == k);
        } else {
            if methods_to_map(s).contains_key(k) {
                let i = choose|i: int| 0 <= i < s.drop_last().len() && (#[trigger] s.drop_last()[
                    i
                ]).name == k;
                assert(s[i].name == k);
            }
            if exists|i: int| 0 <= i < s.len() && (#[trigger] s[i]).name == k {
                let i = choose|i: int| 0 <= i < s.len() && (#[trigger] s[i]).name == k;
                assert(i < s.len() - 1);
                assert(s.drop_last()[i].name == k);
            }
        }
    }
}

/// A name is in the folded mapping exactly when some entry carries it.
proof fn lemma_ctors_map_contains(s: Seq<CtorEntryView>, k: Seq<char>)
    ensures
        ctors_to_map(s).contains_key(k) <==> exists|i: int|
            0 <= i < s.len() && (#[trigger] s[i]).name == k,
    decreases s.len(),
{
    if s.len() > 0 {
        lemma_ctors_map_contains(s.drop_last(), k);
        if s.last().name == k {
            assert(s[s.len() - 1].name == k);
        } else {
            if ctors_to_map(s).contains_key(k) {
                let i = choose|i: int| 0 <= i < s.drop_last().len() && (#[trigger] s.drop_last()[
                    i
                ]).name == k;
                assert(s[i].name == k);
            }
            if exists|i: int| 0 <= i < s.len() && (#[trigger] s[i]).name == k {
                let i = choose|i: int| 0 <= i < s.len() && (#[trigger] s[i]).name == k;
                assert(i < s.len() - 1);
                assert(s.drop_last()[i].name == k);
            }
        }
    }
}

/// Dropping the last (greatest) entry removes exactly its key.
proof fn lemma_methods_map_drop(s: Seq<MethodEntryView>)
    requires
        method_names_sorted(s),
        s.len() > 0,
    ensures
        methods_to_map(s.drop_last()) == methods_to_map(s).remove(s.last().name),
{
    let dl = s.drop_last();
    let l = s.last().name;
    lemma_methods_map_contains(dl, l);
    assert forall|i: int| 0 <= i < dl.len() implies (#[trigger] dl[i]).name != l by {
        assert(dl[i] == s[i]);
        assert(lex_lt(s[i].name, l));
        if s[i].name == l {
            lemma_lex_lt_irrefl(l);
        }
    }
    assert(!methods_to_map(dl).contains_key(l));
    assert(methods_to_map(dl).insert(l, s.last().desc).remove(l) =~= methods_to_map(dl));
}

/// Dropping the last (greatest) entry removes exactly its key.
proof fn lemma_ctors_map_drop(s: Seq<CtorEntryView>)
    requires
        ctor_names_sorted(s),
        s.len() > 0,
    ensures
        ctors_to_map(s.drop_last()) == ctors_to_map(s).remove(s.last().name),
{
    let dl = s.drop_last();
    let l = s.last().name;
    lemma_ctors_map_contains(dl, l);
    assert forall|i: int| 0 <= i < dl.len() implies (#[trigger] dl[i]).name != l by {
        assert(dl[i] == s[i]);
        assert(lex_lt(s[i].name, l));
        if s[i].name == l {
            lemma_lex_lt_irrefl(l);
        }
    }
    assert(!ctors_to_map(dl).contains_key(l));
    assert(ctors_to_map(dl).insert(l, s.last().args).remove(l) =~= ctors_to_map(dl));
}

/// Two sorted method lists that fold to the same mapping are the same list.
pub proof fn lemma_sorted_methods_determined(s1: Seq<MethodEntryView>, s2: Seq<MethodEntryView>)
    requires
        method_names_sorted(s1),
        method_names_sorted(s2),
        methods_to_map(s1) == methods_to_map(s2),
    ensures
        s1 == s2,
    decreases s1.len(),
{
    if s1.len() == 0 {
        if s2.len() > 0 {
            assert(methods_to_map(s2).contains_key(s2.last().name));
            assert(!methods_to_map(s1).contains_key(s2.last().name));
        }
        assert(s1 =~= s2);
    } else if s2.len() == 0 {
        assert(methods_to_map(s1).contains_key(s1.last().name));
        assert(!methods_to_map(s2).contains_key(s1.last().name));
    } else {
        let l1 = s1.last();
        let l2 = s2.last();
        if l1.name != l2.name {
            assert(methods_to_map(s1).contains_key(l1.name));
            lemma_methods_map_contains(s2, l1.name);
            let i = choose|i: int| 0 <= i < s2.len() && (#[trigger] s2[i]).name == l1.name;
            assert(i < s2.len() - 1);
            assert(lex_lt(s2[i].name, l2.name));
            assert(methods_to_map(s2).contains_key(l2.name));
            lemma_methods_map_contains(s1, l2.name);
            let j = choose|j: int| 0 <= j < s1.len() && (#[trigger] s1[j]).name == l2.name;
            assert(j < s1.len() - 1);
            assert(lex_lt(s1[j].name, l1.name));
            lemma_lex_lt_asym(l1.name, l2.name);
            assert(false);
        }
        assert(methods_to_map(s1)[l1.name] == l1.desc);
        assert(methods_to_map(s2)[l2.name] == l2.desc);
        assert(l1.desc == l2.desc);
        assert(l1 =~= l2);
        lemma_methods_map_drop(s1);
        lemma_methods_map_drop(s2);
        assert(methods_to_map(s1.drop_last()) == methods_to_map(s2.drop_last()));
        assert(method_names_sorted(s1.drop_last())) by {
            assert(forall|i: int|
                0 <= i < s1.drop_last().len() ==> #[trigger] s1.drop_last()[i] == s1[i]);
        }
        assert(method_names_sorted(s2.drop_last())) by {
            assert(forall|i: int|
                0 <= i < s2.drop_last().len() ==> #[trigger] s2.drop_last()[i] == s2[i]);
        }
        lemma_sorted_methods_determined(s1.drop_last(), s2.drop_last());
        assert(s1.len() == s2.len());
        assert forall|k: int| 0 <= k < s1.len() implies s1[k] == s2[k] by {
            if k < s1.len() - 1 {
                assert(s1.drop_last()[k] == s1[k]);
                assert(s2.drop_last()[k] == s2[k]);
            }
        }
        assert(s1 =~= s2);
    }
}

/// Two sorted constructor lists that fold to the same mapping are the same
/// list.
pub proof fn lemma_sorted_ctors_determined(s1: Seq<CtorEntryView>, s2: Seq<CtorEntryView>)
    requires
        ctor_names_sorted(s1),
        ctor_names_sorted(s2),
        ctors_to_map(s1) == ctors_to_map(s2),
    ensures
        s1 == s2,
    decreases s1.len(),
{
    if s1.len() == 0 {
        if s2.len() > 0 {
            assert(ctors_to_map(s2).contains_key(s2.last().name));
            assert(!ctors_to_map(s1).contains_key(s2.last().name));
        }
        assert(s1 =~= s2);
    } else if s2.len() == 0 {
        assert(ctors_to_map(s1).contains_key(s1.last().name));
        assert(!ctors_to_map(s2).contains_key(s1.last().name));
    } else {
        let l1 = s1.last();
        let l2 = s2.last();
        if l1.name != l2.name {
            assert(ctors_to_map(s1).contains_key(l1.name));
            lemma_ctors_map_contains(s2, l1.name);
            let i = choose|i: int| 0 <= i < s2.len() && (#[trigger] s2[i]).name == l1.name;
            assert(i < s2.len() - 1);
            assert(lex_lt(s2[i].name, l2.name));
            assert(ctors_to_map(s2).contains_key(l2.name));
            lemma_ctors_map_contains(s1, l2.name);
            let j = choose|j: int| 0 <= j < s1.len() && (#[trigger] s1[j]).name == l2.name;
            assert(j < s1.len() - 1);
            assert(lex_lt(s1[j].name, l1.name));
            lemma_lex_lt_asym(l1.name, l2.name);
            assert(false);
        }
        assert(ctors_to_map(s1)[l1.name] == l1.args);
        assert(ctors_to_map(s2)[l2.name] == l2.args);
        assert(l1.args == l2.args);
        assert(l1 =~= l2);
        lemma_ctors_map_drop(s1);
        lemma_ctors_map_drop(s2);
        assert(ctors_to_map(s1.drop_last()) == ctors_to_map(s2.drop_last()));
        assert(ctor_names_sorted(s1.drop_last())) by {
            assert(forall|i: int|
                0 <= i < s1.drop_last().len() ==> #[trigger] s1.drop_last()[i] == s1[i]);
        }
        assert(ctor_names_sorted(s2.drop_last())) by {
            assert(forall|i: int|
                0 <= i < s2.drop_last().len() ==> #[trigger] s2.drop_last()[i] == s2[i]);
        }
        lemma_sorted_ctors_determined(s1.drop_last(), s2.drop_last());
        assert(s1.len() == s2.len());
        assert forall|k: int| 0 <= k < s1.len() implies s1[k] == s2[k] by {
            if k < s1.len() - 1 {
                assert(s1.drop_last()[k] == s1[k]);
                assert(s2.drop_last()[k] == s2[k]);
            }
        }
        assert(s1 =~= s2);
    }
}

} // verus!
