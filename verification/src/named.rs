//! The outermost pieces of the generator: a class wrapped with its
//! namespace path and name, the emission context holding the two sinks, the
//! shared foreign prelude, and the generated foreign wrapper struct.

use vstd::prelude::*;
use vstd::string::StringExecFns;

use crate::class::class_cpp_text;
use crate::class::class_rs_text;
use crate::class::Class;
use crate::symbols::c_path_text;
use crate::symbols::generate_c_path;
use crate::text::emit;
use crate::text::lemma_cat_assoc;

verus! {

/// What can go wrong around an emission pass.  The in-memory emitter itself
/// is total: these arise only in drivers that move the finished text to a
/// real sink, which can refuse bytes (`IO`) or reject a malformed name
/// (`Unexpected`).
#[derive(Debug)]
pub enum Error {
    IO,
    Unexpected(String),
}

/// The emission context: two independently owned sinks, one per artifact,
/// and no other shared state.
pub struct Context {
    pub cpp_stream: String,
    pub rs_binding_stream: String,
}

impl Context {
    /// Wraps two sinks into a context.
    pub fn new(cpp_stream: String, rs_binding_stream: String) -> (r: Context)
        ensures
            r.cpp_stream@ == cpp_stream@,
            r.rs_binding_stream@ == rs_binding_stream@,
    {
        Context { cpp_stream: cpp_stream, rs_binding_stream: rs_binding_stream }
    }
}

/// The trait that every generated foreign wrapper struct implements; written
/// once at the top of the foreign artifact.
pub open spec fn prelude_text() -> Seq<char> {
    "\n    pub trait CPPContext {\n      fn mut_ctx(&self) -> *mut c_void;\n      fn ctx(&self) -> *const c_void {\n        self.mut_ctx()\n      }\n    }\n  \n\n"@
}

/// Writes the shared foreign prelude.
pub fn generate_prelude(stream: &mut String)
    ensures
        final(stream)@ == old(stream)@ + prelude_text(),
{
    emit(
        stream,
        "\n    pub trait CPPContext {\n      fn mut_ctx(&self) -> *mut c_void;\n      fn ctx(&self) -> *const c_void {\n        self.mut_ctx()\n      }\n    }\n  \n\n",
    );
}

/// A class wrapped with the namespace path and the name under which it is
/// emitted.  It exclusively owns its class description and only drives
/// emission.
pub struct NamedClass {
    pub namespace: Vec<String>,
    pub name: String,
    pub anon_class: Class,
}

/// The foreign wrapper struct generated around one class: a owning handle
/// over the opaque instance pointer, releasing it on drop.
pub open spec fn struct_text(ns: Seq<Seq<char>>, cls: Seq<char>, name: Seq<char>) -> Seq<char> {
    "use std;\n\n"@ + "pub struct "@ + name + " {\n  ctx: *mut c_void\n}\n"@ + "impl Drop for "@ + name + " {\n  fn drop(&mut self) {\n"@ + "    uns"@ + "afe { cpp::del_"@ + c_path_text(ns, cls) + "(self.ctx) };\n  }\n}\n"@ + "impl "@ + name + " {\n  pub fn new() -> "@ + name + " {\n    let ctx = uns"@ + "afe { cpp::new_"@ + c_path_text(ns, cls) + "() };\n\n    "@ + name + " { ctx: ctx }\n  }\n}\n\n"@ + "impl cpp::CPPContext for "@ + name + " {\n  fn mut_ctx(&self) -> *mut c_void { self.ctx }\n}"@ + "\n\n"@ + "impl std::default::Default for "@ + name + " {\n  fn default() -> "@ + name + " { "@ + name + "::new() }\n}"@ + "\n\n"@
}

impl NamedClass {
    /// Wraps a class with its namespace path and name.
    pub fn new(namespace: Vec<String>, name: String, anon_class: Class) -> (r: NamedClass)
        ensures
            r.namespace@ == namespace@,
            r.name@ == name@,
            r.anon_class == anon_class,
    {
        NamedClass { namespace: namespace, name: name, anon_class: anon_class }
    }

    /// The flat, linker-safe path of this class.
    pub fn c_path(&self) -> (r: String)
        ensures
            r@ == c_path_text(self.namespace.deep_view(), self.name@),
    {
        let mut out = String::new();
        generate_c_path(&self.namespace, self.name.as_str(), &mut out);
        proof {
            assert(out@ =~= c_path_text(self.namespace.deep_view(), self.name@));
        }
        out
    }

    /// The foreign wrapper struct for this class, as one rendered text.
    pub fn generate_struct(&self, name: &str) -> (r: String)
        ensures
            r@ == struct_text(self.namespace.deep_view(), self.name@, name@),
    {
        let mut stream = String::new();
        self.write_struct(name, &mut stream);
        proof {
            assert(stream@ =~= struct_text(self.namespace.deep_view(), self.name@, name@));
        }
        stream
    }

    /// Writes the foreign wrapper struct for this class, declared under
    /// `name`, into `stream`.
    pub fn write_struct(&self, name: &str, stream: &mut String)
        ensures
            final(stream)@ == old(stream)@ + struct_text(
                self.namespace.deep_view(),
                self.name@,
                name@,
            ),
    {
        let ghost o = stream@;
        let ghost ns = self.namespace.deep_view();
        let ghost mut t: Seq<char> = Seq::empty();
        emit(stream, "use std;\n\n");
        proof {
            t = "use std;\n\n"@;
            assert(stream@ == o + t);
        }
        emit(stream, "pub struct ");
        proof {
            lemma_cat_assoc(o, t, "pub struct "@);
            t = t + "pub struct "@;
            assert(stream@ == o + t);
        }
        emit(stream, name);
        proof {
            lemma_cat_assoc(o, t, name@);
            t = t + name@;
            assert(stream@ == o + t);
        }
        emit(stream, " {\n  ctx: *mut c_void\n}\n");
        proof {
            lemma_cat_assoc(o, t, " {\n  ctx: *mut c_void\n}\n"@);
            t = t + " {\n  ctx: *mut c_void\n}\n"@;
            assert(stream@ == o + t);
        }
        emit(stream, "impl Drop for ");
        proof {
            lemma_cat_assoc(o, t, "impl Drop for "@);
            t = t + "impl Drop for "@;
            assert(stream@ == o + t);
        }
        emit(stream, name);
        proof {
            lemma_cat_assoc(o, t, name@);
            t = t + name@;
            assert(stream@ == o + t);
        }
        emit(stream, " {\n  fn drop(&mut self) {\n");
        proof {
            lemma_cat_assoc(o, t, " {\n  fn drop(&mut self) {\n"@);
            t = t + " {\n  fn drop(&mut self) {\n"@;
            assert(stream@ == o + t);
        }
        emit(stream, "    uns");
        proof {
            lemma_cat_assoc(o, t, "    uns"@);
            t = t + "    uns"@;
            assert(stream@ == o + t);
        }
        emit(stream, "afe { cpp::del_");
        proof {
            lemma_cat_assoc(o, t, "afe { cpp::del_"@);
            t = t + "afe { cpp::del_"@;
            assert(stream@ == o + t);
        }
        generate_c_path(&self.namespace, self.name.as_str(), stream);
        proof {
            lemma_cat_assoc(o, t, c_path_text(ns, self.name@));
            t = t + c_path_text(ns, self.name@);
            assert(stream@ == o + t);
        }
        emit(stream, "(self.ctx) };\n  }\n}\n");
        proof {
            lemma_cat_assoc(o, t, "(self.ctx) };\n  }\n}\n"@);
            t = t + "(self.ctx) };\n  }\n}\n"@;
            assert(stream@ == o + t);
        }
        emit(stream, "impl ");
        proof {
            lemma_cat_assoc(o, t, "impl "@);
            t = t + "impl "@;
            assert(stream@ == o + t);
        }
        emit(stream, name);
        proof {
            lemma_cat_assoc(o, t, name@);
            t = t + name@;
            assert(stream@ == o + t);
        }
        emit(stream, " {\n  pub fn new() -> ");
        proof {
            lemma_cat_assoc(o, t, " {\n  pub fn new() -> "@);
            t = t + " {\n  pub fn new() -> "@;
            assert(stream@ == o + t);
        }
        emit(stream, name);
        proof {
            lemma_cat_assoc(o, t, name@);
            t = t + name@;
            assert(stream@ == o + t);
        }
        emit(stream, " {\n    let ctx = uns");
        proof {
            lemma_cat_assoc(o, t, " {\n    let ctx = uns"@);
            t = t + " {\n    let ctx = uns"@;
            assert(stream@ == o + t);
        }
        emit(stream, "afe { cpp::new_");
        proof {
            lemma_cat_assoc(o, t, "afe { cpp::new_"@);
            t = t + "afe { cpp::new_"@;
            assert(stream@ == o + t);
        }
        generate_c_path(&self.namespace, self.name.as_str(), stream);
        proof {
            lemma_cat_assoc(o, t, c_path_text(ns, self.name@));
            t = t + c_path_text(ns, self.name@);
            assert(stream@ == o + t);
        }
        emit(stream, "() };\n\n    ");
        proof {
            lemma_cat_assoc(o, t, "() };\n\n    "@);
            t = t + "() };\n\n    "@;
            assert(stream@ == o + t);
        }
        emit(stream, name);
        proof {
            lemma_cat_assoc(o, t, name@);
            t = t + name@;
            assert(stream@ == o + t);
        }
        emit(stream, " { ctx: ctx }\n  }\n}\n\n");
        proof {
            lemma_cat_assoc(o, t, " { ctx: ctx }\n  }\n}\n\n"@);
            t = t + " { ctx: ctx }\n  }\n}\n\n"@;
            assert(stream@ == o + t);
        }
        emit(stream, "impl cpp::CPPContext for ");
        proof {
            lemma_cat_assoc(o, t, "impl cpp::CPPContext for "@);
            t = t + "impl cpp::CPPContext for "@;
            assert(stream@ == o + t);
        }
        emit(stream, name);
        proof {
            lemma_cat_assoc(o, t, name@);
            t = t + name@;
            assert(stream@ == o + t);
        }
        emit(stream, " {\n  fn mut_ctx(&self) -> *mut c_void { self.ctx }\n}");
        proof {
            lemma_cat_assoc(o, t, " {\n  fn mut_ctx(&self) -> *mut c_void { self.ctx }\n}"@);
            t = t + " {\n  fn mut_ctx(&self) -> *mut c_void { self.ctx }\n}"@;
            assert(stream@ == o + t);
        }
        emit(stream, "\n\n");
        proof {
            lemma_cat_assoc(o, t, "\n\n"@);
            t = t + "\n\n"@;
            assert(stream@ == o + t);
        }
        emit(stream, "impl std::default::Default for ");
        proof {
            lemma_cat_assoc(o, t, "impl std::default::Default for "@);
            t = t + "impl std::default::Default for "@;
            assert(stream@ == o + t);
        }
        emit(stream, name);
        proof {
            lemma_cat_assoc(o, t, name@);
            t = t + name@;
            assert(stream@ == o + t);
        }
        emit(stream, " {\n  fn default() -> ");
        proof {
            lemma_cat_assoc(o, t, " {\n  fn default() -> "@);
            t = t + " {\n  fn default() -> "@;
            assert(stream@ == o + t);
        }
        emit(stream, name);
        proof {
            lemma_cat_assoc(o, t, name@);
            t = t + name@;
            assert(stream@ == o + t);
        }
        emit(stream, " { ");
        proof {
            lemma_cat_assoc(o, t, " { "@);
            t = t + " { "@;
            assert(stream@ == o + t);
        }
        emit(stream, name);
        proof {
            lemma_cat_assoc(o, t, name@);
            t = t + name@;
            assert(stream@ == o + t);
        }
        emit(stream, "::new() }\n}");
        proof {
            lemma_cat_assoc(o, t, "::new() }\n}"@);
            t = t + "::new() }\n}"@;
            assert(stream@ == o + t);
        }
        emit(stream, "\n\n");
        proof {
            lemma_cat_assoc(o, t, "\n\n"@);
            t = t + "\n\n"@;
            assert(stream@ == o + t);
        }
        proof {
            assert(t == struct_text(ns, self.name@, name@));
        }
    }

    /// Writes both artifacts for this class into the context's sinks.
    pub fn generate_bindings(&self, context: &mut Context)
        ensures
            final(context).cpp_stream@ == old(context).cpp_stream@ + class_cpp_text(
                self.anon_class.method_entries(),
                self.anon_class.ctor_entries(),
                self.namespace.deep_view(),
                self.name@,
            ),
            final(context).rs_binding_stream@ == old(context).rs_binding_stream@ + class_rs_text(
                self.anon_class.method_entries(),
                self.anon_class.ctor_entries(),
                self.namespace.deep_view(),
                self.name@,
            ),
    {
        self.anon_class.generate(
            &self.namespace,
            self.name.as_str(),
            &mut context.cpp_stream,
            &mut context.rs_binding_stream,
        );
    }
}

} // verus!
