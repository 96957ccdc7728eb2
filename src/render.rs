//! The bookkeeping of one render pass: the imports it collects and the
//! fragments it has emitted, and the document it ends with.

use vstd::prelude::*;
use vstd::string::StringExecFns;
use crate::code_type::code_type_of;
use crate::config::Config;
use crate::model::{ComponentInterface, Type};
use crate::naming::JavaCodeOracle;
use crate::order::{
    lemma_seq_lt_irreflexive, lemma_seq_lt_total, lemma_seq_lt_transitive, seq_lt, str_lt,
};
use crate::partition::string_views;
use crate::text::{join3, str_eq};

verus! {

/// A Java import statement.
pub enum ImportRequirement {
    /// The name we are importing.
    Import { name: String },
    /// Import the name with the specified local name.
    ImportAs { name: String, as_name: String },
}

/// An import as its kind, its name and its local name (empty for a plain import).
pub type ImportKey = (bool, Seq<char>, Seq<char>);

impl View for ImportRequirement {
    type V = ImportKey;

    open spec fn view(&self) -> ImportKey {
        match self {
            ImportRequirement::Import { name } => (false, name@, Seq::empty()),
            ImportRequirement::ImportAs { name, as_name } => (true, name@, as_name@),
        }
    }
}

/// The order of imports: plain ones first, then by name, then by local name.
pub open spec fn import_lt(a: ImportKey, b: ImportKey) -> bool {
    (!a.0 && b.0) || (a.0 == b.0 && (seq_lt(a.1, b.1) || (a.1 == b.1 && seq_lt(a.2, b.2))))
}

proof fn lemma_import_lt_irreflexive(a: ImportKey)
    ensures
        !import_lt(a, a),
{
    lemma_seq_lt_irreflexive(a.1);
    lemma_seq_lt_irreflexive(a.2);
}

proof fn lemma_import_lt_transitive(a: ImportKey, b: ImportKey, c: ImportKey)
    requires
        import_lt(a, b),
        import_lt(b, c),
    ensures
        import_lt(a, c),
{
    if a.0 == b.0 && b.0 == c.0 {
        if seq_lt(a.1, b.1) && seq_lt(b.1, c.1) {
            lemma_seq_lt_transitive(a.1, b.1, c.1);
        } else if a.1 == b.1 && b.1 == c.1 {
            lemma_seq_lt_transitive(a.2, b.2, c.2);
        }
    }
}

proof fn lemma_import_lt_total(a: ImportKey, b: ImportKey)
    ensures
        a == b || import_lt(a, b) || import_lt(b, a),
{
    lemma_seq_lt_total(a.1, b.1);
    lemma_seq_lt_total(a.2, b.2);
}

/// Strictly increasing, so each import once.
pub open spec fn import_sorted(s: Seq<ImportKey>) -> bool {
    forall|i: int, j: int| 0 <= i < j < s.len() ==> import_lt(#[trigger] s[i], #[trigger] s[j])
}

/// The import statement of one import.
pub open spec fn import_line(k: ImportKey) -> Seq<char> {
    if k.0 {
        "import "@ + k.1 + " as "@ + k.2 + ";"@
    } else {
        "import "@ + k.1 + ";"@
    }
}

/// The import statements, one per line.
pub open spec fn imports_block(s: Seq<ImportKey>) -> Seq<char>
    decreases s.len(),
{
    if s.len() == 0 {
        Seq::empty()
    } else {
        imports_block(s.drop_last()) + import_line(s.last()) + "\n"@
    }
}

impl ImportRequirement {
    /// The Java import statement.
    pub fn render(&self) -> (r: String)
        ensures
            r@ == import_line(self@),
    {
        match self {
            ImportRequirement::Import { name } => join3("import ", name.as_str(), ";"),
            ImportRequirement::ImportAs { name, as_name } => join3(
                "import ",
                name.as_str(),
                " as ",
            ).concat(as_name.as_str()).concat(";"),
        }
    }

    /// A copy of this import.
    pub fn duplicate(&self) -> (r: ImportRequirement)
        ensures
            r@ == self@,
    {
        match self {
            ImportRequirement::Import { name } => ImportRequirement::Import { name: name.clone() },
            ImportRequirement::ImportAs { name, as_name } => ImportRequirement::ImportAs {
                name: name.clone(),
                as_name: as_name.clone(),
            },
        }
    }

    fn is_as(&self) -> (r: bool)
        ensures
            r == self@.0,
    {
        match self {
            ImportRequirement::Import { .. } => false,
            ImportRequirement::ImportAs { .. } => true,
        }
    }

    fn parts(&self) -> (r: (&str, &str))
        ensures
            r.0@ == self@.1,
            r.1@ == self@.2,
    {
        proof {
            reveal_strlit("");
        }
        match self {
            ImportRequirement::Import { name } => (name.as_str(), ""),
            ImportRequirement::ImportAs { name, as_name } => (name.as_str(), as_name.as_str()),
        }
    }

    /// Whether this import sorts before `other`.
    pub fn sorts_before(&self, other: &ImportRequirement) -> (r: bool)
        ensures
            r == import_lt(self@, other@),
    {
        proof {
            reveal_strlit("");
        }
        let (a1, a2) = self.parts();
        let (b1, b2) = other.parts();
        let ka = self.is_as();
        let kb = other.is_as();
        (!ka && kb) || (ka == kb && (str_lt(a1, b1) || (str_eq(a1, b1) && str_lt(a2, b2))))
    }

    /// Whether this import is the same statement as `other`.
    pub fn same_as(&self, other: &ImportRequirement) -> (r: bool)
        ensures
            r == (self@ == other@),
    {
        proof {
            reveal_strlit("");
        }
        let (a1, a2) = self.parts();
        let (b1, b2) = other.parts();
        self.is_as() == other.is_as() && str_eq(a1, b1) && str_eq(a2, b2)
    }
}

/// The views of a list of imports.
pub open spec fn import_keys(v: Seq<ImportRequirement>) -> Seq<ImportKey> {
    v.map_values(|i: ImportRequirement| i@)
}

/// The include-once step: whether `name` is new, and the names seen after it.
pub open spec fn include_once_step(seen: Set<Seq<char>>, name: Seq<char>) -> (bool, Set<
    Seq<char>,
>) {
    (!seen.contains(name), seen.insert(name))
}

/// The state of one render pass over a component's types.
pub struct TypeRenderer<'a> {
    config: &'a Config,
    ci: &'a ComponentInterface,
    /// Fragments already emitted, for `include_once_check`.
    include_once_names: Vec<String>,
    /// Imports collected so far, sorted and without repeats.
    imports: Vec<ImportRequirement>,
}

impl<'a> TypeRenderer<'a> {
    /// The fragment names emitted so far.
    pub closed spec fn included(&self) -> Set<Seq<char>> {
        Set::new(
            |nm: Seq<char>|
                exists|i: int|
                    0 <= i < self.include_once_names@.len() && #[trigger] self.include_once_names@[i]@
                        == nm,
        )
    }

    /// The imports collected so far, in order.
    pub closed spec fn import_keys(&self) -> Seq<ImportKey> {
        import_keys(self.imports@)
    }

    /// The configuration and the interface the pass renders.
    pub closed spec fn context(&self) -> (Config, ComponentInterface) {
        (*self.config, *self.ci)
    }

    #[verifier::type_invariant]
    closed spec fn wf(&self) -> bool {
        import_sorted(import_keys(self.imports@))
    }

    /// A fresh pass: nothing emitted, nothing imported.
    pub fn new(config: &'a Config, ci: &'a ComponentInterface) -> (r: Self)
        ensures
            r.context() == (*config, *ci),
            r.included() == Set::<Seq<char>>::empty(),
            r.import_keys() == Seq::<ImportKey>::empty(),
    {
        let r = TypeRenderer {
            config,
            ci,
            include_once_names: Vec::new(),
            imports: Vec::new(),
        };
        assert(r.included() =~= Set::<Seq<char>>::empty());
        assert(r.import_keys() =~= Seq::<ImportKey>::empty());
        r
    }

    /// The package that qualifies an external type.
    pub fn external_type_package_name(&self, module: &str, namespace: &str) -> (r: String)
        ensures
            r@ == self.context().0.external_package_spec(module@, namespace@),
    {
        self.config.external_type_package_name(module, namespace)
    }

    /// True the first time a fragment name is asked for in this pass, false
    /// after that.
    pub fn include_once_check(&mut self, name: &str) -> (r: bool)
        ensures
            (r, final(self).included()) == include_once_step(old(self).included(), name@),
            final(self).import_keys() == old(self).import_keys(),
            final(self).context() == old(self).context(),
    {
        proof {
            use_type_invariant(&*self);
        }
        let key = String::from_str(name);
        let mut i: usize = 0;
        while i < self.include_once_names.len()
            invariant
                key@ == name@,
                i <= self.include_once_names@.len(),
                forall|j: int|
                    0 <= j < i ==> (#[trigger] self.include_once_names@[j])@ != name@,
            decreases self.include_once_names@.len() - i,
        {
            if self.include_once_names[i] == key {
                proof {
                    assert(self.included().contains(name@));
                    assert(self.included().insert(name@) =~= self.included());
                }
                return false;
            }
            i = i + 1;
        }
        let ghost before = self.included();
        let mut names: Vec<String> = Vec::new();
        std::mem::swap(&mut self.include_once_names, &mut names);
        names.push(key);
        self.include_once_names = names;
        proof {
            assert(!before.contains(name@));
            assert forall|nm: Seq<char>| self.included().contains(nm) == before.insert(
                name@,
            ).contains(nm) by {
                if before.contains(nm) {
                    let j = choose|j: int|
                        0 <= j < old(self).include_once_names@.len()
                            && #[trigger] old(self).include_once_names@[j]@ == nm;
                    assert(self.include_once_names@[j] == old(self).include_once_names@[j]);
                }
                if nm == name@ {
                    let last = self.include_once_names@.len() - 1;
                    assert(self.include_once_names@[last]@ == nm);
                }
                if self.included().contains(nm) && nm != name@ {
                    let j = choose|j: int|
                        0 <= j < self.include_once_names@.len()
                            && #[trigger] self.include_once_names@[j]@ == nm;
                    assert(j < old(self).include_once_names@.len());
                    assert(old(self).include_once_names@[j] == self.include_once_names@[j]);
                }
            }
            assert(self.included() =~= before.insert(name@));
        }
        true
    }

    fn insert_import(&mut self, req: ImportRequirement)
        ensures
            final(self).import_keys().to_set() == old(self).import_keys().to_set().insert(req@),
            final(self).included() == old(self).included(),
            final(self).context() == old(self).context(),
    {
        proof {
            use_type_invariant(&*self);
        }
        let ghost x = req@;
        let ghost s = self.import_keys();
        let mut i: usize = 0;
        while i < self.imports.len() && self.imports[i].sorts_before(&req)
            invariant
                self.imports == old(self).imports,
                self.include_once_names == old(self).include_once_names,
                self.config == old(self).config,
                self.ci == old(self).ci,
                s == self.import_keys(),
                s.len() == self.imports@.len(),
                x == req@,
                import_sorted(s),
                i <= self.imports@.len(),
                forall|k: int| 0 <= k < i ==> import_lt(#[trigger] s[k], x),
            decreases self.imports@.len() - i,
        {
            i = i + 1;
        }
        if i < self.imports.len() && self.imports[i].same_as(&req) {
            proof {
                assert(s.to_set().insert(x) =~= s.to_set()) by {
                    assert(s.to_set().contains(s[i as int]));
                }
            }
            return;
        }
        proof {
            if i < s.len() {
                lemma_import_lt_total(x, s[i as int]);
            }
            assert forall|k: int| i <= k < s.len() implies import_lt(x, #[trigger] s[k]) by {
                if k > i {
                    lemma_import_lt_transitive(x, s[i as int], s[k]);
                }
            }
        }
        let mut imports: Vec<ImportRequirement> = Vec::new();
        std::mem::swap(&mut self.imports, &mut imports);
        imports.insert(i, req);
        proof {
            let t = import_keys(imports@);
            assert(t =~= s.insert(i as int, x));
            assert forall|a: int, b: int| 0 <= a < b < t.len() implies import_lt(
                #[trigger] t[a],
                #[trigger] t[b],
            ) by {
                if b < i {
                } else if a < i && b == i {
                } else if a < i && b > i {
                    assert(t[b] == s[b - 1]);
                    lemma_import_lt_transitive(s[a], x, s[b - 1]);
                } else if a == i {
                    assert(t[b] == s[b - 1]);
                } else {
                    assert(t[a] == s[a - 1]);
                    assert(t[b] == s[b - 1]);
                }
            }
        }
        self.imports = imports;
        proof {
            let t = self.import_keys();
            assert(t =~= s.insert(i as int, x));
            assert forall|y: ImportKey| t.to_set().contains(y) == s.to_set().insert(x).contains(y) by {
                if s.to_set().contains(y) {
                    let k = choose|k: int| 0 <= k < s.len() && s[k] == y;
                    if k < i {
                        assert(t[k] == y);
                    } else {
                        assert(t[k + 1] == y);
                    }
                }
                if y == x {
                    assert(t[i as int] == y);
                }
                if t.to_set().contains(y) {
                    let k = choose|k: int| 0 <= k < t.len() && t[k] == y;
                    if k < i {
                        assert(s[k] == y);
                    } else if k > i {
                        assert(s[k - 1] == y);
                    }
                }
            }
            assert(t.to_set() =~= s.to_set().insert(x));
        }
    }

    /// Adds `import name;` to the pass; a repeat changes nothing. Returns the
    /// empty string, so that a template can call it where text goes.
    pub fn add_import(&mut self, name: &str) -> (r: &'static str)
        ensures
            r@ == ""@,
            final(self).import_keys().to_set() == old(self).import_keys().to_set().insert(
                (false, name@, Seq::empty()),
            ),
            final(self).included() == old(self).included(),
            final(self).context() == old(self).context(),
    {
        self.insert_import(ImportRequirement::Import { name: String::from_str(name) });
        ""
    }

    /// Adds `import name as as_name;` to the pass; a repeat changes nothing.
    pub fn add_import_as(&mut self, name: &str, as_name: &str) -> (r: &'static str)
        ensures
            r@ == ""@,
            final(self).import_keys().to_set() == old(self).import_keys().to_set().insert(
                (true, name@, as_name@),
            ),
            final(self).included() == old(self).included(),
            final(self).context() == old(self).context(),
    {
        self.insert_import(
            ImportRequirement::ImportAs {
                name: String::from_str(name),
                as_name: String::from_str(as_name),
            },
        );
        ""
    }

    /// Ends the pass, handing over the imports it collected, in order.
    pub fn into_imports(self) -> (r: Vec<ImportRequirement>)
        ensures
            import_keys(r@) == self.import_keys(),
            import_sorted(import_keys(r@)),
    {
        proof {
            use_type_invariant(&self);
        }
        self.imports
    }
}

/// A pass's sorted imports hold each import once, and adding one that is
/// there already leaves them as they were: after `add_import("x")` twice,
/// `import x;` stands once in the import block.
pub proof fn lemma_import_once(s: Seq<ImportKey>, x: ImportKey)
    requires
        import_sorted(s),
        s.to_set().contains(x),
    ensures
        s.to_set().insert(x) == s.to_set(),
        exists|i: int|
            0 <= i < s.len() && s[i] == x && forall|j: int|
                0 <= j < s.len() && #[trigger] s[j] == x ==> j == i,
{
    assert(s.to_set().insert(x) =~= s.to_set());
    let i = choose|i: int| 0 <= i < s.len() && s[i] == x;
    assert forall|j: int| 0 <= j < s.len() && #[trigger] s[j] == x implies j == i by {
        if j < i {
            lemma_import_lt_irreflexive(x);
            assert(import_lt(s[j], s[i]));
        } else if i < j {
            lemma_import_lt_irreflexive(x);
            assert(import_lt(s[i], s[j]));
        }
    }
}

/// Include-once answers yes to a name the first time in a pass and no on
/// every later call: once seen, a name stays seen whatever is asked next.
pub proof fn lemma_include_once(seen: Set<Seq<char>>, y: Seq<char>, z: Seq<char>)
    ensures
        include_once_step(Set::empty(), y).0,
        include_once_step(seen, y).1.contains(y),
        seen.contains(y) ==> !include_once_step(seen, y).0,
        seen.contains(y) ==> include_once_step(seen, z).1.contains(y),
{
}

/// The start-up hooks of the types, in the order the types first ask for
/// them, each once.
pub open spec fn init_fns_of(types: Seq<Type>) -> Seq<Seq<char>>
    decreases types.len(),
{
    if types.len() == 0 {
        Seq::empty()
    } else {
        let prev = init_fns_of(types.drop_last());
        match code_type_of(types.last()).initialization_spec() {
            Some(f) => if prev.contains(f) {
                prev
            } else {
                prev.push(f)
            },
            None => prev,
        }
    }
}

/// No hook is listed twice.
pub proof fn lemma_init_fns_distinct(types: Seq<Type>)
    ensures
        init_fns_of(types).no_duplicates(),
    decreases types.len(),
{
    if types.len() > 0 {
        lemma_init_fns_distinct(types.drop_last());
        let prev = init_fns_of(types.drop_last());
        if let Some(f) = code_type_of(types.last()).initialization_spec() {
            if !prev.contains(f) {
                let next = prev.push(f);
                assert forall|i: int, j: int|
                    0 <= i < next.len() && 0 <= j < next.len() && i != j implies next[i]
                    != next[j] by {
                    if i == prev.len() as int {
                        assert(prev[j] == next[j]);
                    } else if j == prev.len() as int {
                        assert(prev[i] == next[i]);
                    }
                }
            }
        }
    }
}

fn contains_string(v: &Vec<String>, s: &String) -> (r: bool)
    ensures
        r == string_views(v@).contains(s@),
{
    let mut i: usize = 0;
    while i < v.len()
        invariant
            i <= v@.len(),
            forall|j: int| 0 <= j < i ==> (#[trigger] v@[j])@ != s@,
        decreases v@.len() - i,
    {
        if v[i] == *s {
            proof {
                assert(string_views(v@)[i as int] == s@);
            }
            return true;
        }
        i = i + 1;
    }
    proof {
        if string_views(v@).contains(s@) {
            let j = choose|j: int| 0 <= j < v@.len() && #[trigger] string_views(v@)[j] == s@;
            assert(v@[j]@ == s@);
        }
    }
    false
}

/// What the document of one component is made of.
pub struct JavaWrapper<'a> {
    config: &'a Config,
    ci: &'a ComponentInterface,
    type_helper_code: String,
    type_imports: Vec<ImportRequirement>,
}

impl<'a> JavaWrapper<'a> {
    #[verifier::type_invariant]
    closed spec fn wf(&self) -> bool {
        import_sorted(import_keys(self.type_imports@))
    }

    pub closed spec fn config_view(&self) -> Config {
        *self.config
    }

    pub closed spec fn ci_view(&self) -> ComponentInterface {
        *self.ci
    }

    pub closed spec fn helper_code(&self) -> Seq<char> {
        self.type_helper_code@
    }

    pub closed spec fn import_keys(&self) -> Seq<ImportKey> {
        import_keys(self.type_imports@)
    }

    /// The document of a component whose types were rendered to
    /// `type_helper_code` by the pass `renderer`.
    pub fn new(
        config: &'a Config,
        ci: &'a ComponentInterface,
        renderer: TypeRenderer,
        type_helper_code: String,
    ) -> (r: Self)
        ensures
            r.config_view() == *config,
            r.ci_view() == *ci,
            r.helper_code() == type_helper_code@,
            r.import_keys() == renderer.import_keys(),
    {
        let type_imports = renderer.into_imports();
        JavaWrapper { config, ci, type_helper_code, type_imports }
    }

    /// The registration hooks that must run once at start-up, in the order
    /// of the component's types; a hook that two types ask for is listed once.
    pub fn initialization_fns(&self) -> (r: Vec<String>)
        ensures
            r@.map_values(|s: String| s@) == init_fns_of(self.ci_view().types@),
    {
        let types = &self.ci.types;
        let mut out: Vec<String> = Vec::new();
        let mut i: usize = 0;
        while i < types.len()
            invariant
                types@ == self.ci_view().types@,
                i <= types@.len(),
                out@.map_values(|s: String| s@) == init_fns_of(types@.take(i as int)),
            decreases types@.len() - i,
        {
            proof {
                assert(types@.take(i + 1).drop_last() == types@.take(i as int));
                assert(types@.take(i + 1).last() == types@[i as int]);
            }
            let ct = JavaCodeOracle.find(&types[i]);
            match ct.initialization_fn() {
                Some(f) => if !contains_string(&out, &f) {
                    out.push(f);
                    proof {
                        assert(out@.map_values(|s: String| s@) =~= init_fns_of(
                            types@.take(i as int),
                        ).push(out@.last()@));
                    }
                },
                _ => {},
            }
            i = i + 1;
        }
        proof {
            assert(types@.take(i as int) == types@);
        }
        out
    }

    /// The imports of the document, sorted, each once.
    pub fn imports(&self) -> (r: Vec<ImportRequirement>)
        ensures
            import_keys(r@) == self.import_keys(),
            import_sorted(import_keys(r@)),
    {
        proof {
            use_type_invariant(self);
        }
        let mut out: Vec<ImportRequirement> = Vec::new();
        let mut i: usize = 0;
        while i < self.type_imports.len()
            invariant
                i <= self.type_imports@.len(),
                out@.len() == i,
                import_keys(out@) == import_keys(self.type_imports@).take(i as int),
            decreases self.type_imports@.len() - i,
        {
            let ghost prev = out@;
            let d = self.type_imports[i].duplicate();
            out.push(d);
            proof {
                let want = import_keys(self.type_imports@).take(i + 1);
                assert forall|k: int| 0 <= k < out@.len() implies #[trigger] import_keys(out@)[k]
                    == want[k] by {
                    if k < i {
                        assert(out@[k] == prev[k]);
                        assert(import_keys(prev)[k] == import_keys(self.type_imports@).take(
                            i as int,
                        )[k]);
                    }
                }
                assert(import_keys(out@) =~= want);
            }
            i = i + 1;
        }
        proof {
            assert(import_keys(self.type_imports@).take(i as int) == import_keys(
                self.type_imports@,
            ));
        }
        out
    }

    /// The document: the package line, the import block, then the code.
    pub fn render(&self) -> (r: String)
        ensures
            r@ == "package "@ + self.config_view().package_spec() + ";\n\n"@ + imports_block(
                self.import_keys(),
            ) + "\n"@ + self.helper_code(),
    {
        let package = self.config.package_name();
        let mut out = join3("package ", package.as_str(), ";\n\n");
        let ghost head = out@;
        let ghost keys = self.import_keys();
        let mut i: usize = 0;
        while i < self.type_imports.len()
            invariant
                keys == import_keys(self.type_imports@),
                i <= self.type_imports@.len(),
                out@ == head + imports_block(keys.take(i as int)),
            decreases self.type_imports@.len() - i,
        {
            let line = self.type_imports[i].render();
            out.append(line.as_str());
            out.append("\n");
            proof {
                assert(keys.take(i + 1).drop_last() == keys.take(i as int));
                assert(keys.take(i + 1).last() == keys[i as int]);
            }
            i = i + 1;
        }
        proof {
            assert(keys.take(i as int) == keys);
        }
        out.append("\n");
        out.append(self.type_helper_code.as_str());
        out
    }
}

/// The Java document of a component: its package line, the imports its
/// render pass collected, and the code of its types.
pub fn generate_bindings(
    config: &Config,
    ci: &ComponentInterface,
    renderer: TypeRenderer,
    type_helper_code: String,
) -> (r: String)
    ensures
        r@ == "package "@ + config.package_spec() + ";\n\n"@ + imports_block(
            renderer.import_keys(),
        ) + "\n"@ + type_helper_code@,
{
    JavaWrapper::new(config, ci, renderer, type_helper_code).render()
}

} // verus!
