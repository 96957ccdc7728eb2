//! Per-component generator settings.

use vstd::prelude::*;
use vstd::string::StringExecFns;
use vstd::string::StrSliceExecFns;
use crate::text::{chars_of, join2};

verus! {

/// How a custom type is written in Java and converted to and from its builtin type.
pub struct CustomTypeConfig {
    pub imports: Option<Vec<String>>,
    pub target_type_name: Option<String>,
    pub into_custom: String,
    pub from_custom: String,
}

/// Settings of the generated Java for one component.
pub struct Config {
    pub package_name: Option<String>,
    pub cdylib_name: Option<String>,
    pub generate_immutable_records: Option<bool>,
    pub custom_types: Vec<(String, CustomTypeConfig)>,
    /// Java package of the types of other crates, keyed by crate name. The
    /// first entry of a key is the one that counts.
    pub external_packages: Vec<(String, String)>,
    pub android: bool,
    pub android_cleaner: Option<bool>,
}

/// The map that an association list stands for: the first entry of each key wins.
pub open spec fn assoc_map(s: Seq<(String, String)>) -> Map<Seq<char>, Seq<char>>
    decreases s.len(),
{
    if s.len() == 0 {
        Map::empty()
    } else {
        let m = assoc_map(s.drop_last());
        if m.contains_key(s.last().0@) {
            m
        } else {
            m.insert(s.last().0@, s.last().1@)
        }
    }
}

/// A key absent from every entry is absent from the map.
pub proof fn lemma_assoc_absent(s: Seq<(String, String)>, k: Seq<char>)
    requires
        forall|j: int| 0 <= j < s.len() ==> (#[trigger] s[j]).0@ != k,
    ensures
        !assoc_map(s).contains_key(k),
    decreases s.len(),
{
    if s.len() > 0 {
        assert(s.drop_last().len() == s.len() - 1);
        assert forall|j: int| 0 <= j < s.drop_last().len() implies (#[trigger] s.drop_last()[j]).0@
            != k by {
            assert(s.drop_last()[j] == s[j]);
        }
        lemma_assoc_absent(s.drop_last(), k);
    }
}

/// The map holds, for a key, the value of its first entry.
pub proof fn lemma_assoc_first(s: Seq<(String, String)>, k: Seq<char>, i: int)
    requires
        0 <= i < s.len(),
        s[i].0@ == k,
        forall|j: int| 0 <= j < i ==> (#[trigger] s[j]).0@ != k,
    ensures
        assoc_map(s).contains_key(k),
        assoc_map(s)[k] == s[i].1@,
    decreases s.len(),
{
    let d = s.drop_last();
    assert forall|j: int| 0 <= j < i && j < d.len() implies (#[trigger] d[j]).0@ != k by {
        assert(d[j] == s[j]);
    }
    if i == s.len() - 1 {
        lemma_assoc_absent(d, k);
    } else {
        assert(d[i] == s[i]);
        lemma_assoc_first(d, k, i);
    }
}

/// The first `::`-separated segment of a module path: its crate.
pub open spec fn crate_of(path: Seq<char>) -> Seq<char>
    decreases path.len(),
{
    if path.len() < 2 {
        path
    } else if path[0] == ':' && path[1] == ':' {
        Seq::empty()
    } else {
        seq![path[0]] + crate_of(path.drop_first())
    }
}

proof fn lemma_crate_of_step(path: Seq<char>, i: int)
    requires
        0 <= i < path.len(),
        !(i + 1 < path.len() && path[i] == ':' && path[i + 1] == ':'),
    ensures
        crate_of(path.subrange(i, path.len() as int)) == seq![path[i]] + crate_of(
            path.subrange(i + 1, path.len() as int),
        ),
{
    let rest = path.subrange(i, path.len() as int);
    assert(rest.drop_first() == path.subrange(i + 1, path.len() as int));
}

/// The crate that a module path belongs to.
pub fn crate_name_of(path: &str) -> (r: String)
    ensures
        r@ == crate_of(path@),
{
    let cs = chars_of(path);
    let n = cs.len();
    let mut i: usize = 0;
    proof {
        assert(path@.subrange(0, 0) + path@.subrange(0, n as int) =~= path@);
    }
    while i < n
        invariant
            n == cs@.len(),
            cs@ == path@,
            i <= n,
            crate_of(path@) == path@.subrange(0, i as int) + crate_of(
                path@.subrange(i as int, n as int),
            ),
        decreases n - i,
    {
        if i + 1 < n && cs[i] == ':' && cs[i + 1] == ':' {
            proof {
                let rest = path@.subrange(i as int, n as int);
                assert(rest[0] == ':' && rest[1] == ':');
                assert(crate_of(rest) == Seq::<char>::empty());
                assert(path@.subrange(0, i as int) + Seq::<char>::empty() == path@.subrange(
                    0,
                    i as int,
                ));
            }
            return String::from_str(path.substring_char(0, i));
        }
        proof {
            lemma_crate_of_step(path@, i as int);
            assert(path@.subrange(0, i as int) + seq![path@[i as int]] == path@.subrange(
                0,
                i + 1,
            ));
        }
        i = i + 1;
    }
    proof {
        assert(path@.subrange(0, n as int) == path@);
        assert(crate_of(path@.subrange(n as int, n as int)) == Seq::<char>::empty());
    }
    String::from_str(path)
}

/// The package that stands in for a component whose package is not known.
pub open spec fn default_package_of(namespace: Seq<char>) -> Seq<char> {
    "uniffi."@ + namespace
}

impl Config {
    /// The external package table as a map from crate name to package.
    pub open spec fn external_map(&self) -> Map<Seq<char>, Seq<char>> {
        assoc_map(self.external_packages@)
    }

    /// The Java package that qualifies a type of the crate that `module`
    /// belongs to: the configured one, or one derived from `namespace`.
    pub open spec fn external_package_spec(&self, module: Seq<char>, namespace: Seq<char>) -> Seq<
        char,
    > {
        if self.external_map().contains_key(crate_of(module)) {
            self.external_map()[crate_of(module)]
        } else {
            default_package_of(namespace)
        }
    }

    /// The configured package of a crate, if any.
    pub fn external_package(&self, crate_name: &str) -> (r: Option<String>)
        ensures
            r is Some <==> self.external_map().contains_key(crate_name@),
            r is Some ==> r->0@ == self.external_map()[crate_name@],
    {
        let key = String::from_str(crate_name);
        let mut i: usize = 0;
        while i < self.external_packages.len()
            invariant
                key@ == crate_name@,
                i <= self.external_packages@.len(),
                forall|j: int| 0 <= j < i ==> (#[trigger] self.external_packages@[j]).0@ != key@,
            decreases self.external_packages@.len() - i,
        {
            if self.external_packages[i].0 == key {
                proof {
                    lemma_assoc_first(self.external_packages@, key@, i as int);
                }
                return Some(self.external_packages[i].1.clone());
            }
            i = i + 1;
        }
        proof {
            lemma_assoc_absent(self.external_packages@, key@);
        }
        None
    }

    /// The package name for an external type: the configured package of its
    /// crate, else `uniffi.` followed by its namespace.
    pub fn external_type_package_name(&self, module: &str, namespace: &str) -> (r: String)
        ensures
            r@ == self.external_package_spec(module@, namespace@),
    {
        let crate_name = crate_name_of(module);
        match self.external_package(crate_name.as_str()) {
            Some(name) => name,
            None => join2("uniffi.", namespace),
        }
    }

    /// Whether Android's resource cleaner is used; follows `android` unless set.
    pub fn android_cleaner(&self) -> (r: bool)
        ensures
            r == match self.android_cleaner {
                Some(b) => b,
                None => self.android,
            },
    {
        match self.android_cleaner {
            Some(b) => b,
            None => self.android,
        }
    }

    pub open spec fn package_spec(&self) -> Seq<char> {
        match self.package_name {
            Some(p) => p@,
            None => "uniffi"@,
        }
    }

    /// The Java package of the bindings; `uniffi` when not set.
    pub fn package_name(&self) -> (r: String)
        ensures
            r@ == self.package_spec(),
    {
        match &self.package_name {
            Some(p) => p.clone(),
            None => String::from_str("uniffi"),
        }
    }

    /// The name of the native library to load; `uniffi` when not set.
    pub fn cdylib_name(&self) -> (r: String)
        ensures
            r@ == match self.cdylib_name {
                Some(p) => p@,
                None => "uniffi"@,
            },
    {
        match &self.cdylib_name {
            Some(p) => p.clone(),
            None => String::from_str("uniffi"),
        }
    }

    /// Whether to generate immutable records; off unless set.
    pub fn generate_immutable_records(&self) -> (r: bool)
        ensures
            r == match self.generate_immutable_records {
                Some(b) => b,
                None => false,
            },
    {
        match self.generate_immutable_records {
            Some(b) => b,
            None => false,
        }
    }
}

impl Default for Config {
    fn default() -> (r: Config)
        ensures
            r.package_name is None,
            r.cdylib_name is None,
            r.generate_immutable_records is None,
            r.custom_types@.len() == 0,
            r.external_packages@.len() == 0,
            !r.android,
            r.android_cleaner is None,
    {
        Config {
            package_name: None,
            cdylib_name: None,
            generate_immutable_records: None,
            custom_types: Vec::new(),
            external_packages: Vec::new(),
            android: false,
            android_cleaner: None,
        }
    }
}

} // verus!
