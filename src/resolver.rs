//! Cross-component package resolution, run once before any component is
//! rendered.

use vstd::prelude::*;
use vstd::string::StringExecFns;
use crate::config::{assoc_map, Config};
use crate::model::ComponentInterface;
use crate::text::join2;

verus! {

/// Settings shared by every component of one generation run.
pub struct GenerationSettings {
    pub out_dir: String,
    pub try_format_code: bool,
    pub cdylib: Option<String>,
}

/// One component to generate: its interface and its configuration.
pub struct Component {
    pub ci: ComponentInterface,
    pub config: Config,
}

/// The generator's entry points that are not I/O.
pub struct JavaBindingGenerator;

/// A component's package once defaults are filled in.
pub open spec fn defaulted_package(c: Component) -> Seq<char> {
    match c.config.package_name {
        Some(p) => p@,
        None => "uniffi."@ + c.ci.namespace@,
    }
}

/// A component's native library name once defaults are filled in.
pub open spec fn defaulted_cdylib(settings: GenerationSettings, c: Component) -> Seq<char> {
    match c.config.cdylib_name {
        Some(p) => p@,
        None => match settings.cdylib {
            Some(d) => d@,
            None => "uniffi_"@ + c.ci.namespace@,
        },
    }
}

/// The package of the last component of crate `k`.
pub open spec fn package_of_crate(cs: Seq<Component>, k: Seq<char>) -> Seq<char>
    decreases cs.len(),
{
    if cs.len() == 0 {
        Seq::empty()
    } else if cs.last().ci.crate_name@ == k {
        defaulted_package(cs.last())
    } else {
        package_of_crate(cs.drop_last(), k)
    }
}

/// Some component at or after `from` belongs to crate `k`.
pub open spec fn crate_from(cs: Seq<Component>, k: Seq<char>, from: int) -> bool {
    exists|i: int| from <= i < cs.len() && #[trigger] cs[i].ci.crate_name@ == k
}

/// The external packages of component `j` after resolution: its own entries
/// stay, and every other crate of the run maps to that crate's package.
pub open spec fn resolved_externals(cs: Seq<Component>, j: int) -> Map<Seq<char>, Seq<char>> {
    resolved_from(cs, cs[j].config.external_map(), cs[j].ci.crate_name@, 0)
}

pub open spec fn resolved_from(
    cs: Seq<Component>,
    own: Map<Seq<char>, Seq<char>>,
    me: Seq<char>,
    from: int,
) -> Map<Seq<char>, Seq<char>> {
    Map::new(
        |k: Seq<char>| own.contains_key(k) || (k != me && crate_from(cs, k, from)),
        |k: Seq<char>|
            if own.contains_key(k) {
                own[k]
            } else {
                package_of_crate(cs, k)
            },
    )
}

/// Defaults filled in, and all but the external packages kept.
pub open spec fn defaults_filled(settings: GenerationSettings, before: Component, after: Component) -> bool {
    &&& after.ci == before.ci
    &&& after.config.package_name matches Some(p) && p@ == defaulted_package(before)
    &&& after.config.cdylib_name matches Some(p) && p@ == defaulted_cdylib(settings, before)
    &&& after.config.generate_immutable_records == before.config.generate_immutable_records
    &&& after.config.custom_types == before.config.custom_types
    &&& after.config.android == before.config.android
    &&& after.config.android_cleaner == before.config.android_cleaner
}

/// What resolution does to component `j` of the run `run`.
pub open spec fn component_resolved(
    settings: GenerationSettings,
    run: Seq<Component>,
    j: int,
    after: Component,
) -> bool {
    &&& defaults_filled(settings, run[j], after)
    &&& after.config.external_map() == resolved_externals(run, j)
}

proof fn lemma_last_of_crate(cs: Seq<Component>, k: Seq<char>, f: int)
    requires
        0 <= f < cs.len(),
        cs[f].ci.crate_name@ == k,
        forall|i: int| f < i < cs.len() ==> (#[trigger] cs[i]).ci.crate_name@ != k,
    ensures
        package_of_crate(cs, k) == defaulted_package(cs[f]),
    decreases cs.len(),
{
    if f < cs.len() - 1 {
        let d = cs.drop_last();
        assert forall|i: int| f < i < d.len() implies (#[trigger] d[i]).ci.crate_name@ != k by {
            assert(d[i] == cs[i]);
        }
        lemma_last_of_crate(d, k, f);
    }
}

fn fill_defaults(config: &mut Config, namespace: &str, cdylib: &Option<String>)
    ensures
        final(config).package_name matches Some(p) && p@ == match old(config).package_name {
            Some(q) => q@,
            None => "uniffi."@ + namespace@,
        },
        final(config).cdylib_name matches Some(p) && p@ == match old(config).cdylib_name {
            Some(q) => q@,
            None => match *cdylib {
                Some(d) => d@,
                None => "uniffi_"@ + namespace@,
            },
        },
        final(config).generate_immutable_records == old(config).generate_immutable_records,
        final(config).custom_types == old(config).custom_types,
        final(config).external_packages == old(config).external_packages,
        final(config).android == old(config).android,
        final(config).android_cleaner == old(config).android_cleaner,
{
    if config.package_name.is_none() {
        config.package_name = Some(join2("uniffi.", namespace));
    }
    if config.cdylib_name.is_none() {
        config.cdylib_name = Some(
            match cdylib {
                Some(d) => d.clone(),
                None => join2("uniffi_", namespace),
            },
        );
    }
}

impl JavaBindingGenerator {
    /// Fills in each component's package and library name, then records in
    /// each component the package of every other crate of the run, keeping
    /// any package its configuration already gives for that crate.
    pub fn update_component_configs(
        &self,
        settings: &GenerationSettings,
        components: &mut Vec<Component>,
    )
        ensures
            final(components)@.len() == old(components)@.len(),
            forall|j: int|
                0 <= j < old(components)@.len() ==> component_resolved(
                    *settings,
                    old(components)@,
                    j,
                    #[trigger] final(components)@[j],
                ),
    {
        let ghost olds = components@;
        let n = components.len();
        let mut j: usize = 0;
        while j < n
            invariant
                n == olds.len(),
                components@.len() == n,
                j <= n,
                forall|i: int|
                    0 <= i < j ==> defaults_filled(*settings, olds[i], #[trigger] components@[i])
                        && components@[i].config.external_packages
                        == olds[i].config.external_packages,
                forall|i: int| j <= i < n ==> #[trigger] components@[i] == olds[i],
            decreases n - j,
        {
            let ns = components[j].ci.namespace.clone();
            fill_defaults(&mut components[j].config, ns.as_str(), &settings.cdylib);
            j = j + 1;
        }
        let mut j: usize = 0;
        while j < n
            invariant
                n == olds.len(),
                components@.len() == n,
                j <= n,
                forall|i: int|
                    0 <= i < n ==> defaults_filled(*settings, olds[i], #[trigger] components@[i]),
                forall|i: int|
                    0 <= i < j ==> (#[trigger] components@[i]).config.external_map()
                        == resolved_externals(olds, i),
                forall|i: int|
                    j <= i < n ==> (#[trigger] components@[i]).config.external_packages
                        == olds[i].config.external_packages,
            decreases n - j,
        {
            let me = components[j].ci.crate_name.clone();
            let ghost own = olds[j as int].config.external_map();
            proof {
                assert(resolved_from(olds, own, me@, n as int) =~= own);
            }
            let mut k: usize = n;
            while k > 0
                invariant
                    n == olds.len(),
                    components@.len() == n,
                    j < n,
                    k <= n,
                    me@ == olds[j as int].ci.crate_name@,
                    own == olds[j as int].config.external_map(),
                    forall|i: int|
                        0 <= i < n ==> defaults_filled(
                            *settings,
                            olds[i],
                            #[trigger] components@[i],
                        ),
                    forall|i: int|
                        0 <= i < j ==> (#[trigger] components@[i]).config.external_map()
                            == resolved_externals(olds, i),
                    forall|i: int|
                        j < i < n ==> (#[trigger] components@[i]).config.external_packages
                            == olds[i].config.external_packages,
                    components@[j as int].config.external_map() == resolved_from(
                        olds,
                        own,
                        me@,
                        k as int,
                    ),
                decreases k,
            {
                let f = k - 1;
                let crate_k = components[f].ci.crate_name.clone();
                let package_k = components[f].config.package_name();
                let ghost m = components@[j as int].config.external_map();
                if crate_k != me && components[j].config.external_package(crate_k.as_str()).is_none() {
                    let ghost before = components@[j as int].config.external_packages@;
                    components[j].config.external_packages.push((crate_k, package_k));
                    proof {
                        let after = components@[j as int].config.external_packages@;
                        assert(after.drop_last() == before);
                        assert(assoc_map(after) == m.insert(crate_k@, package_k@));
                        assert forall|i: int| f < i < n implies (#[trigger] olds[i]).ci.crate_name@
                            != crate_k@ by {
                            if olds[i].ci.crate_name@ == crate_k@ {
                                assert(crate_from(olds, crate_k@, k as int));
                            }
                        }
                        lemma_last_of_crate(olds, crate_k@, f as int);
                        assert(m.insert(crate_k@, package_k@) =~= resolved_from(
                            olds,
                            own,
                            me@,
                            f as int,
                        ));
                    }
                } else {
                    proof {
                        assert forall|key: Seq<char>|
                            resolved_from(olds, own, me@, f as int).contains_key(key)
                                implies m.contains_key(key) by {
                            if !own.contains_key(key) && key != me@ && key != crate_k@ {
                                let i = choose|i: int|
                                    f <= i < olds.len() && #[trigger] olds[i].ci.crate_name@ == key;
                                assert(i != f);
                                assert(crate_from(olds, key, k as int));
                            }
                        }
                        assert(m =~= resolved_from(olds, own, me@, f as int));
                    }
                }
                k = f;
            }
            j = j + 1;
        }
    }
}

/// A package that a component's configuration already gives for a crate
/// survives resolution, even where that crate's own package differs.
pub proof fn lemma_configured_package_wins(run: Seq<Component>, j: int, z: Seq<char>)
    requires
        0 <= j < run.len(),
        run[j].config.external_map().contains_key(z),
    ensures
        resolved_externals(run, j).contains_key(z),
        resolved_externals(run, j)[z] == run[j].config.external_map()[z],
{
}

/// Every other crate of the run is known to each component after resolution.
pub proof fn lemma_every_crate_resolved(run: Seq<Component>, j: int, i: int)
    requires
        0 <= j < run.len(),
        0 <= i < run.len(),
        run[i].ci.crate_name@ != run[j].ci.crate_name@,
    ensures
        resolved_externals(run, j).contains_key(run[i].ci.crate_name@),
{
    assert(crate_from(run, run[i].ci.crate_name@, 0));
}

} // verus!
