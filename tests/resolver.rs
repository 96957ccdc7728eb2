use uniffi_bindgen_java::config::{crate_name_of, Config};
use uniffi_bindgen_java::model::ComponentInterface;
use uniffi_bindgen_java::resolver::{Component, GenerationSettings, JavaBindingGenerator};

fn component(crate_name: &str, namespace: &str, config: Config) -> Component {
    Component {
        ci: ComponentInterface {
            namespace: namespace.to_string(),
            crate_name: crate_name.to_string(),
            types: Vec::new(),
            error_names: Vec::new(),
        },
        config,
    }
}

fn settings(cdylib: Option<&str>) -> GenerationSettings {
    GenerationSettings {
        out_dir: "out".to_string(),
        try_format_code: false,
        cdylib: cdylib.map(|s| s.to_string()),
    }
}

fn lookup(c: &Component, krate: &str) -> Option<String> {
    c.config.external_package(krate)
}

#[test]
fn configured_external_package_is_kept() {
    let mut a_config = Config::default();
    a_config.external_packages.push(("z".to_string(), "custom.pkg".to_string()));
    let mut components = vec![
        component("a", "alpha", a_config),
        component("z", "zeta", Config::default()),
    ];
    JavaBindingGenerator.update_component_configs(&settings(None), &mut components);
    assert_eq!(lookup(&components[0], "z"), Some("custom.pkg".to_string()));
    assert_eq!(lookup(&components[1], "a"), Some("uniffi.alpha".to_string()));
    assert_eq!(components[1].config.package_name(), "uniffi.zeta");
}

#[test]
fn defaults_and_cross_references() {
    let c_config = Config {
        package_name: Some("org.c".to_string()),
        cdylib_name: Some("native_c".to_string()),
        ..Config::default()
    };
    let mut components = vec![
        component("a", "alpha", Config::default()),
        component("b", "beta", Config::default()),
        component("c", "gamma", c_config),
    ];
    JavaBindingGenerator.update_component_configs(&settings(None), &mut components);
    assert_eq!(components[0].config.package_name(), "uniffi.alpha");
    assert_eq!(components[0].config.cdylib_name(), "uniffi_alpha");
    assert_eq!(components[2].config.package_name(), "org.c");
    assert_eq!(components[2].config.cdylib_name(), "native_c");
    assert_eq!(lookup(&components[0], "b"), Some("uniffi.beta".to_string()));
    assert_eq!(lookup(&components[0], "c"), Some("org.c".to_string()));
    assert_eq!(lookup(&components[0], "a"), None);
    assert_eq!(lookup(&components[2], "a"), Some("uniffi.alpha".to_string()));
    assert_eq!(components[2].config.external_packages.len(), 2);
}

#[test]
fn shared_cdylib_setting_is_used() {
    let mut components = vec![component("a", "alpha", Config::default())];
    JavaBindingGenerator.update_component_configs(&settings(Some("shared")), &mut components);
    assert_eq!(components[0].config.cdylib_name(), "shared");
}

#[test]
fn later_component_of_a_crate_wins() {
    let first = Config { package_name: Some("first.pkg".to_string()), ..Config::default() };
    let second = Config { package_name: Some("second.pkg".to_string()), ..Config::default() };
    let mut components = vec![
        component("dup", "one", first),
        component("main", "main", Config::default()),
        component("dup", "two", second),
    ];
    JavaBindingGenerator.update_component_configs(&settings(None), &mut components);
    assert_eq!(lookup(&components[1], "dup"), Some("second.pkg".to_string()));
    assert_eq!(components[1].config.external_packages.len(), 1);
}

#[test]
fn external_type_package_name_lookup() {
    let mut config = Config::default();
    config.external_packages.push(("other".to_string(), "org.other".to_string()));
    config.external_packages.push(("other".to_string(), "ignored".to_string()));
    assert_eq!(config.external_type_package_name("other::types::inner", "ns"), "org.other");
    assert_eq!(config.external_type_package_name("other", "ns"), "org.other");
    assert_eq!(config.external_type_package_name("unknown::m", "ns"), "uniffi.ns");
}

#[test]
fn crate_of_module_path() {
    assert_eq!(crate_name_of("a::b::c"), "a");
    assert_eq!(crate_name_of("plain"), "plain");
    assert_eq!(crate_name_of("::x"), "");
    assert_eq!(crate_name_of("a:b::c"), "a:b");
}

#[test]
fn config_defaults() {
    let config = Config::default();
    assert_eq!(config.package_name(), "uniffi");
    assert_eq!(config.cdylib_name(), "uniffi");
    assert!(!config.generate_immutable_records());
    assert!(!config.android_cleaner());
    let android = Config { android: true, ..Config::default() };
    assert!(android.android_cleaner());
    let overridden = Config { android: true, android_cleaner: Some(false), generate_immutable_records: Some(true), ..Config::default() };
    assert!(!overridden.android_cleaner());
    assert!(overridden.generate_immutable_records());
}
