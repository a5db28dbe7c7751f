use crabtime::config::{
    remove_macro_export_attribute, CargoConfig, ConfigError, Dependency, InlineAttr,
};
use crabtime::options::{MacroOptions, OptionsError};
use crabtime::tokens::{Pos, Token};

fn attr(name: &str, args: Option<&str>, full: &str) -> InlineAttr {
    InlineAttr {
        name: name.to_string(),
        args_text: args.map(|s| s.to_string()),
        full_text: full.to_string(),
    }
}

fn empty_config() -> CargoConfig {
    CargoConfig { edition: None, resolver: None, dependencies: vec![] }
}

// The printed manifest carries the defaults and the dependency table.
#[test]
fn print_manifest_defaults() {
    let mut cfg = empty_config();
    cfg.dependencies.push(Dependency::new("serde".to_string(), "\"1.0\"".to_string()));
    let text = cfg.print();
    assert!(text.contains("[workspace]"));
    assert!(text.contains("name     = \"eval_project\""));
    assert!(text.contains("edition  = \"2024\""));
    assert!(text.contains("resolver = \"3\""));
    assert!(text.contains("serde = \"1.0\""));
}

// A chosen edition replaces the default in the printed manifest.
#[test]
fn print_manifest_chosen_edition() {
    let mut cfg = empty_config();
    cfg.edition = Some("2021".to_string());
    let text = cfg.print();
    assert!(text.contains("edition  = \"2021\""));
}

// The enclosing manifest's build-time dependencies are appended and its
// edition is taken over.
#[test]
fn fill_from_manifest() {
    let mut cfg = empty_config();
    let manifest = "[package]\nname = \"x\"\nedition = \"2021\"\n[build-dependencies]\nserde = \"1.0\"\n";
    cfg.fill_from_cargo_toml(manifest).unwrap();
    assert_eq!(cfg.edition.as_deref(), Some("2021"));
    assert_eq!(cfg.dependencies.len(), 1);
    assert_eq!(cfg.dependencies[0].label, "serde");
    assert_eq!(cfg.dependencies[0].tokens_str, "\"1.0\"");
    assert!(cfg.contains_dependency("serde"));
    assert!(!cfg.contains_dependency("toml"));
}

// A manifest without the tables contributes nothing but the default
// edition.
#[test]
fn fill_from_minimal_manifest() {
    let mut cfg = empty_config();
    cfg.fill_from_cargo_toml("[lib]\nname = \"y\"\n").unwrap();
    assert_eq!(cfg.edition.as_deref(), Some("2024"));
    assert!(cfg.dependencies.is_empty());
}

// An ill-formed manifest is refused.
#[test]
fn fill_from_broken_manifest() {
    let mut cfg = empty_config();
    let r = cfg.fill_from_cargo_toml("= not toml at all [");
    assert_eq!(r, Err(ConfigError::ManifestParse));
    assert!(cfg.dependencies.is_empty());
}

// Inline dependency and edition attributes land in the configuration; the
// rest pass through joined by line breaks.
#[test]
fn extract_inline_attributes_mixed() {
    let mut cfg = empty_config();
    let attrs = vec![
        attr("dependency", Some("anyhow = \"1.0\""), "#![dependency(anyhow = \"1.0\")]"),
        attr("edition", Some("2021"), "#![edition(2021)]"),
        attr("allow", Some("dead_code"), "#![allow(dead_code)]"),
        attr("deny", Some("warnings"), "#![deny(warnings)]"),
    ];
    let others = cfg.extract_inline_attributes(attrs).unwrap();
    assert_eq!(others, "#![allow(dead_code)]\n#![deny(warnings)]");
    assert_eq!(cfg.edition.as_deref(), Some("2021"));
    assert_eq!(cfg.dependencies.len(), 1);
    assert_eq!(cfg.dependencies[0].label, "anyhow");
    assert_eq!(cfg.dependencies[0].tokens_str, "\"1.0\"");
}

// An attribute without arguments stops the extraction.
#[test]
fn extract_attribute_without_args() {
    let mut cfg = empty_config();
    let attrs = vec![attr("test", None, "#[test]")];
    assert_eq!(cfg.extract_inline_attributes(attrs), Err(ConfigError::AttributeArgs));
}

// An inline dependency without an equals sign is refused.
#[test]
fn extract_incorrect_dependency() {
    let mut cfg = empty_config();
    let attrs = vec![attr("dependency", Some("serde"), "#![dependency(serde)]")];
    assert_eq!(
        cfg.extract_inline_attributes(attrs),
        Err(ConfigError::IncorrectDependency)
    );
}

// The first macro-export attribute is taken out; without one the list
// stays.
#[test]
fn macro_export_removal() {
    let mut attrs = vec![
        attr("allow", Some("x"), "#[allow(x)]"),
        attr("macro_export", Some(""), "#[macro_export]"),
        attr("deny", Some("y"), "#[deny(y)]"),
    ];
    let taken = remove_macro_export_attribute(&mut attrs).expect("present");
    assert_eq!(taken.full_text, "#[macro_export]");
    assert_eq!(attrs.len(), 2);
    assert_eq!(attrs[0].full_text, "#[allow(x)]");
    assert_eq!(attrs[1].full_text, "#[deny(y)]");
    assert!(remove_macro_export_attribute(&mut attrs).is_none());
    assert_eq!(attrs.len(), 2);
}

fn opt_tokens(text: &str) -> Vec<Token> {
    // tiny tokenizer for `name = bool , ...` option lists
    let p = Pos { line: 1, col: 0 };
    text.split_whitespace()
        .map(|w| match w {
            "=" => Token::Punct { ch: '=', start: p, end: p },
            "," => Token::Punct { ch: ',', start: p, end: p },
            _ => Token::Ident { text: w.to_string(), start: p, end: p },
        })
        .collect()
}

// The defaults: caching on, name-based addressing.
#[test]
fn options_defaults() {
    let opts = MacroOptions::parse(&vec![]).unwrap();
    assert!(opts.cache);
    assert!(!opts.content_base_name);
    assert_eq!(opts, MacroOptions::default());
}

// Both options parse, with and without a trailing comma.
#[test]
fn options_both_set() {
    let opts = MacroOptions::parse(&opt_tokens("cache = false , content_base_name = true")).unwrap();
    assert!(!opts.cache);
    assert!(opts.content_base_name);
    let opts2 = MacroOptions::parse(&opt_tokens("cache = false ,")).unwrap();
    assert!(!opts2.cache);
}

// An unknown option is refused after its equals sign.
#[test]
fn options_unknown() {
    assert_eq!(
        MacroOptions::parse(&opt_tokens("verbose = true")),
        Err(OptionsError::UnknownOption)
    );
}

// A missing equals sign or boolean is refused.
#[test]
fn options_malformed() {
    assert_eq!(
        MacroOptions::parse(&opt_tokens("cache true")),
        Err(OptionsError::ExpectedEq)
    );
    assert_eq!(
        MacroOptions::parse(&opt_tokens("cache = yes")),
        Err(OptionsError::ExpectedBool)
    );
    assert_eq!(
        MacroOptions::parse(&opt_tokens(", cache = true")),
        Err(OptionsError::ExpectedOption)
    );
}
