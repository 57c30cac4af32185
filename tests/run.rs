use std::collections::HashMap;

use sych::cli::{_validate_config, files_to_index, update_references_in_cfg, SychCLI};
use sych::config::{DocSettings, Meta, SychConfig};
use sych::page::finish_page;

fn config(doc: Option<DocSettings>, extensions: Option<HashMap<String, String>>) -> SychConfig {
    SychConfig {
        meta: Meta {
            title: "t".to_string(),
            authors: vec![],
            version: "0.1.0".to_string(),
            description: "d".to_string(),
        },
        doc,
        refs: None,
        extensions,
    }
}

fn strings(v: &[&str]) -> Vec<String> {
    v.iter().map(|s| s.to_string()).collect()
}

#[test]
fn load_keeps_options() {
    let cli = SychCLI::load(Some("docs".to_string()), false, true, true);
    assert_eq!(cli.root, Some("docs".to_string()));
    assert!(!cli.init);
    assert!(cli.noopen);
    assert!(cli.release);
}

#[test]
fn command_line_root_wins() {
    let cfg = config(Some(DocSettings { root: Some("cfg".to_string()), exclude: None }), None);
    let cli = SychCLI::load(Some("cli".to_string()), false, false, false);
    assert_eq!(cli.root_folder(&cfg, "/cwd".to_string()), "cli");
    let plain = SychCLI::load(None, false, false, false);
    assert_eq!(plain.root_folder(&cfg, "/cwd".to_string()), "cfg");
    assert_eq!(plain.root_folder(&config(None, None), "/cwd".to_string()), "/cwd");
    let no_root = config(Some(DocSettings { root: None, exclude: None }), None);
    assert_eq!(plain.root_folder(&no_root, "/cwd".to_string()), "/cwd");
}

#[test]
fn exclusion_ends_the_file_list() {
    let files = strings(&["/r/a.md", "/r/target/x.md", "/r/b.md"]);
    let cfg = config(
        Some(DocSettings { root: None, exclude: Some(strings(&["target"])) }),
        None,
    );
    assert_eq!(files_to_index(&cfg, &files), strings(&["/r/a.md"]));
    assert_eq!(files_to_index(&config(None, None), &files), files);
    let none_match = config(Some(DocSettings { root: None, exclude: Some(strings(&["zzz"])) }), None);
    assert_eq!(files_to_index(&none_match, &files), files);
}

#[test]
fn references_are_made_relative() {
    let mut cfg = config(None, None);
    update_references_in_cfg(&mut cfg, &"/home/p".to_string(), &strings(&["/home/p/a.md", "/home/p/d/b.md"]));
    assert_eq!(cfg.refs, Some(strings(&["./a.md", "./d/b.md"])));
    assert_eq!(cfg.meta.title, "t");
}

#[test]
fn validation_without_extensions_passes() {
    assert_eq!(_validate_config(&config(None, None)), Ok(()));
    assert_eq!(_validate_config(&config(None, Some(HashMap::new()))), Ok(()));
}

#[test]
fn validation_rejects_extension_location() {
    let mut reg = HashMap::new();
    reg.insert("chart".to_string(), "https://ext.sych.com/chart".to_string());
    assert_eq!(
        _validate_config(&config(None, Some(reg))),
        Err("invalid https://ext.sych.com/chart. cannot use unknown extensions.".to_string())
    );
}

#[test]
fn page_is_unchanged_unless_release() {
    let html = "<p>  Hello, world!  </p>".to_string();
    assert_eq!(finish_page(html.clone(), false), Ok(html));
}

#[test]
fn release_page_is_minified() {
    let html = "<p>  Hello, world!  </p>".to_string();
    assert_eq!(finish_page(html, true), Ok("<p>Hello, world!".to_string()));
}
