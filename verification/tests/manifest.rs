use serde_json::Value;
use slick::json::check_json_value;
use slick::manifest::starts_with;
use slick::{Kind, Manifest, TypedStruct};
use std::collections::HashMap;

#[test]
fn manifest_with_relations() {
    let manifest = Manifest {
        type_url: "cix.commands.v1.HttpClient".into(),
        source: "./tools/http-client".into(),
        required: vec![],
        provides: vec!["cix.v1.HttpResponse".into()],
        relations: HashMap::from([
            ("skills".into(), vec!["./skills/http-patterns.md".into()]),
            ("tested_with".into(), vec!["cix.flows.v1.ApiPipeline".into()]),
            ("replaces".into(), vec!["cix.commands.v0.OldHttpClient".into()]),
        ]),
    };

    assert_eq!(manifest.relations.len(), 3);
    assert!(manifest.relations.contains_key("skills"));
    assert!(manifest.relations.contains_key("tested_with"));
    assert!(manifest.relations.contains_key("replaces"));
}

#[test]
fn cross_surface_type_url_is_bridge() {
    let manifest = Manifest {
        type_url: "cix.commands.v1.AccessControl".into(),
        source: "git+https://github.com/mox-labs/tools/acl".into(),
        required: vec![],
        provides: vec![],
        relations: HashMap::new(),
    };

    let ts = TypedStruct {
        type_url: "cix.commands.v1.AccessControl".into(),
        value: serde_json::from_str::<Value>(r#"{"default_action": "deny"}"#).unwrap(),
    };

    assert_eq!(manifest.type_url, ts.type_url);
}

#[test]
fn flow_manifest() {
    let manifest = Manifest {
        type_url: "cix.flows.v1.SecurePipeline".into(),
        source: "git+https://github.com/mox-labs/flows/secure-pipeline".into(),
        required: vec!["cix.v1.Target".into(), "cix.v1.Credentials".into()],
        provides: vec!["cix.v1.SecureReport".into()],
        relations: HashMap::from([(
            "skills".into(),
            vec!["git+https://github.com/mox-labs/skills/security".into()],
        )]),
    };

    assert_eq!(manifest.required.len(), 2);
    assert_eq!(manifest.provides.len(), 1);
}

#[test]
fn manifest_new_defaults_missing_parts_to_empty() {
    let manifest = Manifest::new(
        "cix.skills.v1.RustMastery".into(),
        "git+https://github.com/mox-labs/skills/rust-mastery".into(),
        None,
        None,
        None,
    );
    assert_eq!(manifest.type_url, "cix.skills.v1.RustMastery");
    assert_eq!(manifest.source, "git+https://github.com/mox-labs/skills/rust-mastery");
    assert!(manifest.required.is_empty());
    assert!(manifest.provides.is_empty());
    assert!(manifest.relations.is_empty());
}

#[test]
fn manifest_new_keeps_given_parts() {
    let manifest = Manifest::new(
        "cix.capability.v1.Recon".into(),
        "git+https://github.com/mox-labs/tools/recon".into(),
        Some(vec!["cix.v1.Target".into()]),
        Some(vec!["cix.v1.ReconReport".into()]),
        Some(HashMap::from([(
            "skills".into(),
            vec!["git+https://github.com/mox-labs/skills/recon".into()],
        )])),
    );
    assert_eq!(manifest.required, vec!["cix.v1.Target"]);
    assert_eq!(manifest.provides, vec!["cix.v1.ReconReport"]);
    assert_eq!(
        manifest.relations.get("skills").unwrap(),
        &vec!["git+https://github.com/mox-labs/skills/recon"]
    );
}

#[test]
fn json_check_accepts_values() {
    assert!(check_json_value(r#"{"key": "value"}"#).is_ok());
    assert!(check_json_value("42").is_ok());
    assert!(check_json_value("null").is_ok());
    assert!(check_json_value("\"text\"").is_ok());
}

#[test]
fn json_check_refuses_non_values() {
    let msg = check_json_value("{not json").unwrap_err();
    let parser_msg = serde_json::from_str::<Value>("{not json").unwrap_err().to_string();
    assert_eq!(msg, format!("invalid JSON value: {parser_msg}"));
    assert!(check_json_value("").is_err());
    assert!(check_json_value("1 2").is_err());
}

#[test]
fn kind_follows_the_type_url_namespace() {
    assert_eq!(Kind::of_type_url("cix.capability.v1.MyTool"), Some(Kind::Capability));
    assert_eq!(Kind::of_type_url("cix.agents.v1.Scout"), Some(Kind::Agent));
    assert_eq!(Kind::of_type_url("cix.skills.v1.RustMastery"), Some(Kind::Skill));
    assert_eq!(Kind::of_type_url("cix.flows.v1.MyPipeline"), Some(Kind::Flow));
    assert_eq!(Kind::of_type_url("cix.commands.v1.Recon"), None);
    assert_eq!(Kind::of_type_url("cix.capability"), None);
    assert_eq!(Kind::of_type_url(""), None);
    assert_eq!(Kind::of_type_url("x.cix.flows.v1"), None);
}

#[test]
fn kind_namespace_round_trips() {
    for kind in [Kind::Capability, Kind::Agent, Kind::Skill, Kind::Flow] {
        let url = format!("{}v1.Thing", kind.namespace());
        assert_eq!(Kind::of_type_url(&url), Some(kind));
    }
    assert_eq!(Kind::Capability.namespace(), "cix.capability.");
}

#[test]
fn starts_with_compares_chars() {
    assert!(starts_with("cix.flows.v1", "cix."));
    assert!(starts_with("abc", ""));
    assert!(!starts_with("ab", "abc"));
    assert!(starts_with("\u{e9}t\u{e9}", "\u{e9}"));
    assert!(!starts_with("et\u{e9}", "\u{e9}"));
}
