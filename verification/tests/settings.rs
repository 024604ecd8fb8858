use freeq_server::config::{platform_state_dir, ServerConfig};
use freeq_server::containers::StrMap;
use freeq_server::manifest::{
    AgentInfo, AgentManifest, ManifestCapabilities, ManifestPresence, ManifestProvenance,
};

fn text(t: &toml::Table, key: &str) -> Option<String> {
    t.get(key).and_then(|v| v.as_str()).map(|s| s.to_string())
}

fn list(v: &toml::Value) -> Vec<String> {
    v.as_array().unwrap().iter().map(|x| x.as_str().unwrap().to_string()).collect()
}

fn manifest_of(source: &str) -> AgentManifest {
    let doc: toml::Table = source.parse().unwrap();
    let agent = doc["agent"].as_table().unwrap();
    let provenance = doc["provenance"].as_table().unwrap();
    let mut capabilities = ManifestCapabilities::default();
    if let Some(c) = doc.get("capabilities").and_then(|c| c.as_table()) {
        if let Some(d) = c.get("default") {
            capabilities.default = list(d);
        }
        let mut channels = StrMap::new();
        if let Some(chs) = c.get("channels").and_then(|c| c.as_table()) {
            for (k, v) in chs {
                channels.insert(k.clone(), list(v));
            }
        }
        capabilities.channels = channels;
    }
    let mut presence = ManifestPresence::default();
    if let Some(p) = doc.get("presence").and_then(|p| p.as_table()) {
        presence.heartbeat_interval_seconds = p["heartbeat_interval_seconds"].as_integer().unwrap() as u64;
    }
    AgentManifest {
        agent: AgentInfo {
            display_name: text(agent, "display_name").unwrap(),
            actor_class: text(agent, "actor_class").unwrap_or_else(|| "agent".to_string()),
            description: text(agent, "description"),
            source_repo: text(agent, "source_repo"),
            image_digest: text(agent, "image_digest"),
            version: text(agent, "version"),
            documentation_url: text(agent, "documentation_url"),
        },
        provenance: ManifestProvenance {
            origin_type: text(provenance, "origin_type").unwrap(),
            creator_did: text(provenance, "creator_did").unwrap(),
            revocation_authority: text(provenance, "revocation_authority").unwrap(),
            authority_basis: text(provenance, "authority_basis"),
        },
        capabilities,
        presence,
    }
}

#[test]
fn parse_toml_manifest() {
    let toml = r##"
[agent]
display_name = "test-bot"
description = "A test agent"
source_repo = "https://github.com/example/bot"
version = "0.1.0"

[provenance]
origin_type = "template"
creator_did = "did:plc:abc123"
revocation_authority = "did:plc:abc123"
authority_basis = "Test"

[capabilities]
default = ["post_message", "read_channel"]

[capabilities.channels]
"#factory" = ["post_message", "call_tool"]

[presence]
heartbeat_interval_seconds = 15
"##;
    let manifest = manifest_of(toml);
    assert_eq!(manifest.agent.display_name, "test-bot");
    assert_eq!(manifest.capabilities.default.len(), 2);
    assert_eq!(manifest.capabilities.channels.get("#factory").unwrap().len(), 2);
    assert_eq!(manifest.presence.heartbeat_interval_seconds, 15);
    assert!(manifest.validate().is_ok());
}

#[test]
fn validate_empty_name() {
    let toml = r#"
[agent]
display_name = ""
[provenance]
origin_type = "custom"
creator_did = "did:plc:abc"
revocation_authority = "did:plc:abc"
"#;
    let manifest = manifest_of(toml);
    assert!(manifest.validate().is_err());
}

#[test]
fn a_manifest_names_its_creator() {
    let toml = r#"
[agent]
display_name = "bot"
[provenance]
origin_type = "custom"
creator_did = ""
revocation_authority = "did:plc:abc"
"#;
    assert!(manifest_of(toml).validate().is_err());
    assert_eq!(ManifestPresence::default().heartbeat_interval_seconds, 30);
}

#[test]
fn tls_needs_certificate_and_key() {
    let mut c = ServerConfig::default();
    assert!(!c.tls_enabled());
    c.tls_cert = Some("cert.pem".to_string());
    assert!(!c.tls_enabled());
    c.tls_key = Some("key.pem".to_string());
    assert!(c.tls_enabled());
}

#[test]
fn data_stands_beside_the_database() {
    let mut c = ServerConfig::default();
    c.db_path = None;
    c.data_dir = None;
    assert_eq!(c.data_dir(None, None), ".");
    assert_eq!(c.data_dir(None, Some("/home/x/.local/state")), "/home/x/.local/state/freeq");
    c.db_path = Some("/srv/irc.db".to_string());
    assert_eq!(c.data_dir(Some("/srv"), Some("/home/x")), "/srv");
    c.data_dir = Some("/var/lib/freeq".to_string());
    assert_eq!(c.data_dir(Some("/srv"), Some("/home/x")), "/var/lib/freeq");
}

#[test]
fn the_state_directory_follows_the_environment() {
    assert_eq!(platform_state_dir(Some("/x/state"), Some("/home/a")).as_deref(), Some("/x/state"));
    assert_eq!(platform_state_dir(Some(""), Some("/home/a")).as_deref(), Some("/home/a/.local/state"));
    assert!(platform_state_dir(None, None).is_none());
}
