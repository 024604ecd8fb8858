//! Agent manifests — declarative agent configuration.
//!
//! An agent manifest describes an agent's identity, provenance, and default capabilities.
use crate::containers::StrMap;
use crate::text;
use vstd::prelude::*;

verus! {

broadcast use vstd::string::group_string_axioms;

/// The mathematical content of a [`AgentInfo`].
pub struct AgentInfoView {
    pub display_name: Seq<char>,
    pub actor_class: Seq<char>,
    pub description: Option<Seq<char>>,
    pub source_repo: Option<Seq<char>>,
    pub image_digest: Option<Seq<char>>,
    pub version: Option<Seq<char>>,
    pub documentation_url: Option<Seq<char>>,
}

/// Who an agent is.
#[derive(Debug)]
pub struct AgentInfo {
    pub display_name: String,
    pub actor_class: String,
    pub description: Option<String>,
    pub source_repo: Option<String>,
    pub image_digest: Option<String>,
    pub version: Option<String>,
    pub documentation_url: Option<String>,
}

impl DeepView for AgentInfo {
    type V = AgentInfoView;

    open spec fn deep_view(&self) -> AgentInfoView {
        AgentInfoView {
            display_name: self.display_name.deep_view(),
            actor_class: self.actor_class.deep_view(),
            description: self.description.deep_view(),
            source_repo: self.source_repo.deep_view(),
            image_digest: self.image_digest.deep_view(),
            version: self.version.deep_view(),
            documentation_url: self.documentation_url.deep_view(),
        }
    }
}

/// The mathematical content of a [`ManifestProvenance`].
pub struct ManifestProvenanceView {
    pub origin_type: Seq<char>,
    pub creator_did: Seq<char>,
    pub revocation_authority: Seq<char>,
    pub authority_basis: Option<Seq<char>>,
}

/// Where an agent comes from.
#[derive(Debug)]
pub struct ManifestProvenance {
    pub origin_type: String,
    pub creator_did: String,
    pub revocation_authority: String,
    pub authority_basis: Option<String>,
}

impl DeepView for ManifestProvenance {
    type V = ManifestProvenanceView;

    open spec fn deep_view(&self) -> ManifestProvenanceView {
        ManifestProvenanceView {
            origin_type: self.origin_type.deep_view(),
            creator_did: self.creator_did.deep_view(),
            revocation_authority: self.revocation_authority.deep_view(),
            authority_basis: self.authority_basis.deep_view(),
        }
    }
}

/// The mathematical content of a [`ManifestCapabilities`].
pub struct ManifestCapabilitiesView {
    pub default: Seq<Seq<char>>,
    pub channels: Seq<(Seq<char>, Seq<Seq<char>>)>,
}

/// What an agent may do, by default and in single channels.
#[derive(Debug)]
pub struct ManifestCapabilities {
    pub default: Vec<String>,
    pub channels: StrMap<Vec<String>>,
}

impl DeepView for ManifestCapabilities {
    type V = ManifestCapabilitiesView;

    open spec fn deep_view(&self) -> ManifestCapabilitiesView {
        ManifestCapabilitiesView {
            default: self.default.deep_view(),
            channels: self.channels.deep_view(),
        }
    }
}

/// The mathematical content of a [`ManifestPresence`].
pub struct ManifestPresenceView {
    pub heartbeat_interval_seconds: u64,
}

/// How an agent shows that it is there.
#[derive(Debug)]
pub struct ManifestPresence {
    pub heartbeat_interval_seconds: u64,
}

impl DeepView for ManifestPresence {
    type V = ManifestPresenceView;

    open spec fn deep_view(&self) -> ManifestPresenceView {
        ManifestPresenceView {
            heartbeat_interval_seconds: self.heartbeat_interval_seconds.deep_view(),
        }
    }
}

/// The mathematical content of a [`AgentManifest`].
pub struct AgentManifestView {
    pub agent: AgentInfoView,
    pub provenance: ManifestProvenanceView,
    pub capabilities: ManifestCapabilitiesView,
    pub presence: ManifestPresenceView,
}

/// The manifest of an agent.
#[derive(Debug)]
pub struct AgentManifest {
    pub agent: AgentInfo,
    pub provenance: ManifestProvenance,
    pub capabilities: ManifestCapabilities,
    pub presence: ManifestPresence,
}

impl DeepView for AgentManifest {
    type V = AgentManifestView;

    open spec fn deep_view(&self) -> AgentManifestView {
        AgentManifestView {
            agent: self.agent.deep_view(),
            provenance: self.provenance.deep_view(),
            capabilities: self.capabilities.deep_view(),
            presence: self.presence.deep_view(),
        }
    }
}

/// The actor class of an agent whose manifest names none.
pub const DEFAULT_ACTOR_CLASS: &'static str = "agent";

/// How often an agent shows that it is there unless its manifest says otherwise, in seconds.
pub const DEFAULT_HEARTBEAT: u64 = 30;

impl Default for ManifestPresence {
    fn default() -> (p: ManifestPresence)
        ensures
            p.heartbeat_interval_seconds == DEFAULT_HEARTBEAT,
    {
        ManifestPresence { heartbeat_interval_seconds: DEFAULT_HEARTBEAT }
    }
}

impl Default for ManifestCapabilities {
    fn default() -> (c: ManifestCapabilities)
        ensures
            c.deep_view() == (ManifestCapabilitiesView {
                default: Seq::empty(),
                channels: Seq::empty(),
            }),
    {
        let default: Vec<String> = Vec::new();
        assert(default.deep_view() =~= Seq::<Seq<char>>::empty());
        ManifestCapabilities { default, channels: StrMap::new() }
    }
}

/// What is missing in a manifest, if anything is.
pub open spec fn missing(m: AgentManifestView) -> Option<Seq<char>> {
    if m.agent.display_name.len() == 0 {
        Some("display_name is required"@)
    } else if m.provenance.creator_did.len() == 0 {
        Some("creator_did is required"@)
    } else if m.provenance.revocation_authority.len() == 0 {
        Some("revocation_authority is required"@)
    } else {
        None
    }
}

impl AgentManifest {
    /// Validate the manifest for basic correctness.
    pub fn validate(&self) -> (r: Result<(), String>)
        ensures
            match missing(self.deep_view()) {
                Some(e) => r is Err && r->Err_0@ == e,
                None => r is Ok,
            },
    {
        if text::is_empty(self.agent.display_name.as_str()) {
            return Err("display_name is required".to_owned());
        }
        if text::is_empty(self.provenance.creator_did.as_str()) {
            return Err("creator_did is required".to_owned());
        }
        if text::is_empty(self.provenance.revocation_authority.as_str()) {
            return Err("revocation_authority is required".to_owned());
        }
        Ok(())
    }
}

/// How well a wrapper has been looked at.
#[derive(Debug, Clone, Copy, PartialEq, Eq, Structural)]
pub enum WrapperAuditStatus {
    Unaudited,
    CommunityReviewed,
    FormallyAudited,
}

impl DeepView for WrapperAuditStatus {
    type V = WrapperAuditStatus;

    open spec fn deep_view(&self) -> WrapperAuditStatus {
        *self
    }
}

/// The mathematical content of a [`WrapperRecord`].
pub struct WrapperRecordView {
    pub wrapper_did: Seq<char>,
    pub wrapper_name: Seq<char>,
    pub description: Option<Seq<char>>,
    pub source_repo: Option<Seq<char>>,
    pub image_digest: Option<Seq<char>>,
    pub audit_status: WrapperAuditStatus,
    pub supported_protocols: Seq<Seq<char>>,
    pub registered_by: Seq<char>,
    pub registered_at: i64,
}

/// Wrapper trust profile for external agent bridges.
#[derive(Debug)]
pub struct WrapperRecord {
    pub wrapper_did: String,
    pub wrapper_name: String,
    pub description: Option<String>,
    pub source_repo: Option<String>,
    pub image_digest: Option<String>,
    pub audit_status: WrapperAuditStatus,
    pub supported_protocols: Vec<String>,
    pub registered_by: String,
    pub registered_at: i64,
}

impl DeepView for WrapperRecord {
    type V = WrapperRecordView;

    open spec fn deep_view(&self) -> WrapperRecordView {
        WrapperRecordView {
            wrapper_did: self.wrapper_did.deep_view(),
            wrapper_name: self.wrapper_name.deep_view(),
            description: self.description.deep_view(),
            source_repo: self.source_repo.deep_view(),
            image_digest: self.image_digest.deep_view(),
            audit_status: self.audit_status.deep_view(),
            supported_protocols: self.supported_protocols.deep_view(),
            registered_by: self.registered_by.deep_view(),
            registered_at: self.registered_at.deep_view(),
        }
    }
}

/// A manifest is accepted exactly where it names the agent, who made it and who may revoke it; what
/// is missing first is what is said to be missing.
pub proof fn law_manifests_name_who_is_responsible(m: AgentManifestView)
    ensures
        missing(m) is None <==> m.agent.display_name.len() > 0 && m.provenance.creator_did.len() > 0
            && m.provenance.revocation_authority.len() > 0,
        m.agent.display_name.len() == 0 ==> missing(m) == Some("display_name is required"@),
        m.agent.display_name.len() > 0 && m.provenance.creator_did.len() == 0 ==> missing(m) == Some("creator_did is required"@),
        m.agent.display_name.len() > 0 && m.provenance.creator_did.len() > 0 && m.provenance.revocation_authority.len() == 0
            ==> missing(m) == Some("revocation_authority is required"@),
{
}

} // verus!
