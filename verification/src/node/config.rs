//! The versions of a node's stored configuration, and its preferences.

use crate::library::config::{edits_view, ConfigEdit, ConfigEditView};
use vstd::prelude::*;
use vstd::string::StringExecFns;

verus! {

/// The versions of a node's stored configuration, oldest first.
#[derive(Debug, Clone, Copy, PartialEq, Eq, Structural)]
pub enum NodeConfigVersion {
    V0,
    V1,
    V2,
}

impl NodeConfigVersion {
    /// The number that stands for the version in the stored configuration.
    pub open spec fn number(self) -> u64 {
        match self {
            NodeConfigVersion::V0 => 0,
            NodeConfigVersion::V1 => 1,
            NodeConfigVersion::V2 => 2,
        }
    }

    /// The number that stands for the version in the stored configuration.
    pub fn int_value(self) -> (number: u64)
        ensures
            number == self.number(),
    {
        match self {
            NodeConfigVersion::V0 => 0,
            NodeConfigVersion::V1 => 1,
            NodeConfigVersion::V2 => 2,
        }
    }

    /// The version that a number stands for; `None` for a number that no
    /// version has.
    pub fn from_int(number: u64) -> (version: Option<NodeConfigVersion>)
        ensures
            version.is_some() == (number <= 2),
            version.is_some() ==> version.unwrap().number() == number,
    {
        match number {
            0 => Some(NodeConfigVersion::V0),
            1 => Some(NodeConfigVersion::V1),
            2 => Some(NodeConfigVersion::V2),
            _ => None,
        }
    }
}

/// What bringing a node's stored configuration from one version to the next
/// has to do.
#[derive(Debug, Clone, Copy, PartialEq, Eq, Structural)]
pub enum NodeConfigMigration {
    /// Drop the three peer-to-peer fields that nothing ever read, and switch
    /// peer-to-peer on where its settings are stored.
    EnableP2P,
    /// Add the default preferences.
    AddPreferences,
}

/// No migration leads from the one version to the other.
#[derive(Debug, Clone, Copy, PartialEq, Eq, Structural)]
pub struct UnexpectedNodeMigration {
    pub current_version: u64,
    pub next_version: u64,
}

/// How the thumbnailer may use the machine.
#[derive(Debug, Clone, Copy, PartialEq, Eq, Structural)]
pub struct ThumbnailerPreferences {
    /// The share of the processors, in percent, that background work may
    /// take.
    pub background_processing_percentage: u8,
}

/// The preferences of a node.
#[derive(Debug, Clone, Copy, PartialEq, Eq, Structural)]
pub struct NodePreferences {
    pub thumbnailer: ThumbnailerPreferences,
}

impl Default for NodePreferences {
    fn default() -> (preferences: Self)
        ensures
            preferences.thumbnailer.background_processing_percentage == 50,
    {
        NodePreferences { thumbnailer: ThumbnailerPreferences { background_processing_percentage: 50 } }
    }
}

impl NodePreferences {
    /// Brings the preferences that watchers hold up to date with those of
    /// the configuration, and says whether they had changed, which is when
    /// the watchers are to be told.
    pub fn refresh(current: &mut NodePreferences, configured: &NodePreferences) -> (modified: bool)
        ensures
            modified == (*old(current) != *configured),
            *final(current) == *configured,
    {
        let modified = *current != *configured;
        if modified {
            *current = *configured;
        }
        modified
    }
}

/// The migration that leads from `current` to `next`. Only a step from a
/// version to the one right after it is a migration; any other pair is
/// reported with both numbers.
pub fn node_migration(current: NodeConfigVersion, next: NodeConfigVersion) -> (step: Result<
    NodeConfigMigration,
    UnexpectedNodeMigration,
>)
    ensures
        current == NodeConfigVersion::V0 && next == NodeConfigVersion::V1 ==> step == Ok::<
            NodeConfigMigration,
            UnexpectedNodeMigration,
        >(NodeConfigMigration::EnableP2P),
        current == NodeConfigVersion::V1 && next == NodeConfigVersion::V2 ==> step == Ok::<
            NodeConfigMigration,
            UnexpectedNodeMigration,
        >(NodeConfigMigration::AddPreferences),
        next.number() != current.number() + 1 ==> step == Err::<
            NodeConfigMigration,
            UnexpectedNodeMigration,
        >(
            UnexpectedNodeMigration {
                current_version: current.number(),
                next_version: next.number(),
            },
        ),
{
    match (current, next) {
        (NodeConfigVersion::V0, NodeConfigVersion::V1) => Ok(NodeConfigMigration::EnableP2P),
        (NodeConfigVersion::V1, NodeConfigVersion::V2) => Ok(NodeConfigMigration::AddPreferences),
        _ => Err(
            UnexpectedNodeMigration {
                current_version: current.int_value(),
                next_version: next.int_value(),
            },
        ),
    }
}

/// The changes that a migration makes to the fields of a node's stored
/// configuration.
pub open spec fn node_edits(step: NodeConfigMigration) -> Seq<ConfigEditView> {
    match step {
        NodeConfigMigration::EnableP2P => seq![
            ConfigEditView::Remove("p2p_email"@),
            ConfigEditView::Remove("p2p_img_url"@),
            ConfigEditView::Remove("p2p_port"@),
            ConfigEditView::SetFlag { object: "p2p"@, flag: "enabled"@, value: true },
        ],
        NodeConfigMigration::AddPreferences => seq![
            ConfigEditView::InsertPreferences(
                "preferences"@,
                NodePreferences {
                    thumbnailer: ThumbnailerPreferences { background_processing_percentage: 50 },
                },
            ),
        ],
    }
}

/// Lists the changes that a migration makes to the fields of a node's
/// stored configuration, in the order in which they are made.
pub fn node_config_edits(step: NodeConfigMigration) -> (edits: Vec<ConfigEdit>)
    ensures
        edits_view(edits@) == node_edits(step),
{
    let mut edits: Vec<ConfigEdit> = Vec::new();
    match step {
        NodeConfigMigration::EnableP2P => {
            edits.push(ConfigEdit::Remove(String::from_str("p2p_email")));
            edits.push(ConfigEdit::Remove(String::from_str("p2p_img_url")));
            edits.push(ConfigEdit::Remove(String::from_str("p2p_port")));
            edits.push(
                ConfigEdit::SetFlag {
                    object: String::from_str("p2p"),
                    flag: String::from_str("enabled"),
                    value: true,
                },
            );
        },
        NodeConfigMigration::AddPreferences => {
            edits.push(
                ConfigEdit::InsertPreferences(
                    String::from_str("preferences"),
                    NodePreferences::default(),
                ),
            );
        },
    }
    proof {
        assert(edits_view(edits@) =~= node_edits(step));
    }
    edits
}

} // verus!
