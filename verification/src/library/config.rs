//! The configuration of one library and the versions that its stored form
//! has gone through.

use crate::api::locations::{be_bytes, be_value};
use crate::node::config::NodePreferences;
use crate::text::{parse_u64, parsed_u64};
use vstd::prelude::*;
use vstd::string::StringExecFns;

verus! {

/// The versions of a library's stored configuration, oldest first.
#[derive(Debug, Clone, Copy, PartialEq, Eq, Structural)]
pub enum LibraryConfigVersion {
    V0,
    V1,
    V2,
    V3,
    V4,
    V5,
    V6,
    V7,
    V8,
    V9,
}

impl LibraryConfigVersion {
    /// The number that stands for the version in the stored configuration.
    pub open spec fn number(self) -> u64 {
        match self {
            LibraryConfigVersion::V0 => 0,
            LibraryConfigVersion::V1 => 1,
            LibraryConfigVersion::V2 => 2,
            LibraryConfigVersion::V3 => 3,
            LibraryConfigVersion::V4 => 4,
            LibraryConfigVersion::V5 => 5,
            LibraryConfigVersion::V6 => 6,
            LibraryConfigVersion::V7 => 7,
            LibraryConfigVersion::V8 => 8,
            LibraryConfigVersion::V9 => 9,
        }
    }

    /// The number that stands for the version in the stored configuration.
    pub fn int_value(self) -> (number: u64)
        ensures
            number == self.number(),
    {
        match self {
            LibraryConfigVersion::V0 => 0,
            LibraryConfigVersion::V1 => 1,
            LibraryConfigVersion::V2 => 2,
            LibraryConfigVersion::V3 => 3,
            LibraryConfigVersion::V4 => 4,
            LibraryConfigVersion::V5 => 5,
            LibraryConfigVersion::V6 => 6,
            LibraryConfigVersion::V7 => 7,
            LibraryConfigVersion::V8 => 8,
            LibraryConfigVersion::V9 => 9,
        }
    }

    /// The version that a number stands for; `None` for a number that no
    /// version has.
    pub fn from_int(number: u64) -> (version: Option<LibraryConfigVersion>)
        ensures
            version.is_some() == (number <= 9),
            version.is_some() ==> version.unwrap().number() == number,
    {
        match number {
            0 => Some(LibraryConfigVersion::V0),
            1 => Some(LibraryConfigVersion::V1),
            2 => Some(LibraryConfigVersion::V2),
            3 => Some(LibraryConfigVersion::V3),
            4 => Some(LibraryConfigVersion::V4),
            5 => Some(LibraryConfigVersion::V5),
            6 => Some(LibraryConfigVersion::V6),
            7 => Some(LibraryConfigVersion::V7),
            8 => Some(LibraryConfigVersion::V8),
            9 => Some(LibraryConfigVersion::V9),
            _ => None,
        }
    }

    /// The version that follows this one; `None` after the latest.
    pub fn next(self) -> (next: Option<LibraryConfigVersion>)
        ensures
            next.is_some() == (self.number() < 9),
            next.is_some() ==> next.unwrap().number() == self.number() + 1,
    {
        LibraryConfigVersion::from_int(self.int_value() + 1)
    }
}

/// What bringing a stored configuration from one version to the next has to
/// do.
#[derive(Debug, Clone, Copy, PartialEq, Eq, Structural)]
pub enum LibraryConfigMigration {
    /// Give the seeded indexer rules their fixed public identifiers.
    IndexerRulePubIds,
    /// Add a freshly made identity to the configuration.
    AddIdentity,
    /// Point the single stored node at this node, and add its identifier to
    /// the configuration.
    AdoptNode,
    /// Nothing to do.
    Nothing,
    /// Turn the file sizes stored as text into bytes.
    SizeInBytes,
    /// Replace the stored node by an instance, and the node's identifier and
    /// identity in the configuration by the instance's identifier.
    NodeToInstance,
    /// Store the instance's numeric identifier in the configuration, and
    /// tie every location to that instance.
    NumericInstanceId,
    /// Store the instance's numeric identifier in the configuration again.
    NumericInstanceIdAgain,
    /// Store each instance's identity in its tagged form.
    TaggedIdentities,
}

/// What stops a library's configuration from loading.
#[derive(Debug, Clone, Copy, PartialEq, Eq, Structural)]
pub enum LibraryConfigError {
    /// The database holds more nodes than one.
    TooManyNodes,
    /// The database holds more instances than one.
    TooManyInstances,
    /// The database holds no instance.
    MissingInstance,
    /// No migration leads from the one version to the other.
    UnexpectedMigration { current_version: u64, next_version: u64 },
}

/// The migration that leads from `current` to the version after it.
pub open spec fn step_from(current: LibraryConfigVersion) -> LibraryConfigMigration {
    match current {
        LibraryConfigVersion::V0 => LibraryConfigMigration::IndexerRulePubIds,
        LibraryConfigVersion::V1 => LibraryConfigMigration::AddIdentity,
        LibraryConfigVersion::V2 => LibraryConfigMigration::AdoptNode,
        LibraryConfigVersion::V3 => LibraryConfigMigration::Nothing,
        LibraryConfigVersion::V4 => LibraryConfigMigration::SizeInBytes,
        LibraryConfigVersion::V5 => LibraryConfigMigration::NodeToInstance,
        LibraryConfigVersion::V6 => LibraryConfigMigration::NumericInstanceId,
        LibraryConfigVersion::V7 => LibraryConfigMigration::NumericInstanceIdAgain,
        _ => LibraryConfigMigration::TaggedIdentities,
    }
}

/// Whether the database is in a state from which `step` can run, given how
/// many nodes and instances it holds.
pub open spec fn step_verdict(step: LibraryConfigMigration, nodes: nat, instances: nat) -> Result<
    (),
    LibraryConfigError,
> {
    match step {
        LibraryConfigMigration::AdoptNode => if nodes != 1 {
            Err(LibraryConfigError::TooManyNodes)
        } else {
            Ok(())
        },
        LibraryConfigMigration::NodeToInstance => if nodes > 1 {
            Err(LibraryConfigError::TooManyNodes)
        } else {
            Ok(())
        },
        LibraryConfigMigration::NumericInstanceId => if instances > 1 {
            Err(LibraryConfigError::TooManyInstances)
        } else if instances == 0 {
            Err(LibraryConfigError::MissingInstance)
        } else {
            Ok(())
        },
        LibraryConfigMigration::NumericInstanceIdAgain => if instances == 0 {
            Err(LibraryConfigError::MissingInstance)
        } else {
            Ok(())
        },
        _ => Ok(()),
    }
}

/// A value in a request that changes something: left out, given as null,
/// or given.
#[derive(Debug, PartialEq, Eq)]
pub enum MaybeUndefined<T> {
    Undefined,
    Null,
    Value(T),
}

/// What a text that may be missing becomes under a change.
pub open spec fn changed_text(
    before: Option<Seq<char>>,
    change: MaybeUndefined<String>,
) -> Option<Seq<char>> {
    match change {
        MaybeUndefined::Undefined => before,
        MaybeUndefined::Null => None,
        MaybeUndefined::Value(text) => Some(text@),
    }
}

/// The configuration of one library.
#[derive(Debug, PartialEq, Eq)]
pub struct LibraryConfig {
    /// The name that the user gave the library.
    pub name: String,
    /// The user's description of the library.
    pub description: Option<String>,
    /// The numeric identifier of this instance in the library's database.
    pub instance_id: i32,
    /// The identifier of the cloud library that this one is linked to.
    pub cloud_id: Option<String>,
    version: LibraryConfigVersion,
}

/// The mathematical value of a library's configuration.
pub struct LibraryConfigView {
    pub name: Seq<char>,
    pub description: Option<Seq<char>>,
    pub instance_id: i32,
    pub cloud_id: Option<Seq<char>>,
    pub version: LibraryConfigVersion,
}

/// The characters of a text that may be missing.
pub open spec fn text_view(text: Option<String>) -> Option<Seq<char>> {
    match text {
        Some(text) => Some(text@),
        None => None,
    }
}

impl View for LibraryConfig {
    type V = LibraryConfigView;

    closed spec fn view(&self) -> LibraryConfigView {
        LibraryConfigView {
            name: self.name@,
            description: text_view(self.description),
            instance_id: self.instance_id,
            cloud_id: text_view(self.cloud_id),
            version: self.version,
        }
    }
}

impl LibraryConfig {
    /// The version that a new configuration is written in.
    pub const LATEST_VERSION: LibraryConfigVersion = LibraryConfigVersion::V9;

    /// A configuration in the latest version, not linked to any cloud
    /// library.
    pub fn new(name: String, description: Option<String>, instance_id: i32) -> (config: Self)
        ensures
            config@ == (LibraryConfigView {
                name: name@,
                description: text_view(description),
                instance_id,
                cloud_id: None,
                version: LibraryConfigVersion::V9,
            }),
    {
        Self {
            name,
            description,
            instance_id,
            version: LibraryConfigVersion::V9,
            cloud_id: None,
        }
    }

    /// Changes what the user can change. A name that is given replaces the
    /// name. Description and cloud identifier stay as they are where the
    /// change leaves them out, are cleared by a null, and are replaced by a
    /// value. Instance and version stay.
    pub fn edit(
        &mut self,
        name: Option<String>,
        description: MaybeUndefined<String>,
        cloud_id: MaybeUndefined<String>,
    )
        ensures
            final(self)@ == (LibraryConfigView {
                name: match name {
                    Some(name) => name@,
                    None => old(self)@.name,
                },
                description: changed_text(old(self)@.description, description),
                cloud_id: changed_text(old(self)@.cloud_id, cloud_id),
                instance_id: old(self)@.instance_id,
                version: old(self)@.version,
            }),
    {
        if let Some(name) = name {
            self.name = name;
        }
        match description {
            MaybeUndefined::Undefined => {},
            MaybeUndefined::Null => self.description = None,
            MaybeUndefined::Value(description) => self.description = Some(description),
        }
        match cloud_id {
            MaybeUndefined::Undefined => {},
            MaybeUndefined::Null => self.cloud_id = None,
            MaybeUndefined::Value(cloud_id) => self.cloud_id = Some(cloud_id),
        }
    }

    /// The version of this configuration.
    pub fn version(&self) -> (version: LibraryConfigVersion)
        ensures
            version == self@.version,
    {
        self.version
    }

    /// The migration that leads from `current` to `next`. Only a step from a
    /// version to the one right after it is a migration; any other pair is
    /// reported with both numbers.
    pub fn migration(current: LibraryConfigVersion, next: LibraryConfigVersion) -> (step: Result<
        LibraryConfigMigration,
        LibraryConfigError,
    >)
        ensures
            next.number() == current.number() + 1 ==> step == Ok::<
                LibraryConfigMigration,
                LibraryConfigError,
            >(step_from(current)),
            next.number() != current.number() + 1 ==> step == Err::<
                LibraryConfigMigration,
                LibraryConfigError,
            >(
                LibraryConfigError::UnexpectedMigration {
                    current_version: current.number(),
                    next_version: next.number(),
                },
            ),
    {
        match (current, next) {
            (LibraryConfigVersion::V0, LibraryConfigVersion::V1) => Ok(
                LibraryConfigMigration::IndexerRulePubIds,
            ),
            (LibraryConfigVersion::V1, LibraryConfigVersion::V2) => Ok(
                LibraryConfigMigration::AddIdentity,
            ),
            (LibraryConfigVersion::V2, LibraryConfigVersion::V3) => Ok(
                LibraryConfigMigration::AdoptNode,
            ),
            (LibraryConfigVersion::V3, LibraryConfigVersion::V4) => Ok(
                LibraryConfigMigration::Nothing,
            ),
            (LibraryConfigVersion::V4, LibraryConfigVersion::V5) => Ok(
                LibraryConfigMigration::SizeInBytes,
            ),
            (LibraryConfigVersion::V5, LibraryConfigVersion::V6) => Ok(
                LibraryConfigMigration::NodeToInstance,
            ),
            (LibraryConfigVersion::V6, LibraryConfigVersion::V7) => Ok(
                LibraryConfigMigration::NumericInstanceId,
            ),
            (LibraryConfigVersion::V7, LibraryConfigVersion::V8) => Ok(
                LibraryConfigMigration::NumericInstanceIdAgain,
            ),
            (LibraryConfigVersion::V8, LibraryConfigVersion::V9) => Ok(
                LibraryConfigMigration::TaggedIdentities,
            ),
            _ => Err(
                LibraryConfigError::UnexpectedMigration {
                    current_version: current.int_value(),
                    next_version: next.int_value(),
                },
            ),
        }
    }

    /// Whether `step` can run on a database that holds `nodes` nodes and
    /// `instances` instances, and the error to stop with if it cannot.
    pub fn check_database(step: LibraryConfigMigration, nodes: usize, instances: usize) -> (verdict: Result<
        (),
        LibraryConfigError,
    >)
        ensures
            verdict == step_verdict(step, nodes as nat, instances as nat),
    {
        match step {
            LibraryConfigMigration::AdoptNode => {
                if nodes != 1 {
                    Err(LibraryConfigError::TooManyNodes)
                } else {
                    Ok(())
                }
            },
            LibraryConfigMigration::NodeToInstance => {
                if nodes > 1 {
                    Err(LibraryConfigError::TooManyNodes)
                } else {
                    Ok(())
                }
            },
            LibraryConfigMigration::NumericInstanceId => {
                if instances > 1 {
                    Err(LibraryConfigError::TooManyInstances)
                } else if instances == 0 {
                    Err(LibraryConfigError::MissingInstance)
                } else {
                    Ok(())
                }
            },
            LibraryConfigMigration::NumericInstanceIdAgain => {
                if instances == 0 {
                    Err(LibraryConfigError::MissingInstance)
                } else {
                    Ok(())
                }
            },
            _ => Ok(()),
        }
    }
}

/// One change to the fields of a stored configuration.
#[derive(Debug, PartialEq, Eq)]
pub enum ConfigEdit {
    /// Take the field out, if it is there.
    Remove(String),
    /// Put a text under the field.
    InsertText(String, String),
    /// Put a number under the field.
    InsertNumber(String, i32),
    /// Put bytes under the field, as a list of numbers.
    InsertBytes(String, Vec<u8>),
    /// Put preferences under the field.
    InsertPreferences(String, NodePreferences),
    /// Where the field holds an object, set a flag in that object.
    SetFlag { object: String, flag: String, value: bool },
}

/// The mathematical value of a change to a stored configuration.
pub enum ConfigEditView {
    Remove(Seq<char>),
    InsertText(Seq<char>, Seq<char>),
    InsertNumber(Seq<char>, i32),
    InsertBytes(Seq<char>, Seq<u8>),
    InsertPreferences(Seq<char>, NodePreferences),
    SetFlag { object: Seq<char>, flag: Seq<char>, value: bool },
}

impl View for ConfigEdit {
    type V = ConfigEditView;

    open spec fn view(&self) -> ConfigEditView {
        match self {
            ConfigEdit::Remove(field) => ConfigEditView::Remove(field@),
            ConfigEdit::InsertText(field, text) => ConfigEditView::InsertText(field@, text@),
            ConfigEdit::InsertNumber(field, number) => ConfigEditView::InsertNumber(
                field@,
                *number,
            ),
            ConfigEdit::InsertBytes(field, bytes) => ConfigEditView::InsertBytes(field@, bytes@),
            ConfigEdit::InsertPreferences(field, preferences) => ConfigEditView::InsertPreferences(
                field@,
                *preferences,
            ),
            ConfigEdit::SetFlag { object, flag, value } => ConfigEditView::SetFlag {
                object: object@,
                flag: flag@,
                value: *value,
            },
        }
    }
}

/// The values of a list of changes, in order.
pub open spec fn edits_view(edits: Seq<ConfigEdit>) -> Seq<ConfigEditView> {
    Seq::new(edits.len(), |i: int| edits[i]@)
}

/// What a migration of a library's configuration takes from outside.
pub struct MigrationInputs {
    /// The bytes of a freshly made identity.
    pub identity: Vec<u8>,
    /// The node's identifier, as text.
    pub node_id: String,
    /// The identifier of the instance that replaces the node, as text.
    pub instance_id: String,
    /// The numeric identifier that the database gave the instance.
    pub instance: i32,
}

/// The changes that a migration makes to the fields of a library's stored
/// configuration.
pub open spec fn library_edits(
    step: LibraryConfigMigration,
    inputs: MigrationInputs,
) -> Seq<ConfigEditView> {
    match step {
        LibraryConfigMigration::AddIdentity => seq![
            ConfigEditView::InsertBytes("identity"@, inputs.identity@),
        ],
        LibraryConfigMigration::AdoptNode => seq![
            ConfigEditView::InsertText("node_id"@, inputs.node_id@),
        ],
        LibraryConfigMigration::NodeToInstance => seq![
            ConfigEditView::Remove("node_id"@),
            ConfigEditView::Remove("identity"@),
            ConfigEditView::InsertText("instance_id"@, inputs.instance_id@),
        ],
        LibraryConfigMigration::NumericInstanceId => seq![
            ConfigEditView::Remove("instance_id"@),
            ConfigEditView::InsertNumber("instance_id"@, inputs.instance),
        ],
        LibraryConfigMigration::NumericInstanceIdAgain => seq![
            ConfigEditView::Remove("instance_id"@),
            ConfigEditView::InsertNumber("instance_id"@, inputs.instance),
        ],
        _ => Seq::empty(),
    }
}

/// Lists the changes that a migration makes to the fields of a library's
/// stored configuration, in the order in which they are made.
pub fn config_edits(step: LibraryConfigMigration, inputs: MigrationInputs) -> (edits: Vec<
    ConfigEdit,
>)
    ensures
        edits_view(edits@) == library_edits(step, inputs),
{
    let mut edits: Vec<ConfigEdit> = Vec::new();
    match step {
        LibraryConfigMigration::AddIdentity => {
            edits.push(ConfigEdit::InsertBytes(String::from_str("identity"), inputs.identity));
        },
        LibraryConfigMigration::AdoptNode => {
            edits.push(ConfigEdit::InsertText(String::from_str("node_id"), inputs.node_id));
        },
        LibraryConfigMigration::NodeToInstance => {
            edits.push(ConfigEdit::Remove(String::from_str("node_id")));
            edits.push(ConfigEdit::Remove(String::from_str("identity")));
            edits.push(
                ConfigEdit::InsertText(String::from_str("instance_id"), inputs.instance_id),
            );
        },
        LibraryConfigMigration::NumericInstanceId => {
            edits.push(ConfigEdit::Remove(String::from_str("instance_id")));
            edits.push(ConfigEdit::InsertNumber(String::from_str("instance_id"), inputs.instance));
        },
        LibraryConfigMigration::NumericInstanceIdAgain => {
            edits.push(ConfigEdit::Remove(String::from_str("instance_id")));
            edits.push(ConfigEdit::InsertNumber(String::from_str("instance_id"), inputs.instance));
        },
        _ => {},
    }
    proof {
        assert(edits_view(edits@) =~= library_edits(step, inputs));
    }
    edits
}

/// The names of the four indexer rules that every library is seeded with.
/// The place of a rule in this list is the number that its public
/// identifier is made from.
pub fn seeded_rule_names() -> (names: Vec<String>)
    ensures
        names@.len() == 4,
        names@[0]@ == "No OS protected"@,
        names@[1]@ == "No Hidden"@,
        names@[2]@ == "No Git"@,
        names@[3]@ == "Only Images"@,
{
    let mut names: Vec<String> = Vec::new();
    names.push(String::from_str("No OS protected"));
    names.push(String::from_str("No Hidden"));
    names.push(String::from_str("No Git"));
    names.push(String::from_str("Only Images"));
    names
}

/// Turns a file size that is stored as text into the eight bytes that
/// stand for it, most significant byte first. `None` where the text is no
/// unsigned 64-bit number in decimal.
pub fn size_bytes_from_text(text: &str) -> (bytes: Option<Vec<u8>>)
    ensures
        bytes.is_some() == parsed_u64(text@).is_some(),
        bytes.is_some() ==> bytes.unwrap()@.len() == 8 && be_value(bytes.unwrap()@)
            == parsed_u64(text@).unwrap(),
{
    match parse_u64(text) {
        Some(size) => Some(be_bytes(size)),
        None => None,
    }
}

} // verus!
