use sd_core::api::locations::{
    be_bytes, be_u64, DefaultLocations, ExplorerItem, FilePathItem, LocationItem, NamedItem,
    NonIndexedPathItem, ObjectItem, SystemLocations,
};
use sd_core::api::router::{
    generate_procedures_ts, ExecError, ExecKind, ExportError, NamedType, ProcedureKind,
    ProcedureSignature, Router,
};
use sd_core::library::config::{
    config_edits, seeded_rule_names, size_bytes_from_text, ConfigEdit, LibraryConfig,
    LibraryConfigMigration, LibraryConfigVersion, MaybeUndefined, MigrationInputs,
};
use sd_core::node::config::{node_config_edits, NodeConfigMigration, NodePreferences};
use sd_core::sync::backoff::Backoff;
use sd_core::sync::ingest::ConflictPolicy;
use sd_core::library::manager::{
    check_identity, check_name, classify_entry, clock_seed, current_instance, node_changed,
    plan_cloud_round, react, seeded_clock, CloudAction, CloudInstance, CloudLibrary,
    DatabaseProbe, DirectoryEntry, EntryVerdict, IdentityKind, Libraries, Library,
    LibraryManagerError,
    LibraryManagerEvent, NodeTraits, SyncMessage, SyncReaction,
};
use sd_core::library::statistics::{Message, StatisticsUpdater, UpdaterAction};
use sd_core::location::indexer_rules::{check_deletion, RuleError};
use sd_core::location::non_indexed::{
    assemble, rejected, should_generate_thumbnail, MediaKind,
};
use sd_core::sync::timestamp::NTP64;
use sd_core::text::{is_blank, is_whitespace, natural_text, number_text, parse_u64};
use std::path::PathBuf;
use uuid::Uuid;

fn file(id: i32, name: Option<&str>, size: Option<Vec<u8>>) -> ExplorerItem {
    ExplorerItem::Path {
        thumbnail: None,
        item: FilePathItem {
            id,
            name: name.map(str::to_string),
            size_in_bytes_bytes: size,
            date_created: Some(11),
            date_modified: None,
        },
    }
}

fn folder(path: &str) -> NonIndexedPathItem {
    NonIndexedPathItem {
        path: path.to_string(),
        name: path.trim_start_matches('/').to_string(),
        extension: String::new(),
        kind: 2,
        is_dir: true,
        date_created: 5,
        date_modified: 6,
        size_in_bytes_bytes: 4096u64.to_be_bytes().to_vec(),
        hidden: false,
    }
}

fn location(id: i32) -> LocationItem {
    LocationItem { id, name: Some(format!("location {id}")), date_created: None }
}

fn node(id: u128, platform: i32, name: &str) -> NodeTraits {
    NodeTraits { id: Uuid::from_u128(id), platform, name: name.to_string() }
}

#[test]
fn whitespace_is_what_std_calls_whitespace() {
    for code in 0..=0x10ffffu32 {
        if let Some(c) = char::from_u32(code) {
            assert_eq!(is_whitespace(c), c.is_whitespace(), "code point {code:#x}");
        }
    }
}

#[test]
fn blank_texts() {
    assert!(is_blank(""));
    assert!(is_blank(" \t\u{3000}\n"));
    assert!(!is_blank(" a "));
    assert!(!is_blank("\u{200b}"));
}

#[test]
fn numbers_are_written_in_decimal() {
    for n in [0i32, 7, 10, 99, 100, 12345, -1, -10, i32::MAX, i32::MIN, -2147483647] {
        assert_eq!(number_text(n), n.to_string());
    }
    for n in [0u32, 9, 10, 4294967295] {
        assert_eq!(natural_text(n), n.to_string());
    }
}

#[test]
fn explorer_item_identifiers() {
    assert_eq!(file(12, None, None).id(), "FilePath:12");
    let object = ExplorerItem::Object {
        thumbnail: None,
        item: ObjectItem { id: -3, date_created: None },
    };
    assert_eq!(object.id(), "Object:-3");
    assert_eq!(ExplorerItem::Location { item: location(4) }.id(), "Location:4");
    let path = ExplorerItem::NonIndexedPath { thumbnail: None, item: folder("/tmp/a") };
    assert_eq!(path.id(), "NonIndexedPath:/tmp/a");
    let peer = ExplorerItem::SpacedropPeer { item: NamedItem { name: "laptop".to_string() } };
    assert_eq!(peer.id(), "SpacedropPeer:laptop");
    let label =
        ExplorerItem::Label { thumbnails: vec![], item: NamedItem { name: "cat".to_string() } };
    assert_eq!(label.id(), "Label:cat");
}

#[test]
fn explorer_item_names() {
    assert_eq!(file(1, Some("report"), None).name(), "report");
    assert_eq!(file(1, None, None).name(), "");
    assert_eq!(ExplorerItem::Location { item: location(4) }.name(), "location 4");
    let path = ExplorerItem::NonIndexedPath { thumbnail: None, item: folder("/a") };
    assert_eq!(path.name(), "a");
    let peer = ExplorerItem::SpacedropPeer { item: NamedItem { name: "laptop".to_string() } };
    assert_eq!(peer.name(), "");
}

#[test]
fn explorer_item_sizes_read_eight_bytes_big_endian() {
    let bytes = 0x0102030405060708u64.to_be_bytes().to_vec();
    assert_eq!(file(1, None, Some(bytes.clone())).size_in_bytes(), 0x0102030405060708);
    assert_eq!(be_u64(&bytes), 0x0102030405060708);
    assert_eq!(be_u64(&vec![255; 8]), u64::MAX);
    assert_eq!(be_u64(&vec![0, 0, 0, 0, 0, 0, 1, 0, 99]), 256);
    assert_eq!(file(1, None, None).size_in_bytes(), 0);
    let path = ExplorerItem::NonIndexedPath { thumbnail: None, item: folder("/a") };
    assert_eq!(path.size_in_bytes(), 4096);
    assert_eq!(ExplorerItem::Location { item: location(4) }.size_in_bytes(), 0);
    assert_eq!(file(1, None, Some(vec![1, 2, 3])).checked_size_in_bytes(), None);
    assert_eq!(file(1, None, Some(bytes)).checked_size_in_bytes(), Some(0x0102030405060708));
}

#[test]
fn explorer_item_dates_default_to_the_epoch() {
    assert_eq!(file(1, None, None).date_created(), 11);
    assert_eq!(file(1, None, None).date_modified(), 0);
    assert_eq!(ExplorerItem::Location { item: location(4) }.date_created(), 0);
    assert_eq!(ExplorerItem::Location { item: location(4) }.date_modified(), 0);
    let path = ExplorerItem::NonIndexedPath { thumbnail: None, item: folder("/a") };
    assert_eq!(path.date_created(), 5);
    assert_eq!(path.date_modified(), 6);
}

#[test]
fn default_locations_select_what_is_wanted_and_known() {
    let known = || SystemLocations {
        desktop: Some(PathBuf::from("/home/u/Desktop")),
        documents: None,
        downloads: Some(PathBuf::from("/home/u/Downloads")),
        pictures: Some(PathBuf::from("/home/u/Pictures")),
        music: None,
        videos: Some(PathBuf::from("/home/u/Videos")),
    };
    let wanted = DefaultLocations {
        desktop: true,
        documents: true,
        downloads: false,
        pictures: true,
        music: true,
        videos: true,
    };
    assert!(!wanted.none());
    assert_eq!(
        wanted.select(known()),
        vec![
            PathBuf::from("/home/u/Desktop"),
            PathBuf::from("/home/u/Pictures"),
            PathBuf::from("/home/u/Videos"),
        ]
    );
    let nothing = DefaultLocations {
        desktop: false,
        documents: false,
        downloads: false,
        pictures: false,
        music: false,
        videos: false,
    };
    assert!(nothing.none());
    assert!(nothing.select(known()).is_empty());
}

fn signature(key: &str, input: Option<&str>, result: &str) -> ProcedureSignature {
    ProcedureSignature {
        key: key.to_string(),
        input: input.map(str::to_string),
        result: result.to_string(),
    }
}

fn router() -> Router {
    Router {
        bindings_header: Some("/* eslint-disable */".to_string()),
        queries: vec![
            signature("library.list", None, "Library[]"),
            signature("locations.get", Some("number"), "Location | null"),
        ],
        mutations: vec![signature("library.create", Some("string"), "Library")],
        subscriptions: vec![],
        types: vec![
            NamedType {
                name: "Library".to_string(),
                declaration: "export type Library = { name: string }".to_string(),
            },
            NamedType {
                name: "Location".to_string(),
                declaration: "export type Location = { id: number }".to_string(),
            },
        ],
    }
}

#[test]
fn procedures_are_found_by_kind_and_key() {
    let router = router();
    assert_eq!(ExecKind::Query.procedure_kind(), ProcedureKind::Query);
    assert_eq!(ExecKind::Mutation.procedure_kind(), ProcedureKind::Mutation);
    assert_eq!(router.exec(ExecKind::Query, &"locations.get".to_string()), Ok(1));
    assert_eq!(router.exec(ExecKind::Mutation, &"library.create".to_string()), Ok(0));
    assert_eq!(
        router.exec(ExecKind::Mutation, &"locations.get".to_string()),
        Err(ExecError::OperationNotFound("locations.get".to_string()))
    );
    assert_eq!(
        router.exec_subscription(&"x".to_string()),
        Err(ExecError::OperationNotFound("x".to_string()))
    );
    assert_eq!(router.queries().len(), 2);
    assert_eq!(router.mutations().len(), 1);
    assert!(router.subscriptions().is_empty());
}

#[test]
fn bindings_are_written_in_full() {
    let text = router().export_ts().unwrap();
    let expected = "/* eslint-disable */\n// This file was generated by [rspc](https://github.com/oscartbeaumont/rspc). Do not edit this file manually.\n\nexport type Procedures = {\n    queries: \n        { key: \"library.list\", input: never, result: Library[] } | \n        { key: \"locations.get\", input: number, result: Location | null },\n    mutations: \n        { key: \"library.create\", input: string, result: Library },\n    subscriptions: never\n};\n\nexport type Library = { name: string }\n\nexport type Location = { id: number }\n";
    assert_eq!(text, expected);
    let mut bare = router();
    bare.bindings_header = None;
    assert!(bare.export_ts().unwrap().starts_with("// This file"));
}

#[test]
fn bindings_are_refused_when_two_types_share_a_name() {
    let mut router = router();
    router.types.push(NamedType {
        name: "Library".to_string(),
        declaration: "export type Library = {}".to_string(),
    });
    assert_eq!(router.duplicate_type_name(), Some("Library".to_string()));
    assert_eq!(router.export_ts(), Err(ExportError::DuplicateTypeName("Library".to_string())));
    assert_eq!(self::router().duplicate_type_name(), None);
}

#[test]
fn procedure_signatures_are_joined_by_bars() {
    assert_eq!(generate_procedures_ts(&vec![]), "never");
    let list = signature("library.list", None, "Library[]");
    let get = signature("locations.get", Some("number"), "Location | null");
    assert_eq!(
        generate_procedures_ts(&vec![list, get]),
        "\n        { key: \"library.list\", input: never, result: Library[] } | \n        { key: \"locations.get\", input: number, result: Location | null }"
    );
}

#[test]
fn library_config_edit_follows_the_three_way_values() {
    let mut config = LibraryConfig::new("a".to_string(), Some("d".to_string()), 3);
    config.edit(None, MaybeUndefined::Undefined, MaybeUndefined::Value("cloud".to_string()));
    assert_eq!(config.name, "a");
    assert_eq!(config.description, Some("d".to_string()));
    assert_eq!(config.cloud_id, Some("cloud".to_string()));
    config.edit(Some("b".to_string()), MaybeUndefined::Null, MaybeUndefined::Undefined);
    assert_eq!(config.name, "b");
    assert_eq!(config.description, None);
    assert_eq!(config.cloud_id, Some("cloud".to_string()));
    config.edit(None, MaybeUndefined::Value("e".to_string()), MaybeUndefined::Null);
    assert_eq!(config.description, Some("e".to_string()));
    assert_eq!(config.cloud_id, None);
    assert_eq!(config.instance_id, 3);
    assert_eq!(config.version(), LibraryConfigVersion::V9);
}

#[test]
fn library_names_must_not_be_blank() {
    assert_eq!(check_name("photos"), Ok(()));
    assert_eq!(
        check_name(""),
        Err(LibraryManagerError::InvalidConfig("name cannot be empty".to_string()))
    );
    assert_eq!(
        check_name("  \t"),
        Err(LibraryManagerError::InvalidConfig("name cannot be empty".to_string()))
    );
}

#[test]
fn current_instance_is_found_by_its_number() {
    assert_eq!(current_instance(&vec![4, 0, 7, 0], 0), Ok(1));
    assert_eq!(
        current_instance(&vec![4, 7], -12),
        Err(LibraryManagerError::CurrentInstanceNotFound("-12".to_string()))
    );
    assert_eq!(check_identity(IdentityKind::Own), Ok(()));
    assert_eq!(check_identity(IdentityKind::Remote), Err(LibraryManagerError::InvalidIdentity));
    assert_ne!(LibraryManagerError::LibraryNotFound, LibraryManagerError::InvalidIdentity);
}

#[test]
fn directory_entries_are_classified() {
    let id = Some(Uuid::from_u128(5));
    assert_eq!(classify_entry(false, true, id, DatabaseProbe::Found), EntryVerdict::Ignore);
    assert_eq!(classify_entry(true, false, id, DatabaseProbe::Found), EntryVerdict::Ignore);
    assert_eq!(classify_entry(true, true, None, DatabaseProbe::Found), EntryVerdict::InvalidName);
    assert_eq!(
        classify_entry(true, true, id, DatabaseProbe::NotFound),
        EntryVerdict::MissingDatabase
    );
    assert_eq!(classify_entry(true, true, id, DatabaseProbe::Failed), EntryVerdict::Fail);
    assert_eq!(
        classify_entry(true, true, id, DatabaseProbe::Found),
        EntryVerdict::Load(Uuid::from_u128(5))
    );
}

#[test]
fn node_change_is_seen_in_each_of_three_traits() {
    let recorded = node(1, 2, "desk");
    assert!(!node_changed(&recorded, &node(1, 2, "desk")));
    assert!(node_changed(&recorded, &node(9, 2, "desk")));
    assert!(node_changed(&recorded, &node(1, 3, "desk")));
    assert!(node_changed(&recorded, &node(1, 2, "lap")));
}

#[test]
fn clock_seed_takes_latest_timestamps_or_zero() {
    let registry = vec![
        (Uuid::from_u128(1), Some(77i64)),
        (Uuid::from_u128(2), None),
        (Uuid::from_u128(3), Some(-1i64)),
    ];
    assert_eq!(
        clock_seed(&registry),
        vec![
            (Uuid::from_u128(1), NTP64(77)),
            (Uuid::from_u128(2), NTP64(0)),
            (Uuid::from_u128(3), NTP64(u64::MAX)),
        ]
    );
    let clock = seeded_clock(&registry);
    assert_eq!(clock.get(&Uuid::from_u128(1)), Some(NTP64(77)));
    assert_eq!(clock.get(&Uuid::from_u128(2)), Some(NTP64(0)));
    assert_eq!(clock.get(&Uuid::from_u128(4)), None);
}

#[test]
fn sync_messages_lead_to_their_reactions() {
    assert_eq!(react(SyncMessage::Ingested), SyncReaction::InvalidateAll);
    assert_eq!(react(SyncMessage::Created), SyncReaction::Originate);
    assert_ne!(
        LibraryManagerEvent::Load(Uuid::from_u128(1)),
        LibraryManagerEvent::Delete(Uuid::from_u128(1))
    );
    assert_ne!(
        LibraryManagerEvent::Edit(Uuid::from_u128(1)),
        LibraryManagerEvent::InstancesModified(Uuid::from_u128(1))
    );
}

#[test]
fn cloud_round_plans() {
    let here = node(1, 2, "desk");
    let this = Uuid::from_u128(10);
    let name = "photos".to_string();
    let found = |cloud_name: &str, traits: NodeTraits| CloudLibrary::Found {
        name: cloud_name.to_string(),
        instances: vec![
            CloudInstance { uuid: Uuid::from_u128(11), node: node(5, 5, "other") },
            CloudInstance { uuid: this, node: traits },
        ],
    };
    assert!(plan_cloud_round(false, &CloudLibrary::Missing, &this, &here, &name).is_empty());
    assert!(plan_cloud_round(true, &CloudLibrary::Unreachable, &this, &here, &name).is_empty());
    assert_eq!(
        plan_cloud_round(true, &CloudLibrary::Missing, &this, &here, &name),
        vec![CloudAction::Unlink]
    );
    assert_eq!(
        plan_cloud_round(true, &found("photos", node(1, 2, "desk")), &this, &here, &name),
        vec![
            CloudAction::CreateInstance(Uuid::from_u128(11)),
            CloudAction::CreateInstance(this),
        ]
    );
    assert_eq!(
        plan_cloud_round(true, &found("old name", node(1, 2, "lap")), &this, &here, &name),
        vec![
            CloudAction::UpdateInstance(this),
            CloudAction::UpdateName,
            CloudAction::CreateInstance(Uuid::from_u128(11)),
            CloudAction::CreateInstance(this),
        ]
    );
    assert_eq!(
        plan_cloud_round(
            true,
            &found("photos", node(1, 2, "desk")),
            &Uuid::from_u128(99),
            &here,
            &name
        ),
        vec![
            CloudAction::CreateInstance(Uuid::from_u128(11)),
            CloudAction::CreateInstance(this),
        ]
    );
}

#[test]
fn statistics_are_updated_while_somebody_looks() {
    let mut updater = StatisticsUpdater::new(1_000);
    assert_eq!(updater.on(Message::Tick(1_000)), UpdaterAction::Update);
    assert_eq!(updater.on(Message::Tick(300_999)), UpdaterAction::Update);
    assert_eq!(updater.on(Message::Tick(301_000)), UpdaterAction::Nothing);
    assert_eq!(updater.on(Message::Tick(0)), UpdaterAction::Update);
    assert_eq!(updater.on(Message::Requested(121_000)), UpdaterAction::Nothing);
    assert_eq!(updater.last_received_at, 1_000);
    assert_eq!(updater.on(Message::Requested(121_001)), UpdaterAction::Nothing);
    assert_eq!(updater.last_received_at, 121_001);
    assert_eq!(updater.on(Message::Requested(5)), UpdaterAction::Nothing);
    assert_eq!(updater.last_received_at, 121_001);
    assert_eq!(updater.on(Message::Tick(421_000)), UpdaterAction::Update);
    assert_eq!(updater.on(Message::Tick(421_001)), UpdaterAction::Nothing);
}

#[test]
fn thumbnails_are_made_for_images_documents_and_readable_videos() {
    assert!(should_generate_thumbnail(MediaKind::Image, false));
    assert!(should_generate_thumbnail(MediaKind::Document, false));
    assert!(!should_generate_thumbnail(MediaKind::Video, false));
    assert!(should_generate_thumbnail(MediaKind::Video, true));
    assert!(!should_generate_thumbnail(MediaKind::Other, true));
}

#[test]
fn one_rule_that_does_not_accept_rejects_the_entry() {
    assert!(!rejected(&vec![]));
    assert!(!rejected(&vec![true, true]));
    assert!(rejected(&vec![true, false, true]));
}

#[test]
fn listing_puts_files_first_and_turns_known_folders_into_locations() {
    let files = vec![file(1, Some("a"), None), file(2, Some("b"), None)];
    let folders = vec![folder("/x"), folder("/y"), folder("/x"), folder("/z")];
    let locations = vec![("/z".to_string(), location(7)), ("/x".to_string(), location(8))];
    let entries = assemble(files, folders, locations);
    assert_eq!(
        entries,
        vec![
            file(1, Some("a"), None),
            file(2, Some("b"), None),
            ExplorerItem::Location { item: location(8) },
            ExplorerItem::NonIndexedPath { thumbnail: None, item: folder("/y") },
            ExplorerItem::NonIndexedPath { thumbnail: None, item: folder("/x") },
            ExplorerItem::Location { item: location(7) },
        ]
    );
}

#[test]
fn size_text_becomes_eight_bytes() {
    assert_eq!(size_bytes_from_text("0"), Some(vec![0; 8]));
    assert_eq!(size_bytes_from_text("258"), Some(vec![0, 0, 0, 0, 0, 0, 1, 2]));
    assert_eq!(size_bytes_from_text("18446744073709551615"), Some(vec![255; 8]));
    assert_eq!(size_bytes_from_text("18446744073709551616"), None);
    assert_eq!(size_bytes_from_text(""), None);
    assert_eq!(size_bytes_from_text("12a"), None);
    assert_eq!(size_bytes_from_text("-1"), None);
}

#[test]
fn unsigned_numbers_parse_as_std_parses_them() {
    let texts = [
        "", "+", "-", "0", "+0", "007", "+42", "++1", "1+", " 1", "1 ", "1_0", "٣", "12345",
        "18446744073709551615", "18446744073709551616", "99999999999999999999999", "+18446744073709551615",
        "1844674407370955161", "18446744073709551609", "-0", "0x10", "1e3",
    ];
    for text in texts {
        assert_eq!(parse_u64(text), text.parse::<u64>().ok(), "text {text:?}");
    }
}

#[test]
fn big_endian_bytes_round_trip() {
    for value in [0u64, 1, 255, 256, 0x0102030405060708, u64::MAX, 1 << 63, 4096] {
        assert_eq!(be_bytes(value), value.to_be_bytes().to_vec());
        assert_eq!(be_u64(&be_bytes(value)), value);
    }
}

#[test]
fn library_migrations_edit_the_stored_fields() {
    let inputs = || MigrationInputs {
        identity: vec![1, 2, 3],
        node_id: "node".to_string(),
        instance_id: "instance".to_string(),
        instance: 4,
    };
    let field = |name: &str| name.to_string();
    assert_eq!(
        config_edits(LibraryConfigMigration::AddIdentity, inputs()),
        vec![ConfigEdit::InsertBytes(field("identity"), vec![1, 2, 3])]
    );
    assert_eq!(
        config_edits(LibraryConfigMigration::AdoptNode, inputs()),
        vec![ConfigEdit::InsertText(field("node_id"), field("node"))]
    );
    assert_eq!(
        config_edits(LibraryConfigMigration::NodeToInstance, inputs()),
        vec![
            ConfigEdit::Remove(field("node_id")),
            ConfigEdit::Remove(field("identity")),
            ConfigEdit::InsertText(field("instance_id"), field("instance")),
        ]
    );
    for step in [
        LibraryConfigMigration::NumericInstanceId,
        LibraryConfigMigration::NumericInstanceIdAgain,
    ] {
        assert_eq!(
            config_edits(step, inputs()),
            vec![
                ConfigEdit::Remove(field("instance_id")),
                ConfigEdit::InsertNumber(field("instance_id"), 4),
            ]
        );
    }
    for step in [
        LibraryConfigMigration::IndexerRulePubIds,
        LibraryConfigMigration::Nothing,
        LibraryConfigMigration::SizeInBytes,
        LibraryConfigMigration::TaggedIdentities,
    ] {
        assert!(config_edits(step, inputs()).is_empty());
    }
    assert_eq!(seeded_rule_names(), vec!["No OS protected", "No Hidden", "No Git", "Only Images"]);
}

#[test]
fn node_migrations_edit_the_stored_fields() {
    let field = |name: &str| name.to_string();
    assert_eq!(
        node_config_edits(NodeConfigMigration::EnableP2P),
        vec![
            ConfigEdit::Remove(field("p2p_email")),
            ConfigEdit::Remove(field("p2p_img_url")),
            ConfigEdit::Remove(field("p2p_port")),
            ConfigEdit::SetFlag { object: field("p2p"), flag: field("enabled"), value: true },
        ]
    );
    assert_eq!(
        node_config_edits(NodeConfigMigration::AddPreferences),
        vec![ConfigEdit::InsertPreferences(field("preferences"), NodePreferences::default())]
    );
}

#[test]
fn backoff_doubles_up_to_the_cap() {
    let mut backoff = Backoff::new(100, 1000);
    assert_eq!(backoff.delay_ms(), 100);
    let mut seen = Vec::new();
    for _ in 0..6 {
        backoff.failed();
        seen.push(backoff.delay_ms());
    }
    assert_eq!(seen, vec![200, 400, 800, 1000, 1000, 1000]);
    backoff.succeeded();
    assert_eq!(backoff.delay_ms(), 100);
    assert_eq!(Backoff { base_ms: 5000, cap_ms: 1000, failures: 0 }.delay_ms(), 1000);
    assert_eq!(Backoff { base_ms: 0, cap_ms: 1000, failures: 40 }.delay_ms(), 0);
    assert_eq!(Backoff { base_ms: 1, cap_ms: u64::MAX, failures: 63 }.delay_ms(), 1 << 63);
    assert_eq!(Backoff { base_ms: 1, cap_ms: u64::MAX, failures: 64 }.delay_ms(), u64::MAX);
    assert_eq!(Backoff { base_ms: 3, cap_ms: u64::MAX, failures: u32::MAX }.delay_ms(), u64::MAX);
    let mut full = Backoff { base_ms: 1, cap_ms: 2, failures: u32::MAX };
    full.failed();
    assert_eq!(full.failures, u32::MAX);
}

#[test]
fn last_write_wins_against_strictly_older_data() {
    let policy = ConflictPolicy::LastWriteWins;
    assert!(policy.prevails(NTP64(5), None));
    assert!(policy.prevails(NTP64(5), Some(NTP64(4))));
    assert!(!policy.prevails(NTP64(5), Some(NTP64(5))));
    assert!(!policy.prevails(NTP64(5), Some(NTP64(6))));
}

#[test]
fn libraries_are_loaded_edited_and_deleted() {
    let id = Uuid::from_u128(1);
    let mut libraries = Libraries::new();
    assert!(!libraries.hash_library(&id));
    assert_eq!(
        libraries.create(id, Uuid::from_u128(10), " ".to_string(), None),
        Err(LibraryManagerError::InvalidConfig("name cannot be empty".to_string()))
    );
    assert!(libraries.get_all().is_empty());
    assert_eq!(
        libraries.create(id, Uuid::from_u128(10), "photos".to_string(), None),
        Ok(LibraryManagerEvent::Load(id))
    );
    assert!(libraries.hash_library(&id));
    let held = libraries.get_library(&id).unwrap();
    assert_eq!(held.instance_uuid, Uuid::from_u128(10));
    assert_eq!(held.config.name, "photos");
    assert_eq!(held.config.instance_id, 0);
    assert_eq!(held.config.version(), LibraryConfigVersion::V9);

    let other = Uuid::from_u128(2);
    let config = LibraryConfig::new("music".to_string(), None, 3);
    assert_eq!(
        libraries.load(Library { id: other, instance_uuid: Uuid::from_u128(20), config }),
        LibraryManagerEvent::Load(other)
    );
    assert_eq!(libraries.get_all(), vec![id, other]);

    assert_eq!(
        libraries.edit(
            id,
            Some("pictures".to_string()),
            MaybeUndefined::Value("holiday".to_string()),
            MaybeUndefined::Undefined
        ),
        Ok(LibraryManagerEvent::Edit(id))
    );
    let held = libraries.get_library(&id).unwrap();
    assert_eq!(held.config.name, "pictures");
    assert_eq!(held.config.description, Some("holiday".to_string()));
    assert_eq!(libraries.get_library(&other).unwrap().config.name, "music");
    assert_eq!(
        libraries.edit(Uuid::from_u128(3), None, MaybeUndefined::Null, MaybeUndefined::Null),
        Err(LibraryManagerError::LibraryNotFound)
    );

    assert_eq!(libraries.update_instances(id), LibraryManagerEvent::InstancesModified(id));
    assert_eq!(libraries.delete(&id), Ok(LibraryManagerEvent::Delete(id)));
    assert_eq!(libraries.delete(&id), Err(LibraryManagerError::LibraryNotFound));
    assert!(libraries.get_library(&id).is_none());
    assert_eq!(libraries.get_all(), vec![other]);
}

#[test]
fn init_lists_libraries_until_a_database_cannot_be_looked_at() {
    let entry = |is_config: bool, id: Option<u128>, database: DatabaseProbe| DirectoryEntry {
        is_config,
        is_file: true,
        id: id.map(Uuid::from_u128),
        database,
    };
    let entries = vec![
        entry(true, Some(1), DatabaseProbe::Found),
        entry(false, Some(2), DatabaseProbe::Found),
        entry(true, None, DatabaseProbe::Found),
        entry(true, Some(3), DatabaseProbe::NotFound),
        entry(true, Some(4), DatabaseProbe::Found),
    ];
    assert_eq!(
        Libraries::init(&entries),
        (vec![Uuid::from_u128(1), Uuid::from_u128(4)], None)
    );
    let mut failing = entries.clone();
    failing.insert(1, entry(true, Some(9), DatabaseProbe::Failed));
    assert_eq!(Libraries::init(&failing), (vec![Uuid::from_u128(1)], Some(1)));
    assert_eq!(Libraries::init(&vec![]), (vec![], None));
    let ignored = entry(false, Some(9), DatabaseProbe::Failed);
    assert_eq!(Libraries::init(&vec![ignored]), (vec![], None));
}

#[test]
fn seeded_and_missing_indexer_rules_are_not_deleted() {
    assert_eq!(check_deletion(4, Some(None)), Ok(()));
    assert_eq!(check_deletion(4, Some(Some(false))), Ok(()));
    assert_eq!(
        check_deletion(4, Some(Some(true))),
        Err(RuleError::Forbidden("Indexer rule <id=4> can't be deleted".to_string()))
    );
    assert_eq!(
        check_deletion(-7, None),
        Err(RuleError::NotFound("Indexer rule <id=-7> not found".to_string()))
    );
}
