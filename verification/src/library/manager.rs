//! What the library manager decides when it finds, loads and watches over
//! libraries.

use crate::library::config::{
    changed_text, text_view, LibraryConfig, LibraryConfigVersion, LibraryConfigView,
    MaybeUndefined,
};
use crate::sync::assoc::{
    distinct_keys, lemma_table_absent, lemma_table_present, lemma_table_push,
    lemma_table_remove, lemma_table_update, table,
};
use crate::sync::clock::{marks_of, Clock};
use crate::ident::same_id;
use crate::sync::timestamp::NTP64;
use crate::text::{blank, decimal, is_blank, number_text};
use uuid::Uuid;
use vstd::prelude::*;
use vstd::string::StringExecFns;

verus! {

/// What the library manager tells those who subscribe to it, each time with
/// the library's identifier.
#[derive(Debug, Clone, Copy, PartialEq, Eq)]
pub enum LibraryManagerEvent {
    Load(Uuid),
    Edit(Uuid),
    InstancesModified(Uuid),
    Delete(Uuid),
}

/// What the replication core tells the rest of a library.
#[derive(Debug, Clone, Copy, PartialEq, Eq, Structural)]
pub enum SyncMessage {
    /// A batch of remote operations has been ingested.
    Ingested,
    /// A local operation has been created.
    Created,
}

/// What the library does on a message from the replication core.
#[derive(Debug, Clone, Copy, PartialEq, Eq, Structural)]
pub enum SyncReaction {
    /// Tell every open query that what it shows may be stale.
    InvalidateAll,
    /// Offer the new operations to the library's peers.
    Originate,
}

/// The reaction to a message from the replication core: what was ingested
/// makes the queries stale, what was created is offered to the peers.
pub fn react(message: SyncMessage) -> (reaction: SyncReaction)
    ensures
        reaction == match message {
            SyncMessage::Ingested => SyncReaction::InvalidateAll,
            SyncMessage::Created => SyncReaction::Originate,
        },
{
    match message {
        SyncMessage::Ingested => SyncReaction::InvalidateAll,
        SyncMessage::Created => SyncReaction::Originate,
    }
}

/// What was found on looking for the database that belongs to a library's
/// configuration file.
#[derive(Debug, Clone, Copy, PartialEq, Eq, Structural)]
pub enum DatabaseProbe {
    Found,
    NotFound,
    Failed,
}

/// What to do with an entry of the libraries directory.
#[derive(Debug, Clone, Copy, PartialEq, Eq)]
pub enum EntryVerdict {
    /// It is no library configuration: pass over it.
    Ignore,
    /// It is named like a configuration, but its name holds no identifier:
    /// warn and pass over it.
    InvalidName,
    /// Its database is missing: warn and pass over it.
    MissingDatabase,
    /// Its database could not be looked at: give up.
    Fail,
    /// Load the library with this identifier.
    Load(Uuid),
}

/// The verdict on an entry of the libraries directory.
pub open spec fn verdict_on(
    is_config: bool,
    is_file: bool,
    id: Option<Uuid>,
    database: DatabaseProbe,
) -> EntryVerdict {
    if !is_config || !is_file {
        EntryVerdict::Ignore
    } else {
        match id {
            None => EntryVerdict::InvalidName,
            Some(id) => match database {
                DatabaseProbe::Found => EntryVerdict::Load(id),
                DatabaseProbe::NotFound => EntryVerdict::MissingDatabase,
                DatabaseProbe::Failed => EntryVerdict::Fail,
            },
        }
    }
}

/// Decides what to do with an entry of the libraries directory, from
/// whether it carries the extension of a library configuration, whether it
/// is a file, the identifier that its name holds, and what was found of its
/// database.
pub fn classify_entry(
    is_config: bool,
    is_file: bool,
    id: Option<Uuid>,
    database: DatabaseProbe,
) -> (verdict: EntryVerdict)
    ensures
        verdict == verdict_on(is_config, is_file, id, database),
{
    if !is_config || !is_file {
        return EntryVerdict::Ignore;
    }
    match id {
        None => EntryVerdict::InvalidName,
        Some(id) => match database {
            DatabaseProbe::Found => EntryVerdict::Load(id),
            DatabaseProbe::NotFound => EntryVerdict::MissingDatabase,
            DatabaseProbe::Failed => EntryVerdict::Fail,
        },
    }
}

/// What is known of one entry of the libraries directory.
#[derive(Debug, Clone, Copy, PartialEq, Eq)]
pub struct DirectoryEntry {
    /// Whether it carries the extension of a library configuration.
    pub is_config: bool,
    /// Whether it is a file.
    pub is_file: bool,
    /// The identifier that its name holds, if it holds one.
    pub id: Option<Uuid>,
    /// What was found of its database.
    pub database: DatabaseProbe,
}

/// The verdict on what is known of an entry.
pub open spec fn entry_verdict(entry: DirectoryEntry) -> EntryVerdict {
    verdict_on(entry.is_config, entry.is_file, entry.id, entry.database)
}

/// The place of the first entry whose database could not be looked at, or
/// the number of entries where there is none.
pub open spec fn first_failure(entries: Seq<DirectoryEntry>) -> int
    decreases entries.len(),
{
    if entries.len() == 0 {
        0
    } else if entry_verdict(entries[0]) == EntryVerdict::Fail {
        0
    } else {
        1 + first_failure(entries.drop_first())
    }
}

/// The identifiers of the libraries to load among entries, in their order.
pub open spec fn to_load(entries: Seq<DirectoryEntry>) -> Seq<Uuid>
    decreases entries.len(),
{
    if entries.len() == 0 {
        Seq::empty()
    } else {
        match entry_verdict(entries.last()) {
            EntryVerdict::Load(id) => to_load(entries.drop_last()).push(id),
            _ => to_load(entries.drop_last()),
        }
    }
}

/// The node that an instance was last seen on, or the node that runs now.
pub struct NodeTraits {
    pub id: Uuid,
    pub platform: i32,
    pub name: String,
}

/// Whether what an instance records of its node differs from the node that
/// runs now, in identifier, platform or name, so that the record has to be
/// brought up to date.
pub fn node_changed(recorded: &NodeTraits, current: &NodeTraits) -> (changed: bool)
    ensures
        changed == differs(*recorded, *current),
{
    !same_id(&recorded.id, &current.id) || recorded.platform != current.platform || !(
    recorded.name == current.name)
}

/// The timestamp that a stored operation's signed 64-bit column stands for:
/// the same 64 bits, read as unsigned. No stored operation counts as zero.
pub open spec fn stored_stamp(latest: Option<i64>) -> NTP64 {
    match latest {
        Some(stamp) => NTP64(stamp as u64),
        None => NTP64(0),
    }
}

/// The clock seed that the instance registry stands for.
pub open spec fn seed_of(instances: Seq<(Uuid, Option<i64>)>) -> Seq<(Uuid, NTP64)> {
    Seq::new(instances.len(), |i: int| (instances[i].0, stored_stamp(instances[i].1)))
}

/// Builds the seed of a library's clock from the instance registry: for
/// each known instance the timestamp of the latest operation stored of it,
/// or zero where none is stored.
pub fn clock_seed(instances: &Vec<(Uuid, Option<i64>)>) -> (seed: Vec<(Uuid, NTP64)>)
    ensures
        seed@ == seed_of(instances@),
{
    let mut seed: Vec<(Uuid, NTP64)> = Vec::new();
    let mut i: usize = 0;
    while i < instances.len()
        invariant
            0 <= i <= instances.len(),
            seed@ == seed_of(instances@).take(i as int),
        decreases instances.len() - i,
    {
        let (instance, latest) = instances[i];
        let stamp = match latest {
            Some(stamp) => NTP64(stamp as u64),
            None => NTP64(0),
        };
        seed.push((instance, stamp));
        proof {
            assert(seed@ =~= seed_of(instances@).take(i + 1));
        }
        i = i + 1;
    }
    proof {
        assert(seed@ =~= seed_of(instances@));
    }
    seed
}

/// The clock of a library at start-up, seeded from the instance registry.
pub fn seeded_clock(instances: &Vec<(Uuid, Option<i64>)>) -> (clock: Clock)
    ensures
        clock@ == marks_of(seed_of(instances@)),
{
    Clock::seeded(clock_seed(instances))
}

/// What keeps the library manager from doing what it was asked.
#[derive(Debug, PartialEq, Eq)]
pub enum LibraryManagerError {
    /// No library goes by the identifier.
    LibraryNotFound,
    /// The configuration asked for cannot be, for the reason given.
    InvalidConfig(String),
    /// The registry holds no instance with the numeric identifier that the
    /// configuration names, given here in decimal.
    CurrentInstanceNotFound(String),
    /// The identity stored for the library's own instance is that of a
    /// remote instance.
    InvalidIdentity,
}

/// Checks the name for a new library: one that is empty or all white space
/// is refused.
pub fn check_name(name: &str) -> (verdict: Result<(), LibraryManagerError>)
    ensures
        !blank(name@) ==> verdict.is_ok(),
        blank(name@) ==> (verdict matches Err(LibraryManagerError::InvalidConfig(reason))
            && reason@ == "name cannot be empty"@),
{
    if is_blank(name) {
        Err(LibraryManagerError::InvalidConfig(String::from_str("name cannot be empty")))
    } else {
        Ok(())
    }
}

/// The instance that a library's configuration names as its own, by its
/// numeric identifier: the place of the first of the registry that carries
/// it, or the error that names the identifier where none does.
pub fn current_instance(ids: &Vec<i32>, instance_id: i32) -> (found: Result<
    usize,
    LibraryManagerError,
>)
    ensures
        match found {
            Ok(at) => at < ids.len() && ids[at as int] == instance_id && forall|j: int|
                0 <= j < at ==> ids[j] != instance_id,
            Err(LibraryManagerError::CurrentInstanceNotFound(named)) => named@ == decimal(
                instance_id as int,
            ) && forall|j: int| 0 <= j < ids.len() ==> ids[j] != instance_id,
            Err(_) => false,
        },
{
    let mut i: usize = 0;
    while i < ids.len()
        invariant
            0 <= i <= ids.len(),
            forall|j: int| 0 <= j < i ==> ids[j] != instance_id,
        decreases ids.len() - i,
    {
        if ids[i] == instance_id {
            return Ok(i);
        }
        i = i + 1;
    }
    Err(LibraryManagerError::CurrentInstanceNotFound(number_text(instance_id)))
}

/// Whose identity is stored for an instance.
#[derive(Debug, Clone, Copy, PartialEq, Eq, Structural)]
pub enum IdentityKind {
    /// The instance's own, with its private part.
    Own,
    /// That of a remote instance, public part only.
    Remote,
}

/// Checks the identity stored for the library's own instance: it must be
/// the instance's own.
pub fn check_identity(kind: IdentityKind) -> (verdict: Result<(), LibraryManagerError>)
    ensures
        verdict == match kind {
            IdentityKind::Own => Ok::<(), LibraryManagerError>(()),
            IdentityKind::Remote => Err::<(), LibraryManagerError>(
                LibraryManagerError::InvalidIdentity,
            ),
        },
{
    match kind {
        IdentityKind::Own => Ok(()),
        IdentityKind::Remote => Err(LibraryManagerError::InvalidIdentity),
    }
}

/// An instance as the cloud knows it.
pub struct CloudInstance {
    pub uuid: Uuid,
    pub node: NodeTraits,
}

/// What asking the cloud for a library gave.
pub enum CloudLibrary {
    /// The cloud could not be asked.
    Unreachable,
    /// The cloud does not know the library.
    Missing,
    /// The cloud knows the library by this name, with these instances.
    Found { name: String, instances: Vec<CloudInstance> },
}

/// One thing to do to bring a library and the cloud in line.
#[derive(Debug, Clone, Copy, PartialEq, Eq)]
pub enum CloudAction {
    /// Tell the cloud of the node that this instance now runs on.
    UpdateInstance(Uuid),
    /// Tell the cloud of the library's name.
    UpdateName,
    /// Make sure the library knows this instance of the cloud's.
    CreateInstance(Uuid),
    /// Cut the library's link to the cloud.
    Unlink,
}

/// The place of the first of the cloud's instances with the identifier, or
/// the number of instances where none has it.
pub open spec fn place_of(instances: Seq<CloudInstance>, uuid: Uuid) -> int
    decreases instances.len(),
{
    if instances.len() == 0 {
        0
    } else if instances[0].uuid == uuid {
        0
    } else {
        1 + place_of(instances.drop_first(), uuid)
    }
}

/// Whether what is recorded of a node differs from the node that runs now.
pub open spec fn differs(recorded: NodeTraits, current: NodeTraits) -> bool {
    recorded.id != current.id || recorded.platform != current.platform || recorded.name@
        != current.name@
}

/// What is to be told the cloud of this instance: an update where the
/// cloud knows the instance on another node than the one that runs now.
pub open spec fn instance_update(
    instances: Seq<CloudInstance>,
    this_instance: Uuid,
    node: NodeTraits,
) -> Seq<CloudAction> {
    let at = place_of(instances, this_instance);
    if at < instances.len() && differs(instances[at].node, node) {
        seq![CloudAction::UpdateInstance(this_instance)]
    } else {
        Seq::empty()
    }
}

/// What is to be told the cloud of the library's name: an update where the
/// names differ.
pub open spec fn name_update(cloud_name: Seq<char>, library_name: Seq<char>) -> Seq<CloudAction> {
    if cloud_name != library_name {
        seq![CloudAction::UpdateName]
    } else {
        Seq::empty()
    }
}

/// The instances to make sure of: each of the cloud's, in its order.
pub open spec fn instance_creations(instances: Seq<CloudInstance>) -> Seq<CloudAction> {
    Seq::new(instances.len(), |i: int| CloudAction::CreateInstance(instances[i].uuid))
}

/// What one round of looking at the cloud leads to.
pub open spec fn cloud_plan(
    linked: bool,
    cloud: CloudLibrary,
    this_instance: Uuid,
    node: NodeTraits,
    library_name: Seq<char>,
) -> Seq<CloudAction> {
    if !linked {
        Seq::empty()
    } else {
        match cloud {
            CloudLibrary::Unreachable => Seq::empty(),
            CloudLibrary::Missing => seq![CloudAction::Unlink],
            CloudLibrary::Found { name, instances } => instance_update(
                instances@,
                this_instance,
                node,
            ) + name_update(name@, library_name) + instance_creations(instances@),
        }
    }
}

fn find_cloud_instance(instances: &Vec<CloudInstance>, uuid: &Uuid) -> (at: usize)
    ensures
        at == place_of(instances@, *uuid),
        at <= instances.len(),
{
    let mut i: usize = 0;
    proof {
        assert(instances@.skip(0) =~= instances@);
    }
    while i < instances.len()
        invariant
            0 <= i <= instances.len(),
            place_of(instances@, *uuid) == i + place_of(instances@.skip(i as int), *uuid),
        decreases instances.len() - i,
    {
        proof {
            assert(instances@.skip(i as int)[0] == instances@[i as int]);
            assert(instances@.skip(i as int).drop_first() =~= instances@.skip(i + 1));
        }
        if same_id(&instances[i].uuid, uuid) {
            return i;
        }
        i = i + 1;
    }
    proof {
        assert(instances@.skip(instances.len() as int).len() == 0);
    }
    i
}

/// Plans one round of bringing a library and the cloud in line. A library
/// without a link to the cloud has nothing to do, nor one whose cloud could
/// not be asked. One that the cloud does not know is unlinked. Else the
/// cloud is told of this instance's node where that has changed, then of
/// the library's name where the names differ, and every instance that the
/// cloud lists is made sure of, in the cloud's order.
pub fn plan_cloud_round(
    linked: bool,
    cloud: &CloudLibrary,
    this_instance: &Uuid,
    node: &NodeTraits,
    library_name: &String,
) -> (plan: Vec<CloudAction>)
    ensures
        plan@ == cloud_plan(linked, *cloud, *this_instance, *node, library_name@),
{
    let mut plan: Vec<CloudAction> = Vec::new();
    if !linked {
        return plan;
    }
    match cloud {
        CloudLibrary::Unreachable => {},
        CloudLibrary::Missing => {
            plan.push(CloudAction::Unlink);
        },
        CloudLibrary::Found { name, instances } => {
            let at = find_cloud_instance(instances, this_instance);
            if at < instances.len() && node_changed(&instances[at].node, node) {
                plan.push(CloudAction::UpdateInstance(*this_instance));
            }
            if !(*name == *library_name) {
                plan.push(CloudAction::UpdateName);
            }
            let ghost head = plan@;
            proof {
                assert(head =~= instance_update(instances@, *this_instance, *node) + name_update(
                    name@,
                    library_name@,
                ));
            }
            let mut i: usize = 0;
            while i < instances.len()
                invariant
                    0 <= i <= instances.len(),
                    plan@ == head + instance_creations(instances@).take(i as int),
                decreases instances.len() - i,
            {
                plan.push(CloudAction::CreateInstance(instances[i].uuid));
                proof {
                    assert(plan@ =~= head + instance_creations(instances@).take(i + 1));
                }
                i = i + 1;
            }
            proof {
                assert(instance_creations(instances@).take(instances.len() as int)
                    =~= instance_creations(instances@));
            }
        },
    }
    plan
}

/// A library that is loaded into the node.
pub struct Library {
    /// The library's identifier.
    pub id: Uuid,
    /// The identifier of the instance that this node is of the library.
    pub instance_uuid: Uuid,
    /// The library's configuration.
    pub config: LibraryConfig,
}

/// The mathematical value of a loaded library.
pub struct LibraryView {
    pub instance_uuid: Uuid,
    pub config: LibraryConfigView,
}

/// The identifiers and values that a list of libraries stands for.
pub open spec fn loaded(libraries: Seq<Library>) -> Seq<(Uuid, LibraryView)> {
    Seq::new(
        libraries.len(),
        |i: int|
            (
                libraries[i].id,
                LibraryView { instance_uuid: libraries[i].instance_uuid, config: libraries[i].config@ },
            ),
    )
}

/// The libraries that are loaded into the node, each under its identifier.
pub struct Libraries {
    libraries: Vec<Library>,
}

impl View for Libraries {
    type V = Map<Uuid, LibraryView>;

    closed spec fn view(&self) -> Map<Uuid, LibraryView> {
        table(loaded(self.libraries@))
    }
}

impl Libraries {
    #[verifier::type_invariant]
    spec fn distinct(self) -> bool {
        distinct_keys(loaded(self.libraries@))
    }

    /// No libraries.
    pub fn new() -> (libraries: Libraries)
        ensures
            libraries@ == Map::<Uuid, LibraryView>::empty(),
    {
        let libraries = Libraries { libraries: Vec::new() };
        proof {
            assert(loaded(libraries.libraries@) =~= Seq::empty());
        }
        libraries
    }

    fn find(&self, id: &Uuid) -> (at: Option<usize>)
        ensures
            match at {
                Some(i) => i < self.libraries.len() && self.libraries[i as int].id == *id,
                None => forall|j: int| 0 <= j < self.libraries.len() ==> self.libraries[j].id != *id,
            },
    {
        let mut i: usize = 0;
        while i < self.libraries.len()
            invariant
                0 <= i <= self.libraries.len(),
                forall|j: int| 0 <= j < i ==> self.libraries[j].id != *id,
            decreases self.libraries.len() - i,
        {
            if same_id(&self.libraries[i].id, id) {
                return Some(i);
            }
            i = i + 1;
        }
        None
    }

    /// Goes through the entries of the libraries directory, in their order,
    /// and gives the identifiers of the libraries to load. It stops at the
    /// first entry whose database could not be looked at, and gives the
    /// place of that entry with the libraries found before it.
    pub fn init(entries: &Vec<DirectoryEntry>) -> (found: (Vec<Uuid>, Option<usize>))
        ensures
            found.0@ == to_load(entries@.take(first_failure(entries@))),
            found.1.is_some() == (first_failure(entries@) < entries.len()),
            found.1.is_some() ==> found.1.unwrap() == first_failure(entries@),
    {
        let mut ids: Vec<Uuid> = Vec::new();
        let mut i: usize = 0;
        proof {
            assert(entries@.skip(0) =~= entries@);
            assert(entries@.take(0) =~= Seq::empty());
        }
        while i < entries.len()
            invariant
                0 <= i <= entries.len(),
                first_failure(entries@) == i + first_failure(entries@.skip(i as int)),
                ids@ == to_load(entries@.take(i as int)),
            decreases entries.len() - i,
        {
            let entry = &entries[i];
            proof {
                assert(entries@.skip(i as int)[0] == entries@[i as int]);
                assert(entries@.skip(i as int).drop_first() =~= entries@.skip(i + 1));
                assert(entries@.take(i + 1).drop_last() =~= entries@.take(i as int));
                assert(entries@.take(i + 1).last() == entries@[i as int]);
            }
            match classify_entry(entry.is_config, entry.is_file, entry.id, entry.database) {
                EntryVerdict::Fail => {
                    return (ids, Some(i));
                },
                EntryVerdict::Load(id) => {
                    ids.push(id);
                },
                _ => {},
            }
            i = i + 1;
        }
        proof {
            assert(entries@.skip(entries.len() as int).len() == 0);
        }
        (ids, None)
    }

    /// Takes a library in, in place of any that went by its identifier, and
    /// gives the event to tell the subscribers of.
    pub fn load(&mut self, library: Library) -> (event: LibraryManagerEvent)
        ensures
            final(self)@ == old(self)@.insert(
                library.id,
                LibraryView { instance_uuid: library.instance_uuid, config: library.config@ },
            ),
            event == LibraryManagerEvent::Load(library.id),
    {
        proof {
            use_type_invariant(&*self);
        }
        let id = library.id;
        let found = self.find(&id);
        let ghost value = LibraryView {
            instance_uuid: library.instance_uuid,
            config: library.config@,
        };
        let mut libraries: Vec<Library> = Vec::new();
        proof {
            assert(loaded(libraries@) =~= Seq::empty());
        }
        std::mem::swap(&mut self.libraries, &mut libraries);
        let ghost before = loaded(libraries@);
        match found {
            Some(i) => {
                proof {
                    lemma_table_update(before, i as int, value);
                }
                libraries[i] = library;
                proof {
                    assert(loaded(libraries@) =~= before.update(i as int, (before[i as int].0, value)));
                }
            },
            None => {
                proof {
                    lemma_table_push(before, id, value);
                }
                libraries.push(library);
                proof {
                    assert(loaded(libraries@) =~= before.push((id, value)));
                }
            },
        }
        std::mem::swap(&mut self.libraries, &mut libraries);
        LibraryManagerEvent::Load(id)
    }

    /// Makes a new library and takes it in. The name must not be blank. The
    /// library starts in the latest version of the configuration, as the
    /// instance numbered zero, without a link to the cloud.
    pub fn create(
        &mut self,
        id: Uuid,
        instance_uuid: Uuid,
        name: String,
        description: Option<String>,
    ) -> (made: Result<LibraryManagerEvent, LibraryManagerError>)
        ensures
            blank(name@) ==> (made matches Err(LibraryManagerError::InvalidConfig(reason))
                && reason@ == "name cannot be empty"@) && final(self)@ == old(self)@,
            !blank(name@) ==> made == Ok::<LibraryManagerEvent, LibraryManagerError>(
                LibraryManagerEvent::Load(id),
            ) && final(self)@ == old(self)@.insert(
                id,
                LibraryView {
                    instance_uuid,
                    config: LibraryConfigView {
                        name: name@,
                        description: text_view(description),
                        instance_id: 0,
                        cloud_id: None,
                        version: LibraryConfigVersion::V9,
                    },
                },
            ),
    {
        match check_name(name.as_str()) {
            Err(error) => Err(error),
            Ok(()) => {
                let config = LibraryConfig::new(name, description, 0);
                Ok(self.load(Library { id, instance_uuid, config }))
            },
        }
    }

    /// The identifiers of all loaded libraries, each once.
    pub fn get_all(&self) -> (ids: Vec<Uuid>)
        ensures
            forall|id: Uuid| self@.contains_key(id) <==> ids@.contains(id),
            forall|i: int, j: int| 0 <= i < j < ids.len() ==> ids[i] != ids[j],
    {
        proof {
            use_type_invariant(self);
        }
        let mut ids: Vec<Uuid> = Vec::new();
        let ghost pairs = loaded(self.libraries@);
        let mut i: usize = 0;
        while i < self.libraries.len()
            invariant
                0 <= i <= self.libraries.len(),
                pairs == loaded(self.libraries@),
                ids.len() == i,
                forall|j: int| 0 <= j < i ==> ids[j] == pairs[j].0,
            decreases self.libraries.len() - i,
        {
            ids.push(self.libraries[i].id);
            i = i + 1;
        }
        proof {
            assert forall|id: Uuid| self@.contains_key(id) <==> ids@.contains(id) by {
                if ids@.contains(id) {
                    let j = choose|j: int| 0 <= j < ids.len() && ids[j] == id;
                    lemma_table_present(pairs, j);
                }
                if self@.contains_key(id) {
                    if forall|j: int| 0 <= j < pairs.len() ==> pairs[j].0 != id {
                        lemma_table_absent(pairs, id);
                    } else {
                        let j = choose|j: int| 0 <= j < pairs.len() && pairs[j].0 == id;
                        assert(ids[j] == id);
                    }
                }
            }
            assert forall|a: int, b: int| 0 <= a < b < ids.len() implies ids[a] != ids[b] by {
                assert(pairs[a].0 != pairs[b].0);
            }
        }
        ids
    }

    /// The library that goes by the identifier, if one is loaded.
    pub fn get_library(&self, library_id: &Uuid) -> (library: Option<&Library>)
        ensures
            library.is_some() == self@.contains_key(*library_id),
            library.is_some() ==> library.unwrap().id == *library_id && self@[*library_id] == (
            LibraryView {
                instance_uuid: library.unwrap().instance_uuid,
                config: library.unwrap().config@,
            }),
    {
        proof {
            use_type_invariant(self);
        }
        match self.find(library_id) {
            Some(i) => {
                proof {
                    lemma_table_present(loaded(self.libraries@), i as int);
                }
                Some(&self.libraries[i])
            },
            None => {
                proof {
                    lemma_table_absent(loaded(self.libraries@), *library_id);
                }
                None
            },
        }
    }

    /// Whether a library that goes by the identifier is loaded.
    pub fn hash_library(&self, library_id: &Uuid) -> (has: bool)
        ensures
            has == self@.contains_key(*library_id),
    {
        self.get_library(library_id).is_some()
    }

    /// Changes the configuration of a loaded library, and gives the event
    /// to tell the subscribers of. Where no library goes by the identifier
    /// nothing changes.
    pub fn edit(
        &mut self,
        id: Uuid,
        name: Option<String>,
        description: MaybeUndefined<String>,
        cloud_id: MaybeUndefined<String>,
    ) -> (edited: Result<LibraryManagerEvent, LibraryManagerError>)
        ensures
            !old(self)@.contains_key(id) ==> edited == Err::<
                LibraryManagerEvent,
                LibraryManagerError,
            >(LibraryManagerError::LibraryNotFound) && final(self)@ == old(self)@,
            old(self)@.contains_key(id) ==> edited == Ok::<
                LibraryManagerEvent,
                LibraryManagerError,
            >(LibraryManagerEvent::Edit(id)) && final(self)@ == old(self)@.insert(
                id,
                LibraryView {
                    instance_uuid: old(self)@[id].instance_uuid,
                    config: LibraryConfigView {
                        name: match name {
                            Some(name) => name@,
                            None => old(self)@[id].config.name,
                        },
                        description: changed_text(old(self)@[id].config.description, description),
                        cloud_id: changed_text(old(self)@[id].config.cloud_id, cloud_id),
                        instance_id: old(self)@[id].config.instance_id,
                        version: old(self)@[id].config.version,
                    },
                },
            ),
    {
        proof {
            use_type_invariant(&*self);
        }
        let at = match self.find(&id) {
            Some(at) => at,
            None => {
                proof {
                    lemma_table_absent(loaded(self.libraries@), id);
                }
                return Err(LibraryManagerError::LibraryNotFound);
            },
        };
        let mut libraries: Vec<Library> = Vec::new();
        proof {
            assert(loaded(libraries@) =~= Seq::empty());
        }
        std::mem::swap(&mut self.libraries, &mut libraries);
        let ghost before = loaded(libraries@);
        proof {
            lemma_table_present(before, at as int);
        }
        let Library { id: held, instance_uuid, mut config } = libraries.remove(at);
        config.edit(name, description, cloud_id);
        let ghost value = LibraryView { instance_uuid, config: config@ };
        proof {
            lemma_table_update(before, at as int, value);
        }
        libraries.insert(at, Library { id: held, instance_uuid, config });
        proof {
            assert(loaded(libraries@) =~= before.update(at as int, (before[at as int].0, value)));
        }
        std::mem::swap(&mut self.libraries, &mut libraries);
        Ok(LibraryManagerEvent::Edit(id))
    }

    /// Takes a library out, once its files are gone, and gives the event to
    /// tell the subscribers of. Where no library goes by the identifier
    /// nothing changes.
    pub fn delete(&mut self, id: &Uuid) -> (deleted: Result<
        LibraryManagerEvent,
        LibraryManagerError,
    >)
        ensures
            !old(self)@.contains_key(*id) ==> deleted == Err::<
                LibraryManagerEvent,
                LibraryManagerError,
            >(LibraryManagerError::LibraryNotFound) && final(self)@ == old(self)@,
            old(self)@.contains_key(*id) ==> deleted == Ok::<
                LibraryManagerEvent,
                LibraryManagerError,
            >(LibraryManagerEvent::Delete(*id)) && final(self)@ == old(self)@.remove(*id),
    {
        proof {
            use_type_invariant(&*self);
        }
        let at = match self.find(id) {
            Some(at) => at,
            None => {
                proof {
                    lemma_table_absent(loaded(self.libraries@), *id);
                }
                return Err(LibraryManagerError::LibraryNotFound);
            },
        };
        let mut libraries: Vec<Library> = Vec::new();
        proof {
            assert(loaded(libraries@) =~= Seq::empty());
        }
        std::mem::swap(&mut self.libraries, &mut libraries);
        let ghost before = loaded(libraries@);
        proof {
            lemma_table_present(before, at as int);
            lemma_table_remove(before, at as int);
        }
        libraries.remove(at);
        proof {
            assert(loaded(libraries@) =~= before.remove(at as int));
        }
        std::mem::swap(&mut self.libraries, &mut libraries);
        Ok(LibraryManagerEvent::Delete(*id))
    }

    /// The event to tell the subscribers of when the instances of a library
    /// have changed.
    pub fn update_instances(&self, library_id: Uuid) -> (event: LibraryManagerEvent)
        ensures
            event == LibraryManagerEvent::InstancesModified(library_id),
    {
        LibraryManagerEvent::InstancesModified(library_id)
    }
}

} // verus!
