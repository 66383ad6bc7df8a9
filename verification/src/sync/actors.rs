//! The actors of a library: named tasks that the host starts and stops, and
//! whose run state it can ask for.

use crate::sync::assoc::{
    distinct_keys, lemma_table_absent, lemma_table_domain, lemma_table_present, lemma_table_push,
    lemma_table_update, table,
};
use vstd::prelude::*;
use vstd::string::StringExecFns;

verus! {

/// Whether an actor's task is running.
#[derive(Debug, Clone, Copy, PartialEq, Eq, Structural)]
pub enum ActorState {
    Idle,
    Running,
}

/// What happens to an actor.
#[derive(Debug, Clone, Copy, PartialEq, Eq, Structural)]
pub enum ActorEvent {
    /// The host activates it.
    Start,
    /// The host stops it.
    Stop,
    /// It has gone through one cycle without a fatal error.
    CycleDone,
    /// Its transport has failed for good.
    FatalError,
}

/// What the host has to do to an actor's task.
#[derive(Debug, Clone, Copy, PartialEq, Eq, Structural)]
pub enum ActorCommand {
    /// Nothing.
    Nothing,
    /// Spawn the task.
    Spawn,
    /// Let the task finish the call or transaction that it is in, then end
    /// it.
    Abort,
}

/// The state of an actor after an event: activation starts an idle actor, a
/// stop or a fatal error ends a running one, a finished cycle leaves it
/// running. Any other event changes nothing.
pub open spec fn state_after(state: ActorState, event: ActorEvent) -> ActorState {
    match (state, event) {
        (ActorState::Idle, ActorEvent::Start) => ActorState::Running,
        (ActorState::Running, ActorEvent::Stop) => ActorState::Idle,
        (ActorState::Running, ActorEvent::FatalError) => ActorState::Idle,
        _ => state,
    }
}

/// What the host has to do when an event meets an actor in a state: spawn
/// the task of an idle actor that is started, abort that of a running actor
/// that is stopped.
pub open spec fn command_for(state: ActorState, event: ActorEvent) -> ActorCommand {
    match (state, event) {
        (ActorState::Idle, ActorEvent::Start) => ActorCommand::Spawn,
        (ActorState::Running, ActorEvent::Stop) => ActorCommand::Abort,
        _ => ActorCommand::Nothing,
    }
}

impl ActorState {
    /// Takes one step of an actor's state machine.
    pub fn on(self, event: ActorEvent) -> (next: (ActorState, ActorCommand))
        ensures
            next.0 == state_after(self, event),
            next.1 == command_for(self, event),
    {
        match (self, event) {
            (ActorState::Idle, ActorEvent::Start) => (ActorState::Running, ActorCommand::Spawn),
            (ActorState::Running, ActorEvent::Stop) => (ActorState::Idle, ActorCommand::Abort),
            (ActorState::Running, ActorEvent::FatalError) => (
                ActorState::Idle,
                ActorCommand::Nothing,
            ),
            _ => (self, ActorCommand::Nothing),
        }
    }

    /// Whether the actor's task is running.
    pub fn is_running(self) -> (running: bool)
        ensures
            running == (self == ActorState::Running),
    {
        match self {
            ActorState::Running => true,
            ActorState::Idle => false,
        }
    }
}

/// The name of the actor that sends local operations out.
pub open spec fn sender_name() -> Seq<char> {
    "Cloud Sync Sender"@
}

/// The name of the actor that takes batches in from the transport.
pub open spec fn receiver_name() -> Seq<char> {
    "Cloud Sync Receiver"@
}

/// The name of the actor that applies what was taken in.
pub open spec fn ingest_name() -> Seq<char> {
    "Cloud Sync Ingest"@
}

/// The names and states that a list of actors stands for.
pub open spec fn named(actors: Seq<(String, ActorState)>) -> Seq<(Seq<char>, ActorState)> {
    Seq::new(actors.len(), |i: int| (actors[i].0@, actors[i].1))
}

/// The names and messages that a list of errors stands for.
pub open spec fn messages(errors: Seq<(String, String)>) -> Seq<(Seq<char>, Seq<char>)> {
    Seq::new(errors.len(), |i: int| (errors[i].0@, errors[i].1@))
}

/// The actors of one library, each under its name, with the last error of
/// each that has failed.
pub struct Actors {
    actors: Vec<(String, ActorState)>,
    errors: Vec<(String, String)>,
}

impl View for Actors {
    type V = Map<Seq<char>, ActorState>;

    closed spec fn view(&self) -> Map<Seq<char>, ActorState> {
        table(named(self.actors@))
    }
}

impl Actors {
    #[verifier::type_invariant]
    spec fn distinct(self) -> bool {
        distinct_keys(named(self.actors@)) && distinct_keys(messages(self.errors@))
    }

    /// The last error of each actor that has failed, under the actor's
    /// name.
    pub closed spec fn errors(&self) -> Map<Seq<char>, Seq<char>> {
        table(messages(self.errors@))
    }

    /// No actors.
    pub fn new() -> (actors: Actors)
        ensures
            actors@ == Map::<Seq<char>, ActorState>::empty(),
            actors.errors() == Map::<Seq<char>, Seq<char>>::empty(),
    {
        let actors = Actors { actors: Vec::new(), errors: Vec::new() };
        proof {
            assert(named(actors.actors@) =~= Seq::empty());
            assert(messages(actors.errors@) =~= Seq::empty());
        }
        actors
    }

    fn find(&self, name: &String) -> (at: Option<usize>)
        ensures
            match at {
                Some(i) => i < self.actors.len() && self.actors[i as int].0@ == name@,
                None => forall|j: int| 0 <= j < self.actors.len() ==> self.actors[j].0@ != name@,
            },
    {
        let mut i: usize = 0;
        while i < self.actors.len()
            invariant
                0 <= i <= self.actors.len(),
                forall|j: int| 0 <= j < i ==> self.actors[j].0@ != name@,
            decreases self.actors.len() - i,
        {
            if self.actors[i].0 == *name {
                return Some(i);
            }
            i = i + 1;
        }
        None
    }

    fn set(&mut self, name: &String, state: ActorState)
        ensures
            final(self)@ == old(self)@.insert(name@, state),
            final(self).errors() == old(self).errors(),
    {
        proof {
            use_type_invariant(&*self);
        }
        let found = self.find(name);
        let mut actors: Vec<(String, ActorState)> = Vec::new();
        proof {
            assert(named(actors@) =~= Seq::empty());
        }
        std::mem::swap(&mut self.actors, &mut actors);
        let ghost before = named(actors@);
        match found {
            Some(i) => {
                proof {
                    lemma_table_update(before, i as int, state);
                }
                actors[i] = (name.clone(), state);
                proof {
                    assert(named(actors@) =~= before.update(i as int, (before[i as int].0, state)));
                }
            },
            None => {
                proof {
                    lemma_table_push(before, name@, state);
                }
                actors.push((name.clone(), state));
                proof {
                    assert(named(actors@) =~= before.push((name@, state)));
                }
            },
        }
        std::mem::swap(&mut self.actors, &mut actors);
    }

    /// The state of the actor called `name`, if one is declared.
    pub fn state_of(&self, name: &String) -> (state: Option<ActorState>)
        ensures
            state.is_some() == self@.contains_key(name@),
            state.is_some() ==> state.unwrap() == self@[name@],
    {
        proof {
            use_type_invariant(self);
        }
        match self.find(name) {
            Some(i) => {
                proof {
                    lemma_table_present(named(self.actors@), i as int);
                }
                Some(self.actors[i].1)
            },
            None => {
                proof {
                    lemma_table_absent(named(self.actors@), name@);
                }
                None
            },
        }
    }

    /// Declares an actor under `name`. It starts idle, or running where it
    /// is to run by itself, in which case the host is told to spawn its
    /// task. An actor that was declared under the name before is replaced.
    pub fn declare(&mut self, name: &String, autorun: bool) -> (command: ActorCommand)
        ensures
            final(self)@ == old(self)@.insert(
                name@,
                if autorun {
                    ActorState::Running
                } else {
                    ActorState::Idle
                },
            ),
            command == if autorun {
                ActorCommand::Spawn
            } else {
                ActorCommand::Nothing
            },
            final(self).errors() == old(self).errors(),
    {
        if autorun {
            self.set(name, ActorState::Running);
            ActorCommand::Spawn
        } else {
            self.set(name, ActorState::Idle);
            ActorCommand::Nothing
        }
    }

    /// Hands an event to the actor called `name`. The actor takes one step
    /// of its state machine; where no actor has that name, nothing changes.
    pub fn handle(&mut self, name: &String, event: ActorEvent) -> (command: ActorCommand)
        ensures
            old(self)@.contains_key(name@) ==> final(self)@ == old(self)@.insert(
                name@,
                state_after(old(self)@[name@], event),
            ) && command == command_for(old(self)@[name@], event),
            !old(self)@.contains_key(name@) ==> final(self)@ == old(self)@ && command
                == ActorCommand::Nothing,
            final(self).errors() == old(self).errors(),
    {
        match self.state_of(name) {
            Some(state) => {
                let (next, command) = state.on(event);
                self.set(name, next);
                command
            },
            None => ActorCommand::Nothing,
        }
    }

    /// Starts the actor called `name`: an idle actor becomes running and the
    /// host is told to spawn its task.
    pub fn start(&mut self, name: &String) -> (command: ActorCommand)
        ensures
            old(self)@.contains_key(name@) ==> final(self)@ == old(self)@.insert(
                name@,
                ActorState::Running,
            ) && command == command_for(old(self)@[name@], ActorEvent::Start),
            !old(self)@.contains_key(name@) ==> final(self)@ == old(self)@ && command
                == ActorCommand::Nothing,
            final(self).errors() == old(self).errors(),
    {
        self.handle(name, ActorEvent::Start)
    }

    /// Stops the actor called `name`: a running actor becomes idle and the
    /// host is told to end its task.
    pub fn stop(&mut self, name: &String) -> (command: ActorCommand)
        ensures
            old(self)@.contains_key(name@) ==> final(self)@ == old(self)@.insert(
                name@,
                ActorState::Idle,
            ) && command == command_for(old(self)@[name@], ActorEvent::Stop),
            !old(self)@.contains_key(name@) ==> final(self)@ == old(self)@ && command
                == ActorCommand::Nothing,
            final(self).errors() == old(self).errors(),
    {
        self.handle(name, ActorEvent::Stop)
    }

    fn find_error(&self, name: &String) -> (at: Option<usize>)
        ensures
            match at {
                Some(i) => i < self.errors.len() && self.errors[i as int].0@ == name@,
                None => forall|j: int| 0 <= j < self.errors.len() ==> self.errors[j].0@ != name@,
            },
    {
        let mut i: usize = 0;
        while i < self.errors.len()
            invariant
                0 <= i <= self.errors.len(),
                forall|j: int| 0 <= j < i ==> self.errors[j].0@ != name@,
            decreases self.errors.len() - i,
        {
            if self.errors[i].0 == *name {
                return Some(i);
            }
            i = i + 1;
        }
        None
    }

    /// Records that the actor called `name` has failed for good, with what
    /// went wrong: a running actor becomes idle, and the error is kept as
    /// the actor's last. Where no actor has that name, nothing changes.
    pub fn fail(&mut self, name: &String, error: String)
        ensures
            old(self)@.contains_key(name@) ==> final(self)@ == old(self)@.insert(
                name@,
                ActorState::Idle,
            ) && final(self).errors() == old(self).errors().insert(name@, error@),
            !old(self)@.contains_key(name@) ==> final(self)@ == old(self)@ && final(self).errors()
                == old(self).errors(),
    {
        if self.state_of(name).is_none() {
            return;
        }
        self.set(name, ActorState::Idle);
        proof {
            use_type_invariant(&*self);
        }
        let found = self.find_error(name);
        let mut errors: Vec<(String, String)> = Vec::new();
        proof {
            assert(messages(errors@) =~= Seq::empty());
        }
        std::mem::swap(&mut self.errors, &mut errors);
        let ghost before = messages(errors@);
        match found {
            Some(i) => {
                proof {
                    lemma_table_update(before, i as int, error@);
                }
                errors[i] = (name.clone(), error);
                proof {
                    assert(messages(errors@) =~= before.update(
                        i as int,
                        (before[i as int].0, error@),
                    ));
                }
            },
            None => {
                proof {
                    lemma_table_push(before, name@, error@);
                }
                errors.push((name.clone(), error));
                proof {
                    assert(messages(errors@) =~= before.push((name@, error@)));
                }
            },
        }
        std::mem::swap(&mut self.errors, &mut errors);
    }

    /// What last went wrong with the actor called `name`, if it has ever
    /// failed.
    pub fn last_error(&self, name: &String) -> (error: Option<String>)
        ensures
            error.is_some() == self.errors().contains_key(name@),
            error.is_some() ==> error.unwrap()@ == self.errors()[name@],
    {
        proof {
            use_type_invariant(self);
        }
        match self.find_error(name) {
            Some(i) => {
                proof {
                    lemma_table_present(messages(self.errors@), i as int);
                }
                Some(self.errors[i].1.clone())
            },
            None => {
                proof {
                    lemma_table_absent(messages(self.errors@), name@);
                }
                None
            },
        }
    }

    /// The run state of every actor: each name once, with `true` for a
    /// running actor.
    pub fn get_state(&self) -> (states: Vec<(String, bool)>)
        ensures
            states.len() == self@.dom().len(),
            forall|i: int|
                0 <= i < states.len() ==> self@.contains_key((#[trigger] states[i]).0@) && states[i].1
                    == (self@[states[i].0@] == ActorState::Running),
            forall|name: Seq<char>|
                self@.contains_key(name) ==> exists|i: int|
                    0 <= i < states.len() && (#[trigger] states[i]).0@ == name,
            forall|i: int, j: int| 0 <= i < j < states.len() ==> states[i].0@ != states[j].0@,
    {
        proof {
            use_type_invariant(self);
        }
        let mut states: Vec<(String, bool)> = Vec::new();
        let ghost pairs = named(self.actors@);
        let mut i: usize = 0;
        while i < self.actors.len()
            invariant
                0 <= i <= self.actors.len(),
                pairs == named(self.actors@),
                states.len() == i,
                forall|j: int|
                    0 <= j < i ==> (#[trigger] states[j]).0@ == pairs[j].0 && states[j].1 == (
                    pairs[j].1 == ActorState::Running),
            decreases self.actors.len() - i,
        {
            let name = self.actors[i].0.clone();
            let running = self.actors[i].1.is_running();
            states.push((name, running));
            i = i + 1;
        }
        proof {
            lemma_table_domain(pairs);
            assert forall|j: int| 0 <= j < states.len() implies self@.contains_key(
                (#[trigger] states[j]).0@,
            ) && states[j].1 == (self@[states[j].0@] == ActorState::Running) by {
                lemma_table_present(pairs, j);
            }
            assert forall|name: Seq<char>| self@.contains_key(name) implies exists|j: int|
                0 <= j < states.len() && (#[trigger] states[j]).0@ == name by {
                if forall|j: int| 0 <= j < pairs.len() ==> pairs[j].0 != name {
                    lemma_table_absent(pairs, name);
                } else {
                    let j = choose|j: int| 0 <= j < pairs.len() && pairs[j].0 == name;
                    assert(states[j].0@ == name);
                }
            }
            assert forall|a: int, b: int| 0 <= a < b < states.len() implies states[a].0@
                != states[b].0@ by {
                assert(pairs[a].0 != pairs[b].0);
            }
        }
        states
    }
}

/// Declares the three actors of cloud synchronisation: the sender, the
/// receiver and ingest, in that order, each to run by itself where `autorun`
/// says so. Gives back what the host has to do for each of the three.
pub fn declare_actors(actors: &mut Actors, autorun: bool) -> (commands: [ActorCommand; 3])
    ensures
        final(actors)@ == old(actors)@.insert(sender_name(), started(autorun)).insert(
            receiver_name(),
            started(autorun),
        ).insert(ingest_name(), started(autorun)),
        forall|i: int| 0 <= i < 3 ==> commands[i] == if autorun {
            ActorCommand::Spawn
        } else {
            ActorCommand::Nothing
        },
        final(actors).errors() == old(actors).errors(),
{
    let sender = String::from_str("Cloud Sync Sender");
    let receiver = String::from_str("Cloud Sync Receiver");
    let ingest = String::from_str("Cloud Sync Ingest");
    let first = actors.declare(&sender, autorun);
    let second = actors.declare(&receiver, autorun);
    let third = actors.declare(&ingest, autorun);
    [first, second, third]
}

/// The state in which a declared actor begins.
pub open spec fn started(autorun: bool) -> ActorState {
    if autorun {
        ActorState::Running
    } else {
        ActorState::Idle
    }
}

} // verus!
