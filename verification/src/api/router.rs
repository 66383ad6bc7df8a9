//! Looking up the procedures of the remote-call interface, and writing
//! their signatures down for the front end.

use vstd::prelude::*;
use vstd::string::StringExecFns;

verus! {

/// The two kinds of procedure that run once and give one result.
#[derive(Debug, Clone, Copy, PartialEq, Eq, Structural)]
pub enum ExecKind {
    Query,
    Mutation,
}

/// The three kinds of procedure.
#[derive(Debug, Clone, Copy, PartialEq, Eq, Structural)]
pub enum ProcedureKind {
    Query,
    Mutation,
    Subscription,
}

/// A call for a procedure that the router does not hold, with the key that
/// was asked for.
#[derive(Debug, PartialEq, Eq)]
pub enum ExecError {
    OperationNotFound(String),
}

/// What keeps the bindings from being written.
#[derive(Debug, PartialEq, Eq)]
pub enum ExportError {
    /// Two of the router's types go by this name.
    DuplicateTypeName(String),
}

impl ExecKind {
    /// The kind of procedure that is run.
    pub fn procedure_kind(self) -> (kind: ProcedureKind)
        ensures
            kind == match self {
                ExecKind::Query => ProcedureKind::Query,
                ExecKind::Mutation => ProcedureKind::Mutation,
            },
    {
        match self {
            ExecKind::Query => ProcedureKind::Query,
            ExecKind::Mutation => ProcedureKind::Mutation,
        }
    }
}

/// The signature of one procedure, in the front end's notation for types.
pub struct ProcedureSignature {
    pub key: String,
    /// The type of the input; `None` for a procedure that takes none.
    pub input: Option<String>,
    pub result: String,
}

/// The type of a procedure's input as it is written: `never` for one that
/// takes none.
pub open spec fn input_text(input: Option<String>) -> Seq<char> {
    match input {
        Some(input) => input@,
        None => "never"@,
    }
}

/// One procedure as a type of the front end.
pub open spec fn entry_text(procedure: ProcedureSignature) -> Seq<char> {
    "\n        { key: \""@ + procedure.key@ + "\", input: "@ + input_text(procedure.input)
        + ", result: "@ + procedure.result@ + " }"@
}

/// The entries of procedures, each set off from the one before it by a
/// bar.
pub open spec fn joined(procedures: Seq<ProcedureSignature>) -> Seq<char>
    decreases procedures.len(),
{
    if procedures.len() == 0 {
        Seq::empty()
    } else if procedures.len() == 1 {
        entry_text(procedures[0])
    } else {
        joined(procedures.drop_last()) + " | "@ + entry_text(procedures.last())
    }
}

/// The procedures of one kind as a type of the front end: `never` where
/// there is none, else the union of their entries.
pub open spec fn procedures_text(procedures: Seq<ProcedureSignature>) -> Seq<char> {
    if procedures.len() == 0 {
        "never"@
    } else {
        joined(procedures)
    }
}

fn entry(procedure: &ProcedureSignature) -> (text: String)
    ensures
        text@ == entry_text(*procedure),
{
    let input = match &procedure.input {
        Some(input) => input.as_str(),
        None => "never",
    };
    String::from_str("\n        { key: \"").concat(procedure.key.as_str()).concat(
        "\", input: ",
    ).concat(input).concat(", result: ").concat(procedure.result.as_str()).concat(" }")
}

/// Writes the procedures of one kind as a type of the front end.
pub fn generate_procedures_ts(procedures: &Vec<ProcedureSignature>) -> (text: String)
    ensures
        text@ == procedures_text(procedures@),
{
    if procedures.len() == 0 {
        return String::from_str("never");
    }
    let mut text = entry(&procedures[0]);
    proof {
        assert(procedures@.take(1).len() == 1);
        assert(procedures@.take(1)[0] == procedures@[0]);
    }
    let mut i: usize = 1;
    while i < procedures.len()
        invariant
            1 <= i <= procedures.len(),
            text@ == joined(procedures@.take(i as int)),
        decreases procedures.len() - i,
    {
        let next = entry(&procedures[i]);
        text = text.concat(" | ").concat(next.as_str());
        proof {
            assert(procedures@.take(i + 1).drop_last() =~= procedures@.take(i as int));
            assert(procedures@.take(i + 1).last() == procedures@[i as int]);
        }
        i = i + 1;
    }
    proof {
        assert(procedures@.take(procedures.len() as int) =~= procedures@);
    }
    text
}

/// A type that the procedures use, under its name and as it is declared
/// for the front end.
pub struct NamedType {
    pub name: String,
    pub declaration: String,
}

/// The procedures of the remote-call interface and the types they use.
pub struct Router {
    /// What is written at the top of the bindings.
    pub bindings_header: Option<String>,
    pub queries: Vec<ProcedureSignature>,
    pub mutations: Vec<ProcedureSignature>,
    pub subscriptions: Vec<ProcedureSignature>,
    pub types: Vec<NamedType>,
}

/// The place of the first procedure with the key, or the number of
/// procedures where none has it.
pub open spec fn place_of_key(procedures: Seq<ProcedureSignature>, key: Seq<char>) -> int
    decreases procedures.len(),
{
    if procedures.len() == 0 {
        0
    } else if procedures[0].key@ == key {
        0
    } else {
        1 + place_of_key(procedures.drop_first(), key)
    }
}

/// What looking a key up among procedures gives: the place of the first
/// that goes by it, or the error that names the key.
pub open spec fn resolved(
    procedures: Seq<ProcedureSignature>,
    key: Seq<char>,
    found: Result<usize, ExecError>,
) -> bool {
    match found {
        Ok(at) => at == place_of_key(procedures, key) && at < procedures.len(),
        Err(ExecError::OperationNotFound(missing)) => missing@ == key && place_of_key(
            procedures,
            key,
        ) == procedures.len(),
    }
}

/// The first line of the bindings after the header.
pub open spec fn notice() -> Seq<char> {
    "// This file was generated by [rspc](https://github.com/oscartbeaumont/rspc). Do not edit this file manually.\n"@
}

/// The header as it is written: on a line of its own, or not at all.
pub open spec fn header_text(header: Option<String>) -> Seq<char> {
    match header {
        Some(header) => header@ + "\n"@,
        None => Seq::empty(),
    }
}

/// The declarations of types as they are written: each after an empty
/// line.
pub open spec fn types_text(types: Seq<NamedType>) -> Seq<char>
    decreases types.len(),
{
    if types.len() == 0 {
        Seq::empty()
    } else {
        types_text(types.drop_last()) + "\n"@ + types.last().declaration@ + "\n"@
    }
}

/// The text of the bindings.
pub open spec fn bindings_text(router: Router) -> Seq<char> {
    header_text(router.bindings_header) + notice() + "\nexport type Procedures = {\n    queries: "@
        + procedures_text(router.queries@) + ",\n    mutations: "@ + procedures_text(
        router.mutations@,
    ) + ",\n    subscriptions: "@ + procedures_text(router.subscriptions@) + "\n};\n"@
        + types_text(router.types@)
}

/// Whether two of the types go by one name.
pub open spec fn has_duplicate(types: Seq<NamedType>) -> bool {
    exists|i: int, j: int| 0 <= i < j < types.len() && types[i].name@ == types[j].name@
}

fn find_key(procedures: &Vec<ProcedureSignature>, key: &String) -> (found: Result<usize, ExecError>)
    ensures
        resolved(procedures@, key@, found),
{
    let mut i: usize = 0;
    proof {
        assert(procedures@.skip(0) =~= procedures@);
    }
    while i < procedures.len()
        invariant
            0 <= i <= procedures.len(),
            place_of_key(procedures@, key@) == i + place_of_key(procedures@.skip(i as int), key@),
        decreases procedures.len() - i,
    {
        proof {
            assert(procedures@.skip(i as int)[0] == procedures@[i as int]);
            assert(procedures@.skip(i as int).drop_first() =~= procedures@.skip(i + 1));
        }
        if procedures[i].key == *key {
            return Ok(i);
        }
        i = i + 1;
    }
    proof {
        assert(procedures@.skip(procedures.len() as int).len() == 0);
    }
    Err(ExecError::OperationNotFound(key.clone()))
}

impl Router {
    /// Finds the query or mutation to run under `key`.
    pub fn exec(&self, kind: ExecKind, key: &String) -> (found: Result<usize, ExecError>)
        ensures
            resolved(
                match kind {
                    ExecKind::Query => self.queries@,
                    ExecKind::Mutation => self.mutations@,
                },
                key@,
                found,
            ),
    {
        match kind {
            ExecKind::Query => find_key(&self.queries, key),
            ExecKind::Mutation => find_key(&self.mutations, key),
        }
    }

    /// Finds the subscription to run under `key`.
    pub fn exec_subscription(&self, key: &String) -> (found: Result<usize, ExecError>)
        ensures
            resolved(self.subscriptions@, key@, found),
    {
        find_key(&self.subscriptions, key)
    }

    /// The queries.
    pub fn queries(&self) -> (queries: &Vec<ProcedureSignature>)
        ensures
            queries == self.queries,
    {
        &self.queries
    }

    /// The mutations.
    pub fn mutations(&self) -> (mutations: &Vec<ProcedureSignature>)
        ensures
            mutations == self.mutations,
    {
        &self.mutations
    }

    /// The subscriptions.
    pub fn subscriptions(&self) -> (subscriptions: &Vec<ProcedureSignature>)
        ensures
            subscriptions == self.subscriptions,
    {
        &self.subscriptions
    }

    /// The name that two of the router's types go by, if any two do.
    pub fn duplicate_type_name(&self) -> (name: Option<String>)
        ensures
            name.is_some() == has_duplicate(self.types@),
            name.is_some() ==> exists|i: int, j: int|
                0 <= i < j < self.types.len() && self.types[i].name@ == name.unwrap()@
                    && self.types[j].name@ == name.unwrap()@,
    {
        let mut j: usize = 0;
        while j < self.types.len()
            invariant
                0 <= j <= self.types.len(),
                forall|a: int, b: int| 0 <= a < b < j ==> self.types[a].name@ != self.types[b].name@,
            decreases self.types.len() - j,
        {
            let mut i: usize = 0;
            while i < j
                invariant
                    0 <= i <= j < self.types.len(),
                    forall|a: int| 0 <= a < i ==> self.types[a].name@ != self.types[j as int].name@,
                decreases j - i,
            {
                if self.types[i].name == self.types[j].name {
                    return Some(self.types[i].name.clone());
                }
                i = i + 1;
            }
            j = j + 1;
        }
        None
    }

    /// Writes the bindings for the front end: the header, the notice, the
    /// procedures of each kind, and the declaration of every type. Nothing
    /// is written where two types go by one name.
    pub fn export_ts(&self) -> (text: Result<String, ExportError>)
        ensures
            has_duplicate(self.types@) == text.is_err(),
            text matches Ok(written) ==> written@ == bindings_text(*self),
    {
        if let Some(name) = self.duplicate_type_name() {
            return Err(ExportError::DuplicateTypeName(name));
        }
        let mut text = match &self.bindings_header {
            Some(header) => header.clone().concat("\n"),
            None => String::new(),
        };
        proof {
            assert(text@ =~= header_text(self.bindings_header));
        }
        text = text.concat(
            "// This file was generated by [rspc](https://github.com/oscartbeaumont/rspc). Do not edit this file manually.\n",
        );
        text = text.concat("\nexport type Procedures = {\n    queries: ");
        text = text.concat(generate_procedures_ts(&self.queries).as_str());
        text = text.concat(",\n    mutations: ");
        text = text.concat(generate_procedures_ts(&self.mutations).as_str());
        text = text.concat(",\n    subscriptions: ");
        text = text.concat(generate_procedures_ts(&self.subscriptions).as_str());
        text = text.concat("\n};\n");
        let ghost head = text@;
        proof {
            assert(self.types@.take(0) =~= Seq::empty());
            assert(head + Seq::<char>::empty() =~= head);
        }
        let mut i: usize = 0;
        while i < self.types.len()
            invariant
                0 <= i <= self.types.len(),
                text@ == head + types_text(self.types@.take(i as int)),
            decreases self.types.len() - i,
        {
            text = text.concat("\n").concat(self.types[i].declaration.as_str()).concat("\n");
            proof {
                assert(self.types@.take(i + 1).drop_last() =~= self.types@.take(i as int));
                assert(self.types@.take(i + 1).last() == self.types@[i as int]);
                assert(text@ =~= head + types_text(self.types@.take(i + 1)));
            }
            i = i + 1;
        }
        proof {
            assert(self.types@.take(self.types.len() as int) =~= self.types@);
        }
        Ok(text)
    }
}

} // verus!
