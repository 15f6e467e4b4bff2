//! The dispatch registry: a table from function name to handler and input
//! schema, and the invocation of a handler by name.

use crate::json::clone_value;
use crate::lookup::{
    distinct, first_index_of, lemma_first_index_is, lemma_first_index_of, lemma_with_name,
    lemma_without_name, names_of, position_of, with_name, without_name, Named,
};
use serde_json::Value;
use vstd::prelude::*;
use vstd::string::*;

pub mod math;
pub mod nmap;

verus! {

/// The dispatch payload: the name of the function to call and the JSON
/// value that holds its arguments.
#[derive(Debug)]
pub struct NativeFnContext {
    pub name: String,
    pub context: Value,
}

/// How a dispatch ends when it does not succeed.
#[derive(Debug)]
pub enum DispatchError {
    /// No function is registered under this name.
    FunctionNotFound(String),
    /// The arguments do not fit the function's input type; the text says
    /// which field is at fault.
    InvalidArguments(String),
    /// An external process could not be started or did not exit with
    /// success.
    ExternalProcessFailure(String),
    /// The function itself reported a failure.
    HandlerFailure(String),
    /// The lock of a registry is poisoned.
    LockContention,
}

/// What the registry keeps for a function: its handler and the schema of
/// its input.
#[derive(Debug)]
pub struct NativeFnMetaInfo<H> {
    pub handler: H,
    pub schema: Value,
}

/// One row of the table.
#[derive(Debug)]
pub struct RegisteredFn<H> {
    pub name: String,
    pub info: NativeFnMetaInfo<H>,
}

/// What a caller gets to see of a registered function.
#[derive(Debug)]
pub struct AvailableNativeFunctionMetaData {
    pub name: String,
    pub schema: Value,
}

/// The table of callable functions. No name occurs twice, the rows stand in
/// the order in which their names were first registered, and every handler
/// may be called with every payload, so that a dispatch by name needs no
/// knowledge of the handler it reaches.
pub struct NativeFnRegistry<H> where H: Fn(NativeFnContext) -> Result<(), DispatchError> {
    entries: Vec<RegisteredFn<H>>,
}

impl<H> Named for RegisteredFn<H> {
    open spec fn spec_name(&self) -> Seq<char> {
        self.name@
    }

    #[inline]
    fn name(&self) -> (name: &String) {
        &self.name
    }
}

/// A row carries the name.
pub open spec fn has_fn<H>(entries: Seq<RegisteredFn<H>>, name: Seq<char>) -> bool {
    first_index_of(names_of(entries), name) < entries.len()
}

/// What the first row of that name holds.
pub open spec fn fn_named<H>(entries: Seq<RegisteredFn<H>>, name: Seq<char>) -> NativeFnMetaInfo<H> {
    entries[first_index_of(names_of(entries), name)].info
}

/// The table after a registration: the row of that name is replaced where
/// it stands, and a new name gets a row at the end.
pub open spec fn with_fn<H>(
    entries: Seq<RegisteredFn<H>>,
    name: String,
    info: NativeFnMetaInfo<H>,
) -> Seq<RegisteredFn<H>> {
    let at = first_index_of(names_of(entries), name@);
    if at < entries.len() {
        entries.update(at, RegisteredFn { name, info })
    } else {
        entries.push(RegisteredFn { name, info })
    }
}

/// The table after a name was taken out: the row of that name is gone and
/// the others keep their order.
pub open spec fn without_fn<H>(entries: Seq<RegisteredFn<H>>, name: Seq<char>) -> Seq<RegisteredFn<H>> {
    let at = first_index_of(names_of(entries), name);
    if at < entries.len() {
        entries.remove(at)
    } else {
        entries
    }
}

/// The handler may be called with every payload.
pub open spec fn accepts_every_payload<H>(handler: H) -> bool where
    H: Fn(NativeFnContext) -> Result<(), DispatchError>,
 {
    forall|payload: NativeFnContext| call_requires(handler, (payload,))
}

/// Every handler of the table may be called with every payload.
pub open spec fn all_accept_every_payload<H>(entries: Seq<RegisteredFn<H>>) -> bool where
    H: Fn(NativeFnContext) -> Result<(), DispatchError>,
 {
    forall|i: int| 0 <= i < entries.len() ==> accepts_every_payload(#[trigger] entries[i].info.handler)
}

/// The text of `FunctionNotFound` for a name.
pub open spec fn not_found_text(name: Seq<char>) -> Seq<char> {
    "Fn("@ + name + ") was not found"@
}

impl Clone for NativeFnContext {
    fn clone(&self) -> (copy: Self)
        ensures
            copy == *self,
    {
        NativeFnContext { name: self.name.clone(), context: clone_value(&self.context) }
    }
}

impl DispatchError {
    /// The error in words.
    pub open spec fn spec_message(&self) -> Seq<char> {
        match self {
            DispatchError::FunctionNotFound(name) => not_found_text(name@),
            DispatchError::InvalidArguments(detail) => detail@,
            DispatchError::ExternalProcessFailure(detail) => detail@,
            DispatchError::HandlerFailure(detail) => detail@,
            DispatchError::LockContention => "Failed to lock registry"@,
        }
    }

    /// The error in words, for a caller that shows it.
    pub fn message(&self) -> (text: String)
        ensures
            text@ == self.spec_message(),
    {
        match self {
            DispatchError::FunctionNotFound(name) => {
                let mut text: String = "Fn(".to_owned();
                text.append(name.as_str());
                text.append(") was not found");
                text
            },
            DispatchError::InvalidArguments(detail) => detail.clone(),
            DispatchError::ExternalProcessFailure(detail) => detail.clone(),
            DispatchError::HandlerFailure(detail) => detail.clone(),
            DispatchError::LockContention => "Failed to lock registry".to_owned(),
        }
    }
}

impl<H> View for NativeFnRegistry<H> where H: Fn(NativeFnContext) -> Result<(), DispatchError> {
    type V = Seq<RegisteredFn<H>>;

    closed spec fn view(&self) -> Seq<RegisteredFn<H>> {
        self.entries@
    }
}

impl<H> NativeFnRegistry<H> where H: Fn(NativeFnContext) -> Result<(), DispatchError> {
    #[verifier::type_invariant]
    spec fn well_formed(self) -> bool {
        distinct(names_of(self.entries@)) && all_accept_every_payload(self.entries@)
    }

    /// A registry without functions.
    pub fn new() -> (registry: Self)
        ensures
            registry@.len() == 0,
    {
        NativeFnRegistry { entries: Vec::new() }
    }

    /// The number of registered functions. The call also hands out what
    /// holds of every registry: no name occurs twice, and every handler
    /// may be called with every payload.
    pub fn len(&self) -> (count: usize)
        ensures
            count == self@.len(),
            distinct(names_of(self@)),
            all_accept_every_payload(self@),
    {
        proof {
            use_type_invariant(self);
        }
        self.entries.len()
    }

    /// Registers a function. A name that is already registered gets the new
    /// handler and schema in place of the old ones.
    pub fn register(&mut self, name: String, info: NativeFnMetaInfo<H>)
        requires
            accepts_every_payload(info.handler),
        ensures
            final(self)@ == with_fn(old(self)@, name, info),
            distinct(names_of(final(self)@)),
            all_accept_every_payload(final(self)@),
    {
        proof {
            use_type_invariant(&*self);
        }
        let at = position_of(&self.entries, &name);
        let ghost before = self.entries@;
        proof {
            lemma_names_with_fn(before, name, info);
            lemma_with_name(names_of(before), name@, name@);
        }
        let mut entries: Vec<RegisteredFn<H>> = Vec::new();
        core::mem::swap(&mut self.entries, &mut entries);
        if at < entries.len() {
            entries.set(at, RegisteredFn { name, info });
        } else {
            entries.push(RegisteredFn { name, info });
        }
        core::mem::swap(&mut self.entries, &mut entries);
    }

    /// Takes the function named `name` out of the table. Says whether there
    /// was one.
    pub fn unregister(&mut self, name: &str) -> (removed: bool)
        ensures
            removed == has_fn(old(self)@, name@),
            final(self)@ == without_fn(old(self)@, name@),
            distinct(names_of(final(self)@)),
            all_accept_every_payload(final(self)@),
    {
        proof {
            use_type_invariant(&*self);
        }
        let wanted: String = name.to_owned();
        let at = position_of(&self.entries, &wanted);
        let ghost before = self.entries@;
        proof {
            lemma_names_without_fn(before, name@);
            lemma_without_name(names_of(before), name@, name@);
        }
        if at < self.entries.len() {
            let mut entries: Vec<RegisteredFn<H>> = Vec::new();
            core::mem::swap(&mut self.entries, &mut entries);
            let _ = entries.remove(at);
            core::mem::swap(&mut self.entries, &mut entries);
            true
        } else {
            false
        }
    }

    /// The handler and schema registered under `name`.
    pub fn resolve(&self, name: &str) -> (found: Option<&NativeFnMetaInfo<H>>)
        ensures
            found.is_some() == has_fn(self@, name@),
            found matches Some(info) ==> *info == fn_named(self@, name@),
    {
        let wanted: String = name.to_owned();
        let at = position_of(&self.entries, &wanted);
        if at < self.entries.len() {
            Some(&self.entries[at].info)
        } else {
            None
        }
    }

    /// Name and schema of every registered function, in table order.
    pub fn list(&self) -> (listed: Vec<AvailableNativeFunctionMetaData>)
        ensures
            listed@.len() == self@.len(),
            forall|i: int|
                0 <= i < self@.len() ==> (#[trigger] listed@[i]).name@ == self@[i].name@
                    && listed@[i].schema == self@[i].info.schema,
    {
        let mut listed: Vec<AvailableNativeFunctionMetaData> = Vec::new();
        let mut i: usize = 0;
        while i < self.entries.len()
            invariant
                i <= self.entries@.len(),
                listed@.len() == i,
                forall|j: int|
                    0 <= j < i ==> (#[trigger] listed@[j]).name@ == self.entries@[j].name@
                        && listed@[j].schema == self.entries@[j].info.schema,
            decreases self.entries@.len() - i,
        {
            listed.push(
                AvailableNativeFunctionMetaData {
                    name: self.entries[i].name.clone(),
                    schema: clone_value(&self.entries[i].info.schema),
                },
            );
            i += 1;
        }
        listed
    }

    /// Calls the function that the payload names, with the payload. Where no
    /// function has that name the call fails with `FunctionNotFound`;
    /// otherwise the handler's own result comes back as it is.
    pub fn invoke(&self, payload: NativeFnContext) -> (outcome: Result<(), DispatchError>)
        ensures
            !has_fn(self@, payload.name@) ==> (outcome matches Err(
                DispatchError::FunctionNotFound(name),
            ) && name@ == payload.name@),
            has_fn(self@, payload.name@) ==> call_ensures(
                fn_named(self@, payload.name@).handler,
                (payload,),
                outcome,
            ),
    {
        proof {
            use_type_invariant(self);
        }
        let at = position_of(&self.entries, &payload.name);
        if at < self.entries.len() {
            assert(accepts_every_payload(self.entries@[at as int].info.handler));
            (self.entries[at].info.handler)(payload)
        } else {
            Err(DispatchError::FunctionNotFound(payload.name))
        }
    }
}

/// The text of `InvalidArguments` for a function whose arguments could not
/// be read, with the reader's reason.
pub open spec fn invalid_arguments_text(name: Seq<char>, reason: Seq<char>) -> Seq<char> {
    "Deserialization error for "@ + name + ": "@ + reason
}

/// Finishes the call of a typed function once its arguments were read from
/// the payload. Arguments that could not be read end the call with
/// `InvalidArguments`; otherwise the function runs on them and its result
/// comes back as it is.
pub fn apply_native_fn<T, F>(name: &str, arguments: Result<T, String>, f: &F) -> (outcome: Result<
    (),
    DispatchError,
>) where F: Fn(T) -> Result<(), DispatchError>
    requires
        arguments matches Ok(typed) ==> call_requires(*f, (typed,)),
    ensures
        arguments matches Ok(typed) ==> call_ensures(*f, (typed,), outcome),
        arguments matches Err(reason) ==> (outcome matches Err(
            DispatchError::InvalidArguments(text),
        ) && text@ == invalid_arguments_text(name@, reason@)),
{
    match arguments {
        Ok(typed) => f(typed),
        Err(reason) => {
            let mut text: String = "Deserialization error for ".to_owned();
            text.append(name);
            text.append(": ");
            text.append(reason.as_str());
            Err(DispatchError::InvalidArguments(text))
        },
    }
}

/// Finishes a dispatch for a caller that looked the handler up itself, so
/// that no lock on the registry is held while the handler runs. Without a
/// handler the dispatch ends with `FunctionNotFound`; otherwise the
/// handler's own result comes back as it is.
pub fn invoke_resolved<F>(found: Option<F>, payload: NativeFnContext) -> (outcome: Result<
    (),
    DispatchError,
>) where F: Fn(NativeFnContext) -> Result<(), DispatchError>
    requires
        found matches Some(handler) ==> call_requires(handler, (payload,)),
    ensures
        found.is_none() ==> (outcome matches Err(DispatchError::FunctionNotFound(name)) && name@
            == payload.name@),
        found matches Some(handler) ==> call_ensures(handler, (payload,), outcome),
{
    match found {
        Some(handler) => handler(payload),
        None => Err(DispatchError::FunctionNotFound(payload.name)),
    }
}

/// The table of the built-in functions: the network scan under `nmap`, the
/// logging sink under `log` and under `println!`, arithmetic under `math`.
pub fn impl_get_context<H>(
    nmap: NativeFnMetaInfo<H>,
    log: NativeFnMetaInfo<H>,
    println: NativeFnMetaInfo<H>,
    math: NativeFnMetaInfo<H>,
) -> (registry: NativeFnRegistry<H>) where H: Fn(NativeFnContext) -> Result<(), DispatchError>
    requires
        accepts_every_payload(nmap.handler),
        accepts_every_payload(log.handler),
        accepts_every_payload(println.handler),
        accepts_every_payload(math.handler),
    ensures
        names_of(registry@) == seq!["nmap"@, "log"@, "println!"@, "math"@],
        registry@[0].info == nmap,
        registry@[1].info == log,
        registry@[2].info == println,
        registry@[3].info == math,
{
    proof {
        reveal_strlit("nmap");
        reveal_strlit("log");
        reveal_strlit("println!");
        reveal_strlit("math");
        assert("nmap"@.len() == 4 && "log"@.len() == 3 && "println!"@.len() == 8);
        assert("math"@.len() == 4 && "math"@[0] == 'm' && "nmap"@[0] == 'n');
    }
    let mut registry = NativeFnRegistry::new();
    let ghost names0 = names_of(registry@);
    assert(names0 =~= Seq::<Seq<char>>::empty());
    registry.register("nmap".to_owned(), nmap);
    let ghost names1 = names_of(registry@);
    assert(names1 =~= seq!["nmap"@]);
    proof {
        lemma_first_index_is(names1, "log"@, 1);
    }
    registry.register("log".to_owned(), log);
    let ghost names2 = names_of(registry@);
    assert(names2 =~= seq!["nmap"@, "log"@]);
    proof {
        lemma_first_index_is(names2, "println!"@, 2);
    }
    registry.register("println!".to_owned(), println);
    let ghost names3 = names_of(registry@);
    assert(names3 =~= seq!["nmap"@, "log"@, "println!"@]);
    proof {
        lemma_first_index_is(names3, "math"@, 3);
    }
    registry.register("math".to_owned(), math);
    assert(names_of(registry@) =~= seq!["nmap"@, "log"@, "println!"@, "math"@]);
    registry
}

/// The names of the table after a registration.
pub proof fn lemma_names_with_fn<H>(
    entries: Seq<RegisteredFn<H>>,
    name: String,
    info: NativeFnMetaInfo<H>,
)
    ensures
        names_of(with_fn(entries, name, info)) == with_name(names_of(entries), name@),
{
    lemma_first_index_of(names_of(entries), name@);
    assert(names_of(with_fn(entries, name, info)) =~= with_name(names_of(entries), name@));
}

/// The names of the table after a name was taken out.
pub proof fn lemma_names_without_fn<H>(entries: Seq<RegisteredFn<H>>, name: Seq<char>)
    ensures
        names_of(without_fn(entries, name)) == without_name(names_of(entries), name),
{
    lemma_first_index_of(names_of(entries), name);
    assert(names_of(without_fn(entries, name)) =~= without_name(names_of(entries), name));
}

/// After a registration the name resolves to what was registered, and
/// every other name resolves as before.
pub proof fn lemma_register_then_resolve<H>(
    entries: Seq<RegisteredFn<H>>,
    name: String,
    info: NativeFnMetaInfo<H>,
    other: Seq<char>,
)
    ensures
        has_fn(with_fn(entries, name, info), name@),
        fn_named(with_fn(entries, name, info), name@) == info,
        other != name@ ==> has_fn(with_fn(entries, name, info), other) == has_fn(entries, other),
        other != name@ && has_fn(entries, other) ==> fn_named(with_fn(entries, name, info), other)
            == fn_named(entries, other),
{
    lemma_names_with_fn(entries, name, info);
    lemma_with_name(names_of(entries), name@, other);
    lemma_first_index_of(names_of(entries), name@);
    lemma_first_index_of(names_of(entries), other);
}

/// Registering a name twice leaves only the second registration: the name
/// resolves to it, and no second row carries the name.
pub proof fn lemma_second_registration_wins<H>(
    entries: Seq<RegisteredFn<H>>,
    first_name: String,
    first: NativeFnMetaInfo<H>,
    second_name: String,
    second: NativeFnMetaInfo<H>,
)
    requires
        distinct(names_of(entries)),
        first_name@ == second_name@,
    ensures
        has_fn(with_fn(with_fn(entries, first_name, first), second_name, second), first_name@),
        fn_named(with_fn(with_fn(entries, first_name, first), second_name, second), first_name@)
            == second,
        distinct(names_of(with_fn(with_fn(entries, first_name, first), second_name, second))),
        with_fn(with_fn(entries, first_name, first), second_name, second).len() == with_fn(
            entries,
            first_name,
            first,
        ).len(),
{
    let once = with_fn(entries, first_name, first);
    lemma_names_with_fn(entries, first_name, first);
    lemma_with_name(names_of(entries), first_name@, first_name@);
    lemma_names_with_fn(once, second_name, second);
    lemma_with_name(names_of(once), second_name@, second_name@);
    lemma_register_then_resolve(entries, first_name, first, first_name@);
    lemma_register_then_resolve(once, second_name, second, second_name@);
    lemma_first_index_of(names_of(once), second_name@);
}

/// After a name was taken out it resolves to nothing, and every other name
/// resolves as before.
pub proof fn lemma_unregister_then_resolve<H>(
    entries: Seq<RegisteredFn<H>>,
    name: Seq<char>,
    other: Seq<char>,
)
    requires
        distinct(names_of(entries)),
    ensures
        distinct(names_of(without_fn(entries, name))),
        !has_fn(without_fn(entries, name), name),
        other != name ==> has_fn(without_fn(entries, name), other) == has_fn(entries, other),
        other != name && has_fn(entries, other) ==> fn_named(without_fn(entries, name), other)
            == fn_named(entries, other),
{
    lemma_names_without_fn(entries, name);
    lemma_without_name(names_of(entries), name, other);
    lemma_first_index_of(names_of(entries), name);
    lemma_first_index_of(names_of(entries), other);
}

} // verus!
