//! The plugin registry: which native modules are attached, what each one
//! contributes to the dispatch namespace, and the discovery of module files
//! in a directory listing.
//!
//! A registry comes into being populated: `attach_libraries` builds it from
//! the results of loading what a scan of the discovery root found. A module
//! is attached exactly while the registry holds a record under its name;
//! loading and unloading are the steps that put the record there and take
//! it away.

use crate::json::clone_value;
use crate::lookup::{
    distinct, first_index_of, lemma_first_index_of, lemma_with_name, lemma_without_name,
    names_of, position_of, with_name, without_name, Named,
};
use crate::pipelines::{
    accepts_every_payload, all_accept_every_payload, has_fn, lemma_unregister_then_resolve,
    with_fn, without_fn, AvailableNativeFunctionMetaData, DispatchError, NativeFnContext,
    NativeFnRegistry, RegisteredFn,
};
use crate::text::texts;
use vstd::prelude::*;
use vstd::string::*;

verus! {

/// A module as the loader hands it over: what the module declares about
/// itself, the functions it exports with their handlers, where its file
/// lies and the hash of that file's content.
#[derive(Debug)]
pub struct AttachedPlugin<H> {
    pub name: String,
    pub description: String,
    pub cargo_version: String,
    pub functions: Vec<RegisteredFn<H>>,
    pub location: String,
    pub blake3_hash: String,
}

/// The record of an attached module, as callers get to read it.
#[derive(Debug)]
pub struct PluginDescription {
    pub name: String,
    pub description: String,
    pub version: String,
    pub functions: Vec<AvailableNativeFunctionMetaData>,
    pub location: String,
    pub blake3_hash: String,
}

/// What went wrong with a directory or a module.
#[derive(Debug)]
pub enum PluginError {
    /// The discovery root is no directory or could not be read; the text
    /// is the reason.
    DirectoryUnavailable(String),
    /// The module `name`, whose file lies at `location`, could not be
    /// loaded.
    ModuleLoadFailure { name: String, location: String, reason: String },
}

/// One exported function, as a value of the model.
pub struct FunctionView {
    pub name: Seq<char>,
    pub schema: serde_json::Value,
}

/// One module record, as a value of the model.
pub struct ModuleView {
    pub name: Seq<char>,
    pub description: Seq<char>,
    pub version: Seq<char>,
    pub functions: Seq<FunctionView>,
    pub location: Seq<char>,
    pub blake3_hash: Seq<char>,
}

impl View for AvailableNativeFunctionMetaData {
    type V = FunctionView;

    open spec fn view(&self) -> FunctionView {
        FunctionView { name: self.name@, schema: self.schema }
    }
}

impl View for PluginDescription {
    type V = ModuleView;

    open spec fn view(&self) -> ModuleView {
        ModuleView {
            name: self.name@,
            description: self.description@,
            version: self.version@,
            functions: Seq::new(self.functions@.len(), |i: int| self.functions@[i]@),
            location: self.location@,
            blake3_hash: self.blake3_hash@,
        }
    }
}

impl Named for PluginDescription {
    open spec fn spec_name(&self) -> Seq<char> {
        self.name@
    }

    #[inline]
    fn name(&self) -> (name: &String) {
        &self.name
    }
}

impl<H> AttachedPlugin<H> {
    /// The record that describes this module.
    pub open spec fn description_view(&self) -> ModuleView {
        ModuleView {
            name: self.name@,
            description: self.description@,
            version: self.cargo_version@,
            functions: Seq::new(
                self.functions@.len(),
                |i: int|
                    FunctionView {
                        name: self.functions@[i].name@,
                        schema: self.functions@[i].info.schema,
                    },
            ),
            location: self.location@,
            blake3_hash: self.blake3_hash@,
        }
    }
}

impl PluginDescription {
    /// The record of a module that was just loaded.
    pub fn from_plugin<H>(plugin: &AttachedPlugin<H>) -> (record: PluginDescription)
        ensures
            record@ == plugin.description_view(),
    {
        let mut functions: Vec<AvailableNativeFunctionMetaData> = Vec::new();
        let mut i: usize = 0;
        while i < plugin.functions.len()
            invariant
                i <= plugin.functions@.len(),
                functions@.len() == i,
                forall|j: int|
                    0 <= j < i ==> (#[trigger] functions@[j])@ == (FunctionView {
                        name: plugin.functions@[j].name@,
                        schema: plugin.functions@[j].info.schema,
                    }),
            decreases plugin.functions@.len() - i,
        {
            functions.push(
                AvailableNativeFunctionMetaData {
                    name: plugin.functions[i].name.clone(),
                    schema: clone_value(&plugin.functions[i].info.schema),
                },
            );
            i += 1;
        }
        let record = PluginDescription {
            name: plugin.name.clone(),
            description: plugin.description.clone(),
            version: plugin.cargo_version.clone(),
            functions,
            location: plugin.location.clone(),
            blake3_hash: plugin.blake3_hash.clone(),
        };
        assert(record@.functions =~= plugin.description_view().functions);
        record
    }
}

impl Clone for AvailableNativeFunctionMetaData {
    fn clone(&self) -> (copy: Self)
        ensures
            copy@ == self@,
    {
        AvailableNativeFunctionMetaData {
            name: self.name.clone(),
            schema: clone_value(&self.schema),
        }
    }
}

impl Clone for PluginDescription {
    fn clone(&self) -> (copy: Self)
        ensures
            copy@ == self@,
    {
        let mut functions: Vec<AvailableNativeFunctionMetaData> = Vec::new();
        let mut i: usize = 0;
        while i < self.functions.len()
            invariant
                i <= self.functions@.len(),
                functions@.len() == i,
                forall|j: int| 0 <= j < i ==> (#[trigger] functions@[j])@ == self.functions@[j]@,
            decreases self.functions@.len() - i,
        {
            functions.push(self.functions[i].clone());
            i += 1;
        }
        let copy = PluginDescription {
            name: self.name.clone(),
            description: self.description.clone(),
            version: self.version.clone(),
            functions,
            location: self.location.clone(),
            blake3_hash: self.blake3_hash.clone(),
        };
        assert(copy@.functions =~= self@.functions);
        copy
    }
}

/// The set of attached modules. No module name occurs twice; the records
/// stand in the order in which their names were first attached.
pub struct PluginRegistry {
    plugins: Vec<PluginDescription>,
}

/// The names of the records, in order.
pub open spec fn module_names(modules: Seq<ModuleView>) -> Seq<Seq<char>> {
    Seq::new(modules.len(), |i: int| modules[i].name)
}

/// A module of that name is attached.
pub open spec fn has_module(modules: Seq<ModuleView>, name: Seq<char>) -> bool {
    first_index_of(module_names(modules), name) < modules.len()
}

/// The record of the module of that name.
pub open spec fn module_named(modules: Seq<ModuleView>, name: Seq<char>) -> ModuleView {
    modules[first_index_of(module_names(modules), name)]
}

/// The records after a module was attached: a record of the same name is
/// replaced where it stands, and a new name gets a record at the end.
pub open spec fn with_module(modules: Seq<ModuleView>, module: ModuleView) -> Seq<ModuleView> {
    let at = first_index_of(module_names(modules), module.name);
    if at < modules.len() {
        modules.update(at, module)
    } else {
        modules.push(module)
    }
}

/// The records after the module of that name was unloaded.
pub open spec fn without_module(modules: Seq<ModuleView>, name: Seq<char>) -> Seq<ModuleView> {
    let at = first_index_of(module_names(modules), name);
    if at < modules.len() {
        modules.remove(at)
    } else {
        modules
    }
}

/// The names of the functions that a module exports, in order.
pub open spec fn function_names(module: ModuleView) -> Seq<Seq<char>> {
    Seq::new(module.functions.len(), |i: int| module.functions[i].name)
}

/// The dispatch table after the functions in `added` were registered one
/// after the other: a later registration of a name replaces an earlier one.
pub open spec fn merged<H>(entries: Seq<RegisteredFn<H>>, added: Seq<RegisteredFn<H>>) -> Seq<
    RegisteredFn<H>,
>
    decreases added.len(),
{
    if added.len() == 0 {
        entries
    } else {
        merged(with_fn(entries, added[0].name, added[0].info), added.drop_first())
    }
}

/// The dispatch table after every name in `names` was taken out.
pub open spec fn purged<H>(entries: Seq<RegisteredFn<H>>, names: Seq<Seq<char>>) -> Seq<
    RegisteredFn<H>,
>
    decreases names.len(),
{
    if names.len() == 0 {
        entries
    } else {
        purged(without_fn(entries, names[0]), names.drop_first())
    }
}

/// The dispatch table after the module of that name was unloaded: the
/// names of its functions are gone, whoever registered them.
pub open spec fn dispatch_after_unload<H>(
    modules: Seq<ModuleView>,
    entries: Seq<RegisteredFn<H>>,
    name: Seq<char>,
) -> Seq<RegisteredFn<H>> {
    if has_module(modules, name) {
        purged(entries, function_names(module_named(modules, name)))
    } else {
        entries
    }
}

/// The records as values of the model.
pub open spec fn views_of(plugins: Seq<PluginDescription>) -> Seq<ModuleView> {
    Seq::new(plugins.len(), |i: int| plugins[i]@)
}

impl View for PluginRegistry {
    type V = Seq<ModuleView>;

    closed spec fn view(&self) -> Seq<ModuleView> {
        views_of(self.plugins@)
    }
}

impl PluginRegistry {
    #[verifier::type_invariant]
    spec fn names_are_distinct(self) -> bool {
        distinct(module_names(self@))
    }

    /// A registry without modules.
    pub fn new() -> (registry: Self)
        ensures
            registry@.len() == 0,
    {
        PluginRegistry { plugins: Vec::new() }
    }

    /// The number of attached modules. The call also hands out what holds
    /// of every registry: no module name occurs twice.
    pub fn len(&self) -> (count: usize)
        ensures
            count == self@.len(),
            distinct(module_names(self@)),
    {
        proof {
            use_type_invariant(self);
        }
        self.plugins.len()
    }

    /// Attaches a module: records it under its name, in place of a record
    /// of the same name, and registers each of its functions for dispatch.
    /// Where a function name is already taken, the new function gets it.
    pub fn add_plugin<H>(&mut self, plugin: AttachedPlugin<H>, dispatch: &mut NativeFnRegistry<H>) where
        H: Fn(NativeFnContext) -> Result<(), DispatchError>,

        requires
            all_accept_every_payload(plugin.functions@),
        ensures
            final(self)@ == with_module(old(self)@, plugin.description_view()),
            distinct(module_names(final(self)@)),
            final(dispatch)@ == merged(old(dispatch)@, plugin.functions@),
            distinct(names_of(final(dispatch)@)),
            all_accept_every_payload(final(dispatch)@),
    {
        proof {
            use_type_invariant(&*self);
        }
        let record = PluginDescription::from_plugin(&plugin);
        let at = position_of(&self.plugins, &record.name);
        let ghost before = self@;
        proof {
            assert(names_of(self.plugins@) =~= module_names(before));
            lemma_names_with_module(before, record@);
            lemma_with_name(module_names(before), record.name@, record.name@);
        }
        let mut plugins: Vec<PluginDescription> = Vec::new();
        core::mem::swap(&mut self.plugins, &mut plugins);
        if at < plugins.len() {
            plugins.set(at, record);
        } else {
            plugins.push(record);
        }
        assert(views_of(plugins@) =~= with_module(before, plugin.description_view()));
        core::mem::swap(&mut self.plugins, &mut plugins);
        let _ = dispatch.len();
        let mut functions = plugin.functions;
        while functions.len() > 0
            invariant
                distinct(names_of(dispatch@)),
                all_accept_every_payload(dispatch@),
                all_accept_every_payload(functions@),
                merged(dispatch@, functions@) == merged(old(dispatch)@, plugin.functions@),
            decreases functions@.len(),
        {
            let ghost remaining = functions@;
            let function = functions.remove(0);
            proof {
                assert(function == remaining[0]);
                assert(functions@ =~= remaining.drop_first());
                assert forall|i: int| 0 <= i < functions@.len() implies accepts_every_payload(
                    #[trigger] functions@[i].info.handler,
                ) by {
                    assert(functions@[i] == remaining[i + 1]);
                }
            }
            dispatch.register(function.name, function.info);
        }
    }

    /// Unloads the module named `name`: its record goes, and with it the
    /// names of its functions leave the dispatch table. Says whether such a
    /// module was attached.
    pub fn unload_plugin<H>(&mut self, name: &str, dispatch: &mut NativeFnRegistry<H>) -> (unloaded:
        bool) where H: Fn(NativeFnContext) -> Result<(), DispatchError>
        ensures
            unloaded == has_module(old(self)@, name@),
            final(self)@ == without_module(old(self)@, name@),
            distinct(module_names(final(self)@)),
            final(dispatch)@ == dispatch_after_unload(old(self)@, old(dispatch)@, name@),
            distinct(names_of(final(dispatch)@)),
            all_accept_every_payload(final(dispatch)@),
    {
        proof {
            use_type_invariant(&*self);
        }
        let _ = dispatch.len();
        let wanted: String = name.to_owned();
        let at = position_of(&self.plugins, &wanted);
        let ghost before = self@;
        proof {
            assert(names_of(self.plugins@) =~= module_names(before));
            lemma_names_without_module(before, name@);
            lemma_without_name(module_names(before), name@, name@);
        }
        if at >= self.plugins.len() {
            return false;
        }
        let mut plugins: Vec<PluginDescription> = Vec::new();
        core::mem::swap(&mut self.plugins, &mut plugins);
        let record = plugins.remove(at);
        assert(views_of(plugins@) =~= without_module(before, name@));
        core::mem::swap(&mut self.plugins, &mut plugins);
        let ghost names = function_names(record@);
        assert(names.skip(0) == names);
        let mut i: usize = 0;
        while i < record.functions.len()
            invariant
                i <= record.functions@.len(),
                names == function_names(record@),
                distinct(names_of(dispatch@)),
                all_accept_every_payload(dispatch@),
                purged(dispatch@, names.skip(i as int)) == purged(old(dispatch)@, names),
            decreases record.functions@.len() - i,
        {
            proof {
                assert(names.skip(i as int).drop_first() == names.skip(i + 1));
            }
            let _ = dispatch.unregister(record.functions[i].name.as_str());
            i += 1;
        }
        true
    }

    /// A snapshot of the records of all attached modules, in order.
    pub fn fetch_plugins(&self) -> (listed: Vec<PluginDescription>)
        ensures
            listed@.len() == self@.len(),
            forall|i: int| 0 <= i < self@.len() ==> (#[trigger] listed@[i])@ == self@[i],
    {
        let mut listed: Vec<PluginDescription> = Vec::new();
        let mut i: usize = 0;
        while i < self.plugins.len()
            invariant
                i <= self.plugins@.len(),
                listed@.len() == i,
                forall|j: int| 0 <= j < i ==> (#[trigger] listed@[j])@ == self.plugins@[j]@,
            decreases self.plugins@.len() - i,
        {
            listed.push(self.plugins[i].clone());
            i += 1;
        }
        listed
    }
}

/// One entry of a directory listing.
#[derive(Debug)]
pub struct DirectoryEntry {
    /// The full path of the entry.
    pub path: String,
    /// The last component of the path.
    pub file_name: String,
    /// Whether the entry is a regular file.
    pub is_file: bool,
}

/// What came of listing the discovery root.
#[derive(Debug)]
pub enum DirectoryListing {
    /// The root is no directory. The text is the root as it is shown to
    /// the user.
    NotADirectory(String),
    /// The root could not be read, for this reason.
    Unreadable(String),
    /// The entries of the root, in the order in which they were read.
    Entries(Vec<DirectoryEntry>),
}

/// The file name has the extension `extension`: it ends in a dot and the
/// extension, and something stands before that dot.
pub open spec fn has_extension(file_name: Seq<char>, extension: Seq<char>) -> bool {
    &&& file_name.len() > extension.len() + 1
    &&& file_name.subrange(file_name.len() - extension.len() - 1, file_name.len() as int) == seq![
        '.',
    ] + extension
}

/// The file name carries the suffix of a native module on some platform.
pub open spec fn is_module_file_name(file_name: Seq<char>) -> bool {
    ||| has_extension(file_name, "so"@)
    ||| has_extension(file_name, "dll"@)
    ||| has_extension(file_name, "dylib"@)
}

/// The entry is a candidate module: a regular file with a module suffix.
pub open spec fn is_candidate(entry: DirectoryEntry) -> bool {
    entry.is_file && is_module_file_name(entry.file_name@)
}

/// The paths of the candidate modules among the entries, in listing order.
pub open spec fn candidate_paths(entries: Seq<DirectoryEntry>) -> Seq<Seq<char>>
    decreases entries.len(),
{
    if entries.len() == 0 {
        Seq::empty()
    } else if is_candidate(entries.last()) {
        candidate_paths(entries.drop_last()).push(entries.last().path@)
    } else {
        candidate_paths(entries.drop_last())
    }
}

/// Whether `file_name` has the extension `extension`.
fn file_has_extension(file_name: &str, extension: &str) -> (has: bool)
    ensures
        has == has_extension(file_name@, extension@),
{
    let name_len = file_name.unicode_len();
    let ext_len = extension.unicode_len();
    if ext_len >= name_len || name_len - ext_len < 2 {
        return false;
    }
    let start = name_len - ext_len - 1;
    let ghost tail = file_name@.subrange(start as int, name_len as int);
    if file_name.get_char(start) != '.' {
        assert(tail[0] == file_name@[start as int]);
        return false;
    }
    let mut i: usize = 0;
    while i < ext_len
        invariant
            i <= ext_len,
            ext_len == extension@.len(),
            name_len == file_name@.len(),
            start == name_len - ext_len - 1,
            tail == file_name@.subrange(start as int, name_len as int),
            file_name@[start as int] == '.',
            forall|j: int| 0 <= j < i ==> file_name@[start + 1 + j] == extension@[j],
        decreases ext_len - i,
    {
        if file_name.get_char(start + 1 + i) != extension.get_char(i) {
            assert(tail[1 + i] == file_name@[start + 1 + i]);
            assert((seq!['.'] + extension@)[1 + i] == extension@[i as int]);
            return false;
        }
        i += 1;
    }
    assert(tail =~= seq!['.'] + extension@);
    true
}

/// Picks the candidate modules out of a directory listing: the regular
/// files whose extension is `so`, `dll` or `dylib`. Other entries are
/// passed over. Only a root that is no directory or cannot be read is an
/// error.
pub fn get_lib_files_in_dir(listing: DirectoryListing) -> (found: Result<Vec<String>, PluginError>)
    ensures
        listing matches DirectoryListing::NotADirectory(shown) ==> (found matches Err(
            PluginError::DirectoryUnavailable(text),
        ) && text@ == shown@ + " is not a valid directory"@),
        listing matches DirectoryListing::Unreadable(reason) ==> (found matches Err(
            PluginError::DirectoryUnavailable(text),
        ) && text@ == reason@),
        listing matches DirectoryListing::Entries(entries) ==> (found matches Ok(paths) && texts(
            paths@,
        ) == candidate_paths(entries@)),
{
    match listing {
        DirectoryListing::NotADirectory(shown) => {
            let mut text = shown;
            text.append(" is not a valid directory");
            Err(PluginError::DirectoryUnavailable(text))
        },
        DirectoryListing::Unreadable(reason) => Err(PluginError::DirectoryUnavailable(reason)),
        DirectoryListing::Entries(entries) => {
            let mut paths: Vec<String> = Vec::new();
            let mut i: usize = 0;
            while i < entries.len()
                invariant
                    i <= entries@.len(),
                    texts(paths@) == candidate_paths(entries@.take(i as int)),
                decreases entries@.len() - i,
            {
                proof {
                    assert(entries@.take(i + 1).drop_last() == entries@.take(i as int));
                }
                let entry = &entries[i];
                let ghost before = paths@;
                if entry.is_file {
                    let name = entry.file_name.as_str();
                    if file_has_extension(name, "so") || file_has_extension(name, "dll")
                        || file_has_extension(name, "dylib") {
                        paths.push(entry.path.clone());
                        assert(texts(paths@) =~= texts(before).push(entry.path@));
                    }
                }
                i += 1;
            }
            assert(entries@.take(i as int) == entries@);
            Ok(paths)
        },
    }
}

/// The module records after a batch of load results was worked off in
/// order: each module that loaded is attached, each failure is skipped.
pub open spec fn modules_after<H>(
    modules: Seq<ModuleView>,
    loads: Seq<Result<AttachedPlugin<H>, String>>,
) -> Seq<ModuleView>
    decreases loads.len(),
{
    if loads.len() == 0 {
        modules
    } else {
        match loads[0] {
            Ok(plugin) => modules_after(
                with_module(modules, plugin.description_view()),
                loads.drop_first(),
            ),
            Err(_) => modules_after(modules, loads.drop_first()),
        }
    }
}

/// The dispatch table after the same batch: the functions of each module
/// that loaded are registered, in order.
pub open spec fn entries_after<H>(
    entries: Seq<RegisteredFn<H>>,
    loads: Seq<Result<AttachedPlugin<H>, String>>,
) -> Seq<RegisteredFn<H>>
    decreases loads.len(),
{
    if loads.len() == 0 {
        entries
    } else {
        match loads[0] {
            Ok(plugin) => entries_after(merged(entries, plugin.functions@), loads.drop_first()),
            Err(_) => entries_after(entries, loads.drop_first()),
        }
    }
}

/// Builds the registry from the results of loading each candidate module.
/// A module that did not load is skipped and the rest goes on.
pub fn attach_libraries<H>(
    loads: Vec<Result<AttachedPlugin<H>, String>>,
    dispatch: &mut NativeFnRegistry<H>,
) -> (registry: PluginRegistry) where H: Fn(NativeFnContext) -> Result<(), DispatchError>
    requires
        forall|i: int|
            0 <= i < loads@.len() ==> (#[trigger] loads@[i] matches Ok(plugin)
                ==> all_accept_every_payload(plugin.functions@)),
    ensures
        registry@ == modules_after(Seq::empty(), loads@),
        distinct(module_names(registry@)),
        final(dispatch)@ == entries_after(old(dispatch)@, loads@),
        distinct(names_of(final(dispatch)@)),
        all_accept_every_payload(final(dispatch)@),
{
    let _ = dispatch.len();
    let mut registry = PluginRegistry::new();
    assert(registry@ =~= Seq::empty());
    let mut loads = loads;
    let ghost all = loads@;
    while loads.len() > 0
        invariant
            forall|i: int|
                0 <= i < loads@.len() ==> (#[trigger] loads@[i] matches Ok(plugin)
                    ==> all_accept_every_payload(plugin.functions@)),
            distinct(names_of(dispatch@)),
            all_accept_every_payload(dispatch@),
            distinct(module_names(registry@)),
            modules_after(registry@, loads@) == modules_after(Seq::empty(), all),
            entries_after(dispatch@, loads@) == entries_after(old(dispatch)@, all),
        decreases loads@.len(),
    {
        let ghost remaining = loads@;
        let load = loads.remove(0);
        proof {
            assert(load == remaining[0]);
            assert(loads@ =~= remaining.drop_first());
            assert forall|i: int| 0 <= i < loads@.len() implies (#[trigger] loads@[i] matches Ok(plugin)
                ==> all_accept_every_payload(plugin.functions@)) by {
                assert(loads@[i] == remaining[i + 1]);
            }
        }
        match load {
            Ok(plugin) => {
                registry.add_plugin(plugin, dispatch);
            },
            Err(_) => {},
        }
    }
    registry
}

/// What a reload comes to once loading the file gave `attached`, seen from
/// the registry and the dispatch table as the unload left them: a module
/// that loaded is attached, and a failure leaves both as they are and is
/// reported with the name and the location that were asked for.
pub open spec fn reload_finished<H>(
    modules: Seq<ModuleView>,
    entries: Seq<RegisteredFn<H>>,
    asked: ModuleView,
    attached: Result<AttachedPlugin<H>, String>,
    modules_then: Seq<ModuleView>,
    entries_then: Seq<RegisteredFn<H>>,
    outcome: Result<(), PluginError>,
) -> bool {
    match attached {
        Ok(plugin) => {
            &&& outcome.is_ok()
            &&& modules_then == with_module(modules, plugin.description_view())
            &&& entries_then == merged(entries, plugin.functions@)
        },
        Err(reason) => {
            &&& outcome matches Err(PluginError::ModuleLoadFailure { name, location, reason: told })
                && name@ == asked.name && location@ == asked.location && told@ == reason@
            &&& modules_then == modules
            &&& entries_then == entries
        },
    }
}

/// The second step of a reload, after the old module was unloaded and its
/// file was loaded anew: attaches what loading gave, or reports the
/// failure and leaves the module unloaded.
pub fn finish_plugin_reload<H>(
    registry: &mut PluginRegistry,
    dispatch: &mut NativeFnRegistry<H>,
    plugin_desc: &PluginDescription,
    attached: Result<AttachedPlugin<H>, String>,
) -> (outcome: Result<(), PluginError>) where H: Fn(NativeFnContext) -> Result<(), DispatchError>
    requires
        attached matches Ok(plugin) ==> all_accept_every_payload(plugin.functions@),
    ensures
        reload_finished(
            old(registry)@,
            old(dispatch)@,
            plugin_desc@,
            attached,
            final(registry)@,
            final(dispatch)@,
            outcome,
        ),
        distinct(module_names(final(registry)@)),
        distinct(names_of(final(dispatch)@)),
        all_accept_every_payload(final(dispatch)@),
{
    let _ = registry.len();
    let _ = dispatch.len();
    match attached {
        Ok(plugin) => {
            registry.add_plugin(plugin, dispatch);
            Ok(())
        },
        Err(reason) => Err(
            PluginError::ModuleLoadFailure {
                name: plugin_desc.name.clone(),
                location: plugin_desc.location.clone(),
                reason,
            },
        ),
    }
}

/// Reloads a module: unloads the module that `plugin_desc` names, then
/// has `load` load the file at its location, then attaches what that gave.
/// The old module is unloaded before the file is touched. Where the file
/// does not load, the module stays unloaded and the failure is reported.
pub fn impl_request_plugin_reload<H, L>(
    registry: &mut PluginRegistry,
    dispatch: &mut NativeFnRegistry<H>,
    plugin_desc: &PluginDescription,
    load: L,
) -> (outcome: Result<(), PluginError>) where
    H: Fn(NativeFnContext) -> Result<(), DispatchError>,
    L: FnOnce(String) -> Result<AttachedPlugin<H>, String>,

    requires
        call_requires(load, (plugin_desc.location,)),
        forall|attached: Result<AttachedPlugin<H>, String>|
            call_ensures(load, (plugin_desc.location,), attached) ==> (attached matches Ok(plugin)
                ==> all_accept_every_payload(plugin.functions@)),
    ensures
        exists|attached: Result<AttachedPlugin<H>, String>|
            call_ensures(load, (plugin_desc.location,), attached) && #[trigger] reload_finished(
                without_module(old(registry)@, plugin_desc.name@),
                dispatch_after_unload(old(registry)@, old(dispatch)@, plugin_desc.name@),
                plugin_desc@,
                attached,
                final(registry)@,
                final(dispatch)@,
                outcome,
            ),
        distinct(module_names(final(registry)@)),
        distinct(names_of(final(dispatch)@)),
        all_accept_every_payload(final(dispatch)@),
{
    let _ = registry.unload_plugin(plugin_desc.name.as_str(), dispatch);
    let ghost modules = registry@;
    let ghost entries = dispatch@;
    let attached = load(plugin_desc.location.clone());
    let outcome = finish_plugin_reload(registry, dispatch, plugin_desc, attached);
    proof {
        assert(reload_finished(
            modules,
            entries,
            plugin_desc@,
            attached,
            registry@,
            dispatch@,
            outcome,
        ));
    }
    outcome
}

/// The names of the records after a module was attached.
pub proof fn lemma_names_with_module(modules: Seq<ModuleView>, module: ModuleView)
    ensures
        module_names(with_module(modules, module)) == with_name(module_names(modules), module.name),
{
    lemma_first_index_of(module_names(modules), module.name);
    assert(module_names(with_module(modules, module)) =~= with_name(
        module_names(modules),
        module.name,
    ));
}

/// The names of the records after a module was unloaded.
pub proof fn lemma_names_without_module(modules: Seq<ModuleView>, name: Seq<char>)
    ensures
        module_names(without_module(modules, name)) == without_name(module_names(modules), name),
{
    lemma_first_index_of(module_names(modules), name);
    assert(module_names(without_module(modules, name)) =~= without_name(
        module_names(modules),
        name,
    ));
}

/// After a module was attached, its name finds the new record, and every
/// other name finds what it found before.
pub proof fn lemma_attach_then_find(modules: Seq<ModuleView>, module: ModuleView, other: Seq<char>)
    ensures
        has_module(with_module(modules, module), module.name),
        module_named(with_module(modules, module), module.name) == module,
        other != module.name ==> has_module(with_module(modules, module), other) == has_module(
            modules,
            other,
        ),
        other != module.name && has_module(modules, other) ==> module_named(
            with_module(modules, module),
            other,
        ) == module_named(modules, other),
{
    lemma_names_with_module(modules, module);
    lemma_with_name(module_names(modules), module.name, other);
    lemma_first_index_of(module_names(modules), module.name);
    lemma_first_index_of(module_names(modules), other);
}

/// A reload that loads puts the new module in the place of the old one:
/// the name of what was loaded finds exactly the new record, and so the
/// content hash of the file that was loaded, whatever hash the module that
/// was unloaded had.
pub proof fn lemma_reload_takes_new_hash(
    modules: Seq<ModuleView>,
    unloaded: Seq<char>,
    loaded: ModuleView,
)
    ensures
        has_module(with_module(without_module(modules, unloaded), loaded), loaded.name),
        module_named(with_module(without_module(modules, unloaded), loaded), loaded.name)
            == loaded,
        module_named(
            with_module(without_module(modules, unloaded), loaded),
            loaded.name,
        ).blake3_hash == loaded.blake3_hash,
{
    lemma_attach_then_find(without_module(modules, unloaded), loaded, loaded.name);
}

/// Taking a list of names out of the dispatch table leaves none of them
/// behind, and leaves every other name as it was.
pub proof fn lemma_purged<H>(entries: Seq<RegisteredFn<H>>, names: Seq<Seq<char>>, name: Seq<char>)
    requires
        distinct(names_of(entries)),
    ensures
        distinct(names_of(purged(entries, names))),
        names.contains(name) ==> !has_fn(purged(entries, names), name),
        !names.contains(name) ==> has_fn(purged(entries, names), name) == has_fn(entries, name),
        !has_fn(entries, name) ==> !has_fn(purged(entries, names), name),
    decreases names.len(),
{
    if names.len() > 0 {
        let rest = names.drop_first();
        let next = without_fn(entries, names[0]);
        lemma_unregister_then_resolve(entries, names[0], name);
        lemma_purged(next, rest, name);
        if names.contains(name) {
            let k = choose|k: int| 0 <= k < names.len() && names[k] == name;
            if k > 0 {
                assert(rest[k - 1] == name);
            }
        } else {
            if rest.contains(name) {
                let k = choose|k: int| 0 <= k < rest.len() && rest[k] == name;
                assert(names[k + 1] == name);
            }
        }
    }
}

/// After a module was unloaded, none of the function names on its record
/// is in the dispatch table, so a call of any of them ends with
/// `FunctionNotFound`.
pub proof fn lemma_unloaded_functions_are_gone<H>(
    modules: Seq<ModuleView>,
    entries: Seq<RegisteredFn<H>>,
    name: Seq<char>,
    k: int,
)
    requires
        distinct(names_of(entries)),
        has_module(modules, name),
        0 <= k < function_names(module_named(modules, name)).len(),
    ensures
        !has_fn(
            dispatch_after_unload(modules, entries, name),
            function_names(module_named(modules, name))[k],
        ),
{
    let names = function_names(module_named(modules, name));
    assert(names.contains(names[k]));
    lemma_purged(entries, names, names[k]);
}

} // verus!
